//! Verified state model of a terminal Kanban board over an issue tracker.
//!
//! - [`beads`]: the issue data model, the store and its rows, and the
//!   contract that every load keeps: the label filter and the load order.
//! - [`ui`]: the application state with its three views (board, detail,
//!   search), the keys that change it, reconciliation after a reload, and
//!   the search engine with its ranking and highlighting.
//! - [`fuzzy`]: the fuzzy matcher that scores issues against a query.
//! - [`sorting`]: the stable sort behind load order and search ranking.
//! - [`text`]: the order of strings and a few string operations.
//! - [`watcher`]: which file events signal that the store has changed.
//! - [`config`]: what the command line decides.
//!
//! The library does no input or output. A caller reads the store, the
//! terminal and the file events, hands what it read to the functions here,
//! and draws the state they return.

pub mod beads;
pub mod config;
pub mod fuzzy;
pub mod sorting;
pub mod text;
pub mod ui;
pub mod watcher;
