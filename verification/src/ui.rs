//! The state behind the three views of the board.

pub mod app;
pub mod detail;
pub mod notice;
pub mod search;

pub use app::{Action, App, AppView, Column, KeyCode, KeyEvent, KeyEventKind, View};
pub use notice::Notice;
pub use search::{
    highlight, rank, rank_candidates, Candidate, CandidateView, SearchResult, SearchResultView,
    Segment, SegmentView,
};
