//! The message that tells of a failed reload. It is shown over the view
//! until the next reload or the next key; the state of the board is not
//! touched by a reload that fails.

use crate::text::opt_view;
use crate::ui::app::{KeyEvent, KeyEventKind};
use vstd::prelude::*;

verus! {

/// What a notice begins with when a reload has failed.
pub const RELOAD_FAILED: &'static str = "Reload failed: ";

/// The message to show over the view, if there is one.
#[derive(Debug, Clone)]
pub struct Notice {
    pub message: Option<String>,
}

impl View for Notice {
    type V = Option<Seq<char>>;

    open spec fn view(&self) -> Option<Seq<char>> {
        opt_view(self.message)
    }
}

impl Notice {
    /// No message.
    pub fn none() -> (notice: Notice)
        ensures
            notice@.is_none(),
    {
        Notice { message: None }
    }

    /// The notice after a reload: none where it succeeded, else the cause of
    /// its failure.
    pub fn after_reload(failure: Option<&str>) -> (notice: Notice)
        ensures
            notice@ == (match failure {
                Some(cause) => Some(RELOAD_FAILED@ + cause@),
                None => None,
            }),
    {
        match failure {
            Some(cause) => Notice { message: Some(String::from_str(RELOAD_FAILED).concat(cause)) },
            None => Notice { message: None },
        }
    }

    /// The notice after a key event: a key that is pressed takes the message
    /// away, any other event leaves it.
    pub fn after_key(self, key: KeyEvent) -> (notice: Notice)
        ensures
            key.kind == KeyEventKind::Press ==> notice@.is_none(),
            key.kind != KeyEventKind::Press ==> notice == self,
    {
        match key.kind {
            KeyEventKind::Press => Notice { message: None },
            _ => self,
        }
    }
}

} // verus!
