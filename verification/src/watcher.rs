//! The change signal: which file events mean that the store may have
//! changed.

use vstd::prelude::*;

verus! {

/// The kind of a file event, as the watcher reports it.
#[derive(Debug, Clone, Copy, PartialEq, Eq, Structural)]
pub enum ChangeKind {
    Any,
    Access,
    Create,
    Modify,
    Remove,
    Other,
}

/// Whether an event of this kind may have changed the store: one that
/// created or modified a watched file.
pub open spec fn is_relevant(kind: ChangeKind) -> bool {
    kind == ChangeKind::Create || kind == ChangeKind::Modify
}

/// Whether a batch of events holds a relevant one.
pub open spec fn has_relevant(batch: Seq<ChangeKind>) -> bool {
    exists|i: int| 0 <= i < batch.len() && is_relevant(#[trigger] batch[i])
}

/// Whether a debounced batch of events signals a change of the store.
pub fn signals_change(batch: &Vec<ChangeKind>) -> (changed: bool)
    ensures
        changed == has_relevant(batch@),
{
    let mut i: usize = 0;
    while i < batch.len()
        invariant
            i <= batch.len(),
            forall|k: int| 0 <= k < i ==> !is_relevant(#[trigger] batch@[k]),
        decreases batch.len() - i,
    {
        match batch[i] {
            ChangeKind::Create | ChangeKind::Modify => {
                return true;
            },
            _ => {},
        }
        i += 1;
    }
    false
}

/// The change signal as the board's loop sees it: one pending flag. Any
/// number of batches that signal a change leave it set, and a poll takes it.
#[derive(Debug)]
pub struct ChangeSignal {
    pending: bool,
}

impl ChangeSignal {
    /// Whether a change is waiting to be polled.
    pub closed spec fn pending(&self) -> bool {
        self.pending
    }

    /// A signal with nothing pending.
    pub fn new() -> (signal: ChangeSignal)
        ensures
            !signal.pending(),
    {
        ChangeSignal { pending: false }
    }

    /// Takes note of a batch of events: a change is pending afterwards if
    /// one was before or the batch signals one.
    pub fn record(&mut self, batch: &Vec<ChangeKind>)
        ensures
            final(self).pending() == (old(self).pending() || has_relevant(batch@)),
    {
        if signals_change(batch) {
            self.pending = true;
        }
    }

    /// Says whether a change was pending, and clears the signal.
    pub fn poll(&mut self) -> (changed: bool)
        ensures
            changed == old(self).pending(),
            !final(self).pending(),
    {
        let changed = self.pending;
        self.pending = false;
        changed
    }
}

} // verus!
