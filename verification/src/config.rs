//! What the command line decides before the board starts.

use vstd::prelude::*;

verus! {

/// The label that issues are filtered by unless another is asked for.
pub const DEFAULT_LABEL: &'static str = "ralph";

/// The label filter to load with: none where all issues are asked for, else
/// the label given on the command line.
pub fn label_filter(all: bool, label: Option<String>) -> (filter: Option<String>)
    ensures
        all ==> filter.is_none(),
        !all ==> filter == label,
{
    if all {
        None
    } else {
        label
    }
}

} // verus!
