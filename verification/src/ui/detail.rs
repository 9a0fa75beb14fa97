//! The bounds of the detail view's scroll position, which the presentation
//! measures while it draws and reports back to the state.

use vstd::prelude::*;

verus! {

/// How far content of `total_lines` lines can be scrolled in a viewport of
/// `viewport_height` rows: by the lines that do not fit, counted up to the
/// largest scroll position there is.
pub open spec fn scroll_bound(total_lines: int, viewport_height: int) -> int {
    let lines = if total_lines > u16::MAX {
        u16::MAX as int
    } else {
        total_lines
    };
    if lines > viewport_height {
        lines - viewport_height
    } else {
        0
    }
}

/// The largest scroll position for content of `total_lines` lines in a
/// viewport of `viewport_height` rows.
pub fn scroll_max(total_lines: usize, viewport_height: u16) -> (bound: u16)
    ensures
        bound == scroll_bound(total_lines as int, viewport_height as int),
{
    let lines: u16 = if total_lines > 0xffff {
        0xffff
    } else {
        total_lines as u16
    };
    if lines > viewport_height {
        lines - viewport_height
    } else {
        0
    }
}

/// A scroll position kept inside its bound.
pub fn clamp_scroll(scroll: u16, scroll_max: u16) -> (clamped: u16)
    ensures
        clamped == (if scroll > scroll_max {
            scroll_max
        } else {
            scroll
        }),
{
    if scroll > scroll_max {
        scroll_max
    } else {
        scroll
    }
}

/// What the footer shows of the scroll position: the line at the top of the
/// viewport and the last line that can be there, both counted from 1, and
/// nothing where the content fits.
pub fn scroll_indicator(scroll: u16, scroll_max: u16) -> (shown: Option<(u32, u32)>)
    ensures
        scroll_max == 0 ==> shown.is_none(),
        scroll_max > 0 ==> match shown {
            Some((top, last)) => top == scroll + 1 && last == scroll_max + 1,
            None => false,
        },
{
    if scroll_max > 0 {
        Some((scroll as u32 + 1, scroll_max as u32 + 1))
    } else {
        None
    }
}

} // verus!
