//! Synthetic scroll-wheel input: which wheel deltas one scroll step posts.

use vstd::prelude::*;

use super::ScrollDirection;

verus! {

/// The (vertical, horizontal) line deltas of one scroll step of `lines`
/// lines. Positive vertical deltas scroll toward the top of the page and
/// positive horizontal ones toward the left edge, so "down" (revealing
/// content below) is negative.
pub open spec fn scroll_deltas_spec(direction: ScrollDirection, lines: int) -> (int, int) {
    match direction {
        ScrollDirection::Down => (-lines, 0),
        ScrollDirection::Up => (lines, 0),
        ScrollDirection::Right => (0, -lines),
        ScrollDirection::Left => (0, lines),
    }
}

/// The wheel deltas the scroll event for one step carries.
pub fn scroll_deltas(direction: ScrollDirection, lines: i32) -> (d: (i32, i32))
    requires
        lines > i32::MIN,
    ensures
        (d.0 as int, d.1 as int) == scroll_deltas_spec(direction, lines as int),
{
    match direction {
        ScrollDirection::Down => (-lines, 0),
        ScrollDirection::Up => (lines, 0),
        ScrollDirection::Right => (0, -lines),
        ScrollDirection::Left => (0, lines),
    }
}

} // verus!
