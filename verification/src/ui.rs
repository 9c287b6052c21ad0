//! The arithmetic of scrolling panes.

use vstd::prelude::*;

verus! {

/// Half a pane's height, and at least one line.
pub open spec fn half_page(height: int) -> int {
    if height / 2 >= 1 {
        height / 2
    } else {
        1
    }
}

/// Half a pane's height, and at least one line.
pub fn half_page_height(height: u16) -> (r: u16)
    ensures
        r == half_page(height as int),
{
    let half: u16 = height / 2;
    if half >= 1 {
        half
    } else {
        1
    }
}

/// The scroll offset that shows the last lines of a text: the lines beyond one viewport, at
/// most `u16::MAX`.
pub open spec fn bottom_offset(line_count: int, viewport_height: int) -> int {
    let over = if line_count > viewport_height {
        line_count - viewport_height
    } else {
        0
    };
    if over > u16::MAX {
        u16::MAX as int
    } else {
        over
    }
}

/// The scroll offset that shows the last lines of a text.
pub fn bottom_scroll_offset(line_count: usize, viewport_height: u16) -> (r: u16)
    ensures
        r == bottom_offset(line_count as int, viewport_height as int),
{
    let h: usize = viewport_height as usize;
    let over: usize = if line_count > h {
        line_count - h
    } else {
        0
    };
    if over > 65535 {
        65535
    } else {
        over as u16
    }
}

} // verus!
