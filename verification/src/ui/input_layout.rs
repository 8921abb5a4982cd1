//! Arithmetic for the user input area: how tall it wants to be and which of
//! its rows are on screen.
use vstd::prelude::*;
use std::ops::Range;
pub use crate::ui::input_rows::{cursor_row_col, rows};
use crate::ui::layout::{INPUT_HEIGHT_MAX, INPUT_HEIGHT_MIN, clamp_int, min_int, max_int};

verus! {

/// The height the input area wants for `row_count` rows of content.
pub open spec fn spec_desired_height(row_count: int, configured: int, auto_expand: bool) -> int {
    let configured = clamp_int(configured, INPUT_HEIGHT_MIN as int, INPUT_HEIGHT_MAX as int);
    if auto_expand {
        clamp_int(row_count, configured, INPUT_HEIGHT_MAX as int)
    } else {
        configured
    }
}

/// First visible row when `row_count` rows are shown in a `height`-row area.
pub open spec fn spec_visible_start(row_count: int, cursor_row: int, height: int) -> int {
    let h = max_int(height, INPUT_HEIGHT_MIN as int);
    if row_count <= h {
        0
    } else {
        min_int(max_int(cursor_row - (h - 1), 0), row_count - h)
    }
}

/// One past the last visible row.
pub open spec fn spec_visible_end(row_count: int, cursor_row: int, height: int) -> int {
    let h = max_int(height, INPUT_HEIGHT_MIN as int);
    if row_count <= h {
        row_count
    } else {
        spec_visible_start(row_count, cursor_row, height) + h
    }
}

/// How many rows the input area wants, given how many the content occupies.
///
/// `configured` is a minimum: with auto-expand off it is the height; with it
/// on the area grows with the content up to `INPUT_HEIGHT_MAX`.
pub fn desired_height(row_count: usize, configured: u16, auto_expand: bool) -> (r: u16)
    ensures
        r == spec_desired_height(row_count as int, configured as int, auto_expand),
{
    let configured = if configured < INPUT_HEIGHT_MIN {
        INPUT_HEIGHT_MIN
    } else if configured > INPUT_HEIGHT_MAX {
        INPUT_HEIGHT_MAX
    } else {
        configured
    };
    if auto_expand {
        let rows: u16 = if row_count > u16::MAX as usize {
            u16::MAX
        } else {
            row_count as u16
        };
        if rows < configured {
            configured
        } else if rows > INPUT_HEIGHT_MAX {
            INPUT_HEIGHT_MAX
        } else {
            rows
        }
    } else {
        configured
    }
}

/// Which rows are on screen when the content is taller than the input area.
/// The window is pinned to the bottom of the content once it reaches the end.
pub fn visible_rows(row_count: usize, cursor_row: usize, height: u16) -> (r: Range<usize>)
    ensures
        r.start == spec_visible_start(row_count as int, cursor_row as int, height as int),
        r.end == spec_visible_end(row_count as int, cursor_row as int, height as int),
{
    let h: usize = if height < INPUT_HEIGHT_MIN {
        INPUT_HEIGHT_MIN as usize
    } else {
        height as usize
    };
    if row_count <= h {
        return 0..row_count;
    }
    let max_start = row_count - h;
    let back = if cursor_row >= h - 1 {
        cursor_row - (h - 1)
    } else {
        0
    };
    let start = if back < max_start {
        back
    } else {
        max_start
    };
    start..start + h
}

/// The visible window always contains the cursor's row, never runs past the
/// content and is never taller than the area.
pub proof fn lemma_visible_window_contains_cursor(row_count: int, cursor_row: int, height: int)
    requires
        0 <= cursor_row < row_count,
        height >= 0,
    ensures
        ({
            let start = spec_visible_start(row_count, cursor_row, height);
            let end = spec_visible_end(row_count, cursor_row, height);
            &&& 0 <= start <= cursor_row < end <= row_count
            &&& end - start <= max_int(height, INPUT_HEIGHT_MIN as int)
        }),
{
}

/// The desired height always lies within the input area's bounds, and never
/// below the configured minimum.
pub proof fn lemma_desired_height_bounds(row_count: int, configured: int, auto_expand: bool)
    ensures
        INPUT_HEIGHT_MIN <= spec_desired_height(row_count, configured, auto_expand)
            <= INPUT_HEIGHT_MAX,
        spec_desired_height(row_count, configured, auto_expand) >= clamp_int(
            configured,
            INPUT_HEIGHT_MIN as int,
            INPUT_HEIGHT_MAX as int,
        ),
{
}

} // verus!
