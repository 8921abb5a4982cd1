//! Vertical screen layout arithmetic.
//!
//! The screen is divided top to bottom into: the top area (`top_rows` rows),
//! the output/scroll region, the MUD prompt row, the status area and the user
//! input area, which always ends on the last terminal row.
use vstd::prelude::*;

verus! {

/// A scroll region must span at least two rows (DECSTBM requires `Pt < Pb`).
pub const MIN_OUTPUT_ROWS: u16 = 2;

/// An input area is never zero rows.
pub const INPUT_HEIGHT_MIN: u16 = 1;

/// Upper bound on a requested input height.
pub const INPUT_HEIGHT_MAX: u16 = 10;

/// Absolute, 1-based terminal row numbers for each region boundary.
#[derive(Debug, Clone, Copy, PartialEq, Eq, Structural)]
pub struct ScreenLayout {
    /// First row of the output/scroll region.
    pub output_start_line: u16,
    /// Last row of the output/scroll region.
    pub output_line: u16,
    /// The row carrying the MUD's own prompt.
    pub mud_prompt_line: u16,
    /// First row of the user input area.
    pub input_start_line: u16,
    /// Rows granted to the input area.
    pub input_height: u16,
    /// Rows granted to the status area.
    pub status_height: u16,
}

pub open spec fn min_int(a: int, b: int) -> int {
    if a <= b { a } else { b }
}

pub open spec fn max_int(a: int, b: int) -> int {
    if a >= b { a } else { b }
}

/// `x` clamped into `[lo, hi]`.
pub open spec fn clamp_int(x: int, lo: int, hi: int) -> int {
    if x < lo { lo } else if x > hi { hi } else { x }
}

/// Rows left over once the top area, the minimal output region, the prompt row
/// and the mandatory input row have been placed.
pub open spec fn spare_rows(term_height: u16, top_rows: u16) -> int {
    term_height - top_rows - (MIN_OUTPUT_ROWS + 1 + INPUT_HEIGHT_MIN)
}

/// Whether any layout fits at all.
pub open spec fn layout_fits(term_height: u16, top_rows: u16) -> bool {
    top_rows < u16::MAX && spare_rows(term_height, top_rows) >= 0
}

/// The status area keeps its request as long as the spare rows allow it.
pub open spec fn granted_status(term_height: u16, top_rows: u16, status_height: u16) -> int {
    min_int(status_height as int, spare_rows(term_height, top_rows))
}

/// The input area yields first: it gets whatever the status area left over,
/// above its minimum, up to its clamped request.
pub open spec fn granted_input(
    term_height: u16,
    top_rows: u16,
    status_height: u16,
    input_height: u16,
) -> int {
    let requested = clamp_int(input_height as int, INPUT_HEIGHT_MIN as int, INPUT_HEIGHT_MAX as int);
    INPUT_HEIGHT_MIN + min_int(
        requested - INPUT_HEIGHT_MIN,
        spare_rows(term_height, top_rows) - granted_status(term_height, top_rows, status_height),
    )
}

/// The layout for the given terminal height and region requests, if any fits.
pub open spec fn layout_of(
    term_height: u16,
    top_rows: u16,
    status_height: u16,
    input_height: u16,
) -> Option<ScreenLayout> {
    if !layout_fits(term_height, top_rows) {
        None
    } else {
        let status = granted_status(term_height, top_rows, status_height);
        let input = granted_input(term_height, top_rows, status_height, input_height);
        let output_rows = MIN_OUTPUT_ROWS + spare_rows(term_height, top_rows) - (input
            - INPUT_HEIGHT_MIN) - status;
        let output_start = top_rows + 1;
        let output_line = output_start + output_rows - 1;
        Some(
            ScreenLayout {
                output_start_line: output_start as u16,
                output_line: output_line as u16,
                mud_prompt_line: (output_line + 1) as u16,
                input_start_line: (output_line + 1 + status + 1) as u16,
                input_height: input as u16,
                status_height: status as u16,
            },
        )
    }
}

impl ScreenLayout {
    /// Number of rows in the output region, as an integer.
    pub open spec fn spec_output_rows(&self) -> int {
        self.output_line - self.output_start_line + 1
    }

    /// Divide a terminal `term_height` rows tall between the regions.
    ///
    /// `input_height` and `status_height` are requests: when the terminal is
    /// too short they are reduced, the input area first (down to one row), then
    /// the status area (down to nothing). `None` when even the minimal layout
    /// does not fit.
    pub fn compute(term_height: u16, top_rows: u16, status_height: u16, input_height: u16) -> (r:
        Option<Self>)
        ensures
            r == layout_of(term_height, top_rows, status_height, input_height),
    {
        if top_rows == u16::MAX {
            return None;
        }
        let output_start_line = top_rows + 1;
        if term_height < top_rows {
            return None;
        }
        let budget = term_height - top_rows;
        let fixed: u16 = MIN_OUTPUT_ROWS + 1 + INPUT_HEIGHT_MIN;
        if budget < fixed {
            return None;
        }
        let spare = budget - fixed;

        let mut input = if input_height < INPUT_HEIGHT_MIN {
            INPUT_HEIGHT_MIN
        } else if input_height > INPUT_HEIGHT_MAX {
            INPUT_HEIGHT_MAX
        } else {
            input_height
        };
        let mut status = status_height;

        // Only rows beyond the guaranteed minimum are drawn from `spare`.
        if (input - INPUT_HEIGHT_MIN) as u32 + status as u32 > spare as u32 {
            // Shrink the input area first, down to its minimum.
            let overflow: u32 = (input - INPUT_HEIGHT_MIN) as u32 + status as u32 - spare as u32;
            let extra = (input - INPUT_HEIGHT_MIN) as u32;
            let give: u32 = if overflow < extra {
                overflow
            } else {
                extra
            };
            input = input - give as u16;
            // Then the status area, down to nothing.
            let rest: u32 = overflow - give;
            status = if (status as u32) < rest {
                0
            } else {
                (status as u32 - rest) as u16
            };
        }
        let output_rows = MIN_OUTPUT_ROWS + spare - (input - INPUT_HEIGHT_MIN) - status;
        let output_line = output_start_line + output_rows - 1;
        let mud_prompt_line = output_line + 1;
        let input_start_line = mud_prompt_line + status + 1;
        Some(
            Self {
                output_start_line,
                output_line,
                mud_prompt_line,
                input_start_line,
                input_height: input,
                status_height: status,
            },
        )
    }

    /// Whether the output region may be programmed as a scroll region.
    pub fn is_scroll_region_valid(&self) -> (r: bool)
        ensures
            r == (self.output_line > self.output_start_line),
    {
        self.output_line > self.output_start_line
    }

    /// Number of rows in the output region.
    pub fn output_rows(&self) -> (r: u16)
        requires
            self.output_line >= self.output_start_line,
            self.output_line - self.output_start_line + 1 <= u16::MAX,
        ensures
            r == self.spec_output_rows(),
    {
        self.output_line - self.output_start_line + 1
    }
}

/// Every layout that `compute` returns tiles the terminal exactly: the output
/// region starts right below the top area, the prompt row follows it, the
/// status area follows the prompt row, and the input area ends on the last
/// terminal row.
pub proof fn lemma_layout_tiles_terminal(
    term_height: u16,
    top_rows: u16,
    status_height: u16,
    input_height: u16,
)
    requires
        layout_of(term_height, top_rows, status_height, input_height) is Some,
    ensures
        ({
            let l = layout_of(term_height, top_rows, status_height, input_height)->0;
            &&& l.output_start_line == top_rows + 1
            &&& l.mud_prompt_line == l.output_line + 1
            &&& l.input_start_line == l.mud_prompt_line + l.status_height + 1
            &&& l.input_start_line + l.input_height - 1 == term_height
        }),
{
}

/// A returned layout never programs a degenerate scroll region: the output
/// region always keeps at least `MIN_OUTPUT_ROWS` rows.
pub proof fn lemma_layout_scroll_region_valid(
    term_height: u16,
    top_rows: u16,
    status_height: u16,
    input_height: u16,
)
    requires
        layout_of(term_height, top_rows, status_height, input_height) is Some,
    ensures
        ({
            let l = layout_of(term_height, top_rows, status_height, input_height)->0;
            &&& l.output_line > l.output_start_line
            &&& l.spec_output_rows() >= MIN_OUTPUT_ROWS
        }),
{
}

/// Granted heights never exceed the requests (the input request taken after
/// clamping to its bounds), and the input area never drops below its minimum.
pub proof fn lemma_layout_respects_requests(
    term_height: u16,
    top_rows: u16,
    status_height: u16,
    input_height: u16,
)
    requires
        layout_of(term_height, top_rows, status_height, input_height) is Some,
    ensures
        ({
            let l = layout_of(term_height, top_rows, status_height, input_height)->0;
            &&& INPUT_HEIGHT_MIN <= l.input_height <= INPUT_HEIGHT_MAX
            &&& l.input_height <= max_int(input_height as int, INPUT_HEIGHT_MIN as int)
            &&& l.status_height <= status_height
        }),
{
}

/// The input area yields before the status area: whenever the status area
/// lost rows, the input area is already at its minimum.
pub proof fn lemma_input_yields_first(
    term_height: u16,
    top_rows: u16,
    status_height: u16,
    input_height: u16,
)
    requires
        layout_of(term_height, top_rows, status_height, input_height) is Some,
        layout_of(term_height, top_rows, status_height, input_height)->0.status_height
            < status_height,
    ensures
        layout_of(term_height, top_rows, status_height, input_height)->0.input_height
            == INPUT_HEIGHT_MIN,
{
}

} // verus!
