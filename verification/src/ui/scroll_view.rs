//! Scrolling back through the output region of the split screen: which
//! history lines are shown where, when the view splits into frozen
//! scrollback above live output, and when scrolling ends. Drawing is the
//! caller's.
use vstd::prelude::*;
use crate::model::Pattern;
use crate::ui::history::{line_matches, History};
use crate::ui::scroll_data::{
    allowed, clamp_reaches, clamped_pos, ScrollData, ScrollError, ScrollSettings,
};

verus! {

/// Rows kept for live output below the frozen scrollback of a split view.
pub const SCROLL_LIVE_BUFFER_SIZE: u16 = 10;

/// Rows of the output region from `start` to `end`.
pub open spec fn region_rows(start: u16, end: u16) -> int {
    end - start + 1
}

/// Rows of frozen scrollback shown while scrolling: the live rows are held
/// back when the view may split and the region has more rows than them.
pub open spec fn spec_scroll_range(start: u16, end: u16, allow_split: bool) -> int {
    if allow_split && region_rows(start, end) > SCROLL_LIVE_BUFFER_SIZE {
        region_rows(start, end) - SCROLL_LIVE_BUFFER_SIZE
    } else {
        region_rows(start, end)
    }
}

/// The output region runs from `start` to `end`, both on the terminal.
pub open spec fn region_ok(start: u16, end: u16) -> bool {
    1 <= start <= end
}

/// Rows of the output region.
pub fn output_range(start: u16, end: u16) -> (r: u16)
    requires
        region_ok(start, end),
    ensures
        r == region_rows(start, end),
{
    end - start + 1
}

/// Rows of frozen scrollback shown while scrolling.
pub fn scroll_range(start: u16, end: u16, allow_split: bool) -> (r: u16)
    requires
        region_ok(start, end),
    ensures
        r == spec_scroll_range(start, end, allow_split),
{
    let range = output_range(start, end);
    if allow_split && range > SCROLL_LIVE_BUFFER_SIZE {
        range - SCROLL_LIVE_BUFFER_SIZE
    } else {
        range
    }
}

/// How scrolling back begins on screen.
#[derive(Debug, Clone, Copy, PartialEq, Eq, Structural)]
pub enum ScrollStart {
    /// The region splits: the divider row, with live output below it.
    Split { divider_line: u16 },
    /// No room to split: the status area shows a scroll marker.
    Marker,
}

/// What the screen does after a scroll request.
#[derive(Debug, Clone, Copy, PartialEq, Eq, Structural)]
pub enum ScrollAction {
    Nothing,
    /// Draw the scrollback from the scroll position, after starting the
    /// scroll view this way if given.
    Draw(Option<ScrollStart>),
    /// Leave the scroll view.
    Reset,
}

/// How `init_scroll` starts the view for a region from `start` to `end`.
pub open spec fn start_of(start: u16, end: u16, allow_split: bool) -> ScrollStart {
    if spec_scroll_range(start, end, allow_split) < region_rows(start, end) {
        ScrollStart::Split {
            divider_line: (spec_scroll_range(start, end, allow_split) + start) as u16,
        }
    } else {
        ScrollStart::Marker
    }
}

/// `after` is `before` with its scroll position only changed, and `pos`.
pub open spec fn only_pos(before: ScrollData, after: ScrollData, pos: int) -> bool {
    &&& after.pos == pos
    &&& after.active == before.active
    &&& after.split == before.split
    &&& after.scroll_lock == before.scroll_lock
    &&& after.hilite == before.hilite
    &&& after.allow_split == before.allow_split
    &&& after.allow_scroll_lock == before.allow_scroll_lock
}

/// `after` is `before` with the scroll view started as `start_of` says and
/// the position set to `pos`.
pub open spec fn started(before: ScrollData, after: ScrollData, start: u16, end: u16, pos: int) -> bool {
    &&& after.pos == pos
    &&& after.active
    &&& after.split == (before.split || start_of(start, end, before.allow_split) is Split)
    &&& after.scroll_lock == before.scroll_lock
    &&& after.hilite == before.hilite
    &&& after.allow_split == before.allow_split
    &&& after.allow_scroll_lock == before.allow_scroll_lock
}

/// The position after `clamp`: stepped back by whole drains while the view
/// is scrolled and the position lies past the history.
pub open spec fn clamped(sd: ScrollData, hist: History) -> int {
    if sd.active {
        clamped_pos(sd.pos as int, hist.visible_lines().len() as int, hist.spec_drain_length())
    } else {
        sd.pos as int
    }
}

/// The scroll position can be clamped.
pub open spec fn clamp_ok(sd: ScrollData, hist: History) -> bool {
    sd.active ==> clamp_reaches(
        sd.pos as int,
        hist.visible_lines().len() as int,
        hist.spec_drain_length(),
    )
}

/// Starts the scroll view: a split when the region has room for live
/// output below the scrollback, the scroll marker otherwise.
pub fn init_scroll(sd: &mut ScrollData, start: u16, end: u16) -> (r: ScrollStart)
    requires
        region_ok(start, end),
    ensures
        r == start_of(start, end, old(sd).allow_split),
        started(*old(sd), *final(sd), start, end, old(sd).pos as int),
{
    sd.active = true;
    let range = scroll_range(start, end, sd.allow_split);
    if range < output_range(start, end) {
        sd.split = true;
        ScrollStart::Split { divider_line: range + start }
    } else {
        ScrollStart::Marker
    }
}

/// Scrolls back five lines, starting from the last screenful when not yet
/// scrolled; nothing happens while the history fits.
pub fn scroll_up(sd: &mut ScrollData, hist: &History, start: u16, end: u16) -> (r: ScrollAction)
    requires
        region_ok(start, end),
        clamp_ok(*old(sd), *hist),
    ensures
        ({
            let len = hist.visible_lines().len() as int;
            let range = spec_scroll_range(start, end, old(sd).allow_split);
            let p = clamped(*old(sd), *hist);
            if len > range {
                let from = if old(sd).active {
                    p
                } else {
                    len - range
                };
                let to = if from >= 5 {
                    from - 5
                } else {
                    0
                };
                &&& if old(sd).active {
                    r == ScrollAction::Draw(None) && only_pos(*old(sd), *final(sd), to)
                } else {
                    r == ScrollAction::Draw(Some(start_of(start, end, old(sd).allow_split)))
                        && started(*old(sd), *final(sd), start, end, to)
                }
            } else {
                r == ScrollAction::Nothing && only_pos(*old(sd), *final(sd), p)
            }
        }),
{
    sd.clamp(hist);
    let len = hist.len();
    let range = scroll_range(start, end, sd.allow_split) as usize;
    if len > range {
        let mut begun: Option<ScrollStart> = None;
        if !sd.active {
            begun = Some(init_scroll(sd, start, end));
            sd.pos = len - range;
        }
        sd.pos = if sd.pos >= 5 {
            sd.pos - 5
        } else {
            0
        };
        ScrollAction::Draw(begun)
    } else {
        ScrollAction::Nothing
    }
}

/// Scrolls forward five lines; reaching the last screenful leaves the
/// scroll view.
pub fn scroll_down(sd: &mut ScrollData, hist: &History, start: u16, end: u16) -> (r: ScrollAction)
    requires
        region_ok(start, end),
        clamp_ok(*old(sd), *hist),
        old(sd).active ==> old(sd).pos + 5 <= usize::MAX,
    ensures
        ({
            let len = hist.visible_lines().len() as int;
            let range = spec_scroll_range(start, end, old(sd).allow_split);
            let p = clamped(*old(sd), *hist);
            if !old(sd).active {
                r == ScrollAction::Nothing && only_pos(*old(sd), *final(sd), p)
            } else if len >= range && p + 5 >= len - range {
                r == ScrollAction::Reset && only_pos(*old(sd), *final(sd), p)
            } else {
                r == ScrollAction::Draw(None) && only_pos(*old(sd), *final(sd), p + 5)
            }
        }),
{
    sd.clamp(hist);
    if sd.active {
        let len = hist.len();
        let range = scroll_range(start, end, sd.allow_split) as usize;
        let next = sd.pos + 5;
        if len >= range && next >= len - range {
            ScrollAction::Reset
        } else {
            sd.pos = next;
            ScrollAction::Draw(None)
        }
    } else {
        ScrollAction::Nothing
    }
}

/// Scrolls so that history line `row` is the first shown; a row within the
/// last screenful leaves the scroll view instead. Nothing happens while the
/// history fits.
pub fn scroll_to(sd: &mut ScrollData, hist: &History, start: u16, end: u16, row: usize) -> (r:
    ScrollAction)
    requires
        region_ok(start, end),
        clamp_ok(*old(sd), *hist),
    ensures
        ({
            let len = hist.visible_lines().len() as int;
            let range = spec_scroll_range(start, end, old(sd).allow_split);
            let p = clamped(*old(sd), *hist);
            if len > range {
                if row < len - range {
                    r == ScrollAction::Draw(Some(start_of(start, end, old(sd).allow_split)))
                        && started(*old(sd), *final(sd), start, end, row as int)
                } else {
                    r == ScrollAction::Reset && only_pos(*old(sd), *final(sd), p)
                }
            } else {
                r == ScrollAction::Nothing && only_pos(*old(sd), *final(sd), p)
            }
        }),
{
    sd.clamp(hist);
    let len = hist.len();
    let range = scroll_range(start, end, sd.allow_split) as usize;
    if len > range {
        if row < len - range {
            let begun = init_scroll(sd, start, end);
            sd.pos = row;
            ScrollAction::Draw(Some(begun))
        } else {
            ScrollAction::Reset
        }
    } else {
        ScrollAction::Nothing
    }
}

/// Scrolls to the first history line, when the history reaches the last
/// output row (its length taken as a row number).
pub fn scroll_top(sd: &mut ScrollData, hist: &History, start: u16, end: u16) -> (r: ScrollAction)
    requires
        region_ok(start, end),
    ensures
        (hist.visible_lines().len() as u16) >= end ==> r == ScrollAction::Draw(
            Some(start_of(start, end, old(sd).allow_split)),
        ) && started(*old(sd), *final(sd), start, end, 0),
        (hist.visible_lines().len() as u16) < end ==> r == ScrollAction::Nothing && *final(sd)
            == *old(sd),
{
    let len = hist.len();
    if len as u16 >= end {
        let begun = init_scroll(sd, start, end);
        sd.pos = 0;
        ScrollAction::Draw(Some(begun))
    } else {
        ScrollAction::Nothing
    }
}

/// Where searching back starts: the scroll position, else the first line
/// of the last screenful, else the end of a history that fits.
pub open spec fn find_up_from(sd: ScrollData, hist: History, start: u16, end: u16) -> int {
    let len = hist.visible_lines().len() as int;
    let range = spec_scroll_range(start, end, sd.allow_split);
    if sd.active {
        clamped(sd, hist)
    } else if len > range {
        len - range
    } else {
        len
    }
}

/// Searches back for `pattern` and scrolls to the line found, highlighting
/// the pattern; nothing happens when no line matches. Gives the line found.
pub fn find_up(sd: &mut ScrollData, hist: &History, start: u16, end: u16, pattern: &Pattern) -> (r: (
    Option<usize>,
    ScrollAction,
))
    requires
        region_ok(start, end),
        clamp_ok(*old(sd), *hist),
    ensures
        ({
            let from = find_up_from(*old(sd), *hist, start, end);
            match r.0 {
                Some(i) => {
                    &&& i < from
                    &&& line_matches(pattern@, hist.visible_lines()[i as int])
                    &&& forall|j: int|
                        i < j < from ==> !line_matches(pattern@, #[trigger] hist.visible_lines()[j])
                    &&& final(sd).hilite matches Some(h) && h@ == pattern@
                },
                None => {
                    &&& forall|j: int|
                        0 <= j < from ==> !line_matches(pattern@, #[trigger] hist.visible_lines()[j])
                    &&& r.1 == ScrollAction::Nothing
                    &&& only_pos(*old(sd), *final(sd), clamped(*old(sd), *hist))
                },
            }
        }),
{
    sd.clamp(hist);
    proof {
        if old(sd).active {
            crate::ui::scroll_data::lemma_clamped_pos_in_range(
                old(sd).pos as int,
                hist.visible_lines().len() as int,
                hist.spec_drain_length(),
            );
        }
    }
    let len = hist.len();
    let range = scroll_range(start, end, sd.allow_split) as usize;
    let from = if sd.active {
        sd.pos
    } else if len > range {
        len - range
    } else {
        len
    };
    match hist.find_backward(pattern, from) {
        Some(line) => {
            sd.hilite = Some(pattern.duplicate());
            let action = scroll_to(sd, hist, start, end, line);
            (Some(line), action)
        },
        None => (None, ScrollAction::Nothing),
    }
}

/// While scrolled, searches forward from the line after the scroll
/// position for `pattern` and scrolls to the line found, highlighting the
/// pattern. Gives the line found.
pub fn find_down(sd: &mut ScrollData, hist: &History, start: u16, end: u16, pattern: &Pattern) -> (r: (
    Option<usize>,
    ScrollAction,
))
    requires
        region_ok(start, end),
        clamp_ok(*old(sd), *hist),
    ensures
        !old(sd).active ==> r.0 is None && r.1 == ScrollAction::Nothing && *final(sd) == *old(sd),
        old(sd).active ==> ({
            let len = hist.visible_lines().len() as int;
            let p = clamped(*old(sd), *hist);
            let from = if p + 1 <= len {
                p + 1
            } else {
                len
            };
            match r.0 {
                Some(i) => {
                    &&& from <= i < len
                    &&& line_matches(pattern@, hist.visible_lines()[i as int])
                    &&& forall|j: int|
                        from <= j < i ==> !line_matches(pattern@, #[trigger] hist.visible_lines()[j])
                    &&& final(sd).hilite matches Some(h) && h@ == pattern@
                },
                None => {
                    &&& forall|j: int|
                        from <= j < len ==> !line_matches(pattern@, #[trigger] hist.visible_lines()[j])
                    &&& r.1 == ScrollAction::Nothing
                    &&& only_pos(*old(sd), *final(sd), p)
                },
            }
        }),
{
    if !sd.active {
        return (None, ScrollAction::Nothing);
    }
    sd.clamp(hist);
    let len = hist.len();
    let from = if sd.pos < len {
        sd.pos + 1
    } else {
        len
    };
    match hist.find_forward(pattern, from) {
        Some(line) => {
            sd.hilite = Some(pattern.duplicate());
            let target = if line < len - 1 {
                line
            } else {
                len - 1
            };
            let action = scroll_to(sd, hist, start, end, target);
            (Some(line), action)
        },
        None => (None, ScrollAction::Nothing),
    }
}

/// The rows drawn while scrolled: for each row of the scrollback from the
/// top, its terminal line and the history line shown there, stopping at
/// the end of the history.
pub fn scroll_rows(sd: &ScrollData, hist: &History, start: u16, end: u16) -> (r: Vec<(u16, usize)>)
    requires
        region_ok(start, end),
    ensures
        ({
            let len = hist.visible_lines().len() as int;
            let range = spec_scroll_range(start, end, sd.allow_split);
            let n = if sd.pos >= len {
                0
            } else if len - sd.pos < range {
                len - sd.pos
            } else {
                range
            };
            &&& r@.len() == n
            &&& forall|i: int|
                0 <= i < n ==> (#[trigger] r@[i]).0 == start + i && r@[i].1 == sd.pos + i
        }),
{
    let range = scroll_range(start, end, sd.allow_split);
    let len = hist.len();
    let n: u16 = if sd.pos >= len {
        0
    } else if len - sd.pos < range as usize {
        (len - sd.pos) as u16
    } else {
        range
    };
    let mut out: Vec<(u16, usize)> = Vec::new();
    let mut i: u16 = 0;
    while i < n
        invariant
            region_ok(start, end),
            n <= spec_scroll_range(start, end, sd.allow_split) <= region_rows(start, end),
            n <= len - sd.pos || n == 0,
            len == hist.visible_lines().len(),
            i <= n,
            out@.len() == i,
            forall|k: int| 0 <= k < i ==> (#[trigger] out@[k]).0 == start + k && out@[k].1 == sd.pos + k,
        decreases n - i,
    {
        out.push((start + i, sd.pos + i as usize));
        i += 1;
    }
    out
}

/// What leaving the scroll view redraws.
#[derive(Debug, PartialEq, Eq)]
pub struct ResetPlan {
    /// The split is undone: the whole region scrolls again.
    pub reset_region: bool,
    /// The status area's scroll marker goes.
    pub clear_marker: bool,
    /// The last screenful: each output row with the history line shown
    /// there, when the history fills the region.
    pub rows: Vec<(u16, usize)>,
    /// The history is shorter than the region: all of it is printed again
    /// in order from the bottom row.
    pub replay_all: bool,
}

/// Leaves the scroll view (see `ScrollData::reset`, given the saved
/// settings as loaded) and says what to redraw; when the settings could
/// not be loaded, the error comes back and nothing is to be redrawn.
pub fn reset_scroll(
    sd: &mut ScrollData,
    hist: &History,
    start: u16,
    end: u16,
    settings: Result<ScrollSettings, ScrollError>,
) -> (res: Result<ResetPlan, ScrollError>)
    requires
        region_ok(start, end),
    ensures
        res is Ok <==> settings is Ok,
        !final(sd).active && !final(sd).split && final(sd).hilite is None,
        final(sd).pos == if hist.visible_lines().len() == 0 {
            0
        } else {
            hist.visible_lines().len() - 1
        },
        settings matches Ok(s) ==> final(sd).allow_split == allowed(s.split)
            && final(sd).allow_scroll_lock == allowed(s.scroll_lock),
        settings is Err ==> final(sd).allow_split == old(sd).allow_split
            && final(sd).allow_scroll_lock == old(sd).allow_scroll_lock,
        final(sd).scroll_lock == old(sd).scroll_lock,
        res matches Ok(r) ==> r.reset_region == old(sd).split,
        res matches Ok(r) ==> r.clear_marker == (!old(sd).split && old(sd).active),
        res matches Ok(r) ==> ({
            let len = hist.visible_lines().len() as int;
            let range = region_rows(start, end);
            if len >= range {
                &&& !r.replay_all
                &&& r.rows@.len() == range
                &&& forall|i: int|
                    0 <= i < range ==> (#[trigger] r.rows@[i]).0 == start + i && r.rows@[i].1 == len
                        - range + i
            } else {
                r.replay_all && r.rows@.len() == 0
            }
        }),
{
    let reset_region = sd.split;
    let clear_marker = !sd.split && sd.active;
    if let Err(e) = sd.reset(hist, settings) {
        return Err(e);
    }
    let range = output_range(start, end);
    let len = hist.len();
    let mut rows: Vec<(u16, usize)> = Vec::new();
    if len >= range as usize {
        let first = len - range as usize;
        let mut i: u16 = 0;
        while i < range
            invariant
                region_ok(start, end),
                range == region_rows(start, end),
                first + range == len,
                i <= range,
                rows@.len() == i,
                forall|k: int|
                    0 <= k < i ==> (#[trigger] rows@[k]).0 == start + k && rows@[k].1 == first + k,
            decreases range - i,
        {
            rows.push((start + i, first + i as usize));
            i += 1;
        }
        Ok(ResetPlan { reset_region, clear_marker, rows, replay_all: false })
    } else {
        Ok(ResetPlan { reset_region, clear_marker, rows, replay_all: true })
    }
}

/// A split scroll view always keeps ten rows of live output below the
/// frozen scrollback, whatever the height of the output region, and puts
/// its divider on the row just above them; a region of ten rows or fewer,
/// or a view that may not split, shows scrollback over the whole region.
pub proof fn lemma_live_rows_kept(start: u16, end: u16)
    requires
        region_ok(start, end),
    ensures
        region_rows(start, end) > 10 ==> region_rows(start, end) - spec_scroll_range(start, end, true)
            == 10,
        region_rows(start, end) > 10 ==> start_of(start, end, true) == (ScrollStart::Split {
            divider_line: (end - 9) as u16,
        }),
        region_rows(start, end) <= 10 ==> spec_scroll_range(start, end, true) == region_rows(
            start,
            end,
        ),
        spec_scroll_range(start, end, false) == region_rows(start, end),
        start_of(start, end, false) == ScrollStart::Marker,
{
}

} // verus!
