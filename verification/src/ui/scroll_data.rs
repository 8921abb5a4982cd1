//! Scrolling state of an output area.
use vstd::prelude::*;
use crate::model::Pattern;
use crate::ui::history::History;

verus! {

/// Whether stepping `pos` down by `step` until it is below `len` ends on a
/// valid position (it never needs to go below zero).
pub open spec fn clamp_reaches(pos: int, len: int, step: int) -> bool
    decreases pos,
{
    if pos < len {
        true
    } else if step <= 0 || pos < step {
        false
    } else {
        clamp_reaches(pos - step, len, step)
    }
}

/// The position `pos` stepped down by `step` until it is below `len`.
pub open spec fn clamped_pos(pos: int, len: int, step: int) -> int
    decreases pos,
{
    if pos < len || step <= 0 || pos < step {
        pos
    } else {
        clamped_pos(pos - step, len, step)
    }
}

/// Reported when scroll settings cannot be applied.
#[derive(Debug)]
pub struct ScrollError;

pub struct ScrollData {
    /// The view is scrolled back.
    pub active: bool,
    /// The view is split into frozen scrollback and live output.
    pub split: bool,
    /// First history line shown while scrolled.
    pub pos: usize,
    /// New output scrolls back to where it began.
    pub scroll_lock: bool,
    /// Pattern highlighted while scrolled.
    pub hilite: Option<Pattern>,
    /// The user allows a split view.
    pub allow_split: bool,
    /// The user allows scroll lock.
    pub allow_scroll_lock: bool,
}

/// The saved scroll settings, as loaded: each one `None` when it is not
/// set.
#[derive(Debug, Clone, Copy, PartialEq, Eq, Structural)]
pub struct ScrollSettings {
    /// Whether a split view is allowed.
    pub split: Option<bool>,
    /// Whether scroll lock is allowed.
    pub scroll_lock: Option<bool>,
}

impl ScrollSettings {
    /// No setting saved.
    pub fn unset() -> (r: ScrollSettings)
        ensures
            r.split is None && r.scroll_lock is None,
    {
        ScrollSettings { split: None, scroll_lock: None }
    }
}

/// A saved allowance; one that is not set is granted.
pub open spec fn allowed(setting: Option<bool>) -> bool {
    match setting {
        Some(b) => b,
        None => true,
    }
}

/// Takes a saved allowance, granting one that is not set.
fn allowance(setting: Option<bool>) -> (r: bool)
    ensures
        r == allowed(setting),
{
    match setting {
        Some(b) => b,
        None => true,
    }
}

impl ScrollData {
    /// Not scrolled, at the top, the user allowances taken from the saved
    /// `settings` (granted when not set).
    pub fn new(settings: &ScrollSettings) -> (r: ScrollData)
        ensures
            !r.active && !r.split && r.pos == 0 && !r.scroll_lock && r.hilite is None,
            r.allow_split == allowed(settings.split),
            r.allow_scroll_lock == allowed(settings.scroll_lock),
    {
        ScrollData {
            active: false,
            split: false,
            pos: 0,
            scroll_lock: false,
            hilite: None,
            allow_split: allowance(settings.split),
            allow_scroll_lock: allowance(settings.scroll_lock),
        }
    }

    /// Leaves scrolling: the position moves to the last line of `history`;
    /// then the user allowances are taken anew from the saved settings as
    /// they were loaded. When they could not be loaded, the error is given
    /// back and the allowances stay as they were.
    pub fn reset(&mut self, history: &History, settings: Result<ScrollSettings, ScrollError>) -> (r:
        Result<(), ScrollError>)
        ensures
            r is Ok <==> settings is Ok,
            !final(self).active && !final(self).split && final(self).hilite is None,
            final(self).pos == if history.visible_lines().len() == 0 {
                0
            } else {
                history.visible_lines().len() - 1
            },
            final(self).scroll_lock == old(self).scroll_lock,
            settings matches Ok(s) ==> final(self).allow_split == allowed(s.split)
                && final(self).allow_scroll_lock == allowed(s.scroll_lock),
            settings is Err ==> final(self).allow_split == old(self).allow_split
                && final(self).allow_scroll_lock == old(self).allow_scroll_lock,
    {
        self.active = false;
        self.split = false;
        self.hilite = None;
        self.pos = if history.is_empty() {
            0
        } else {
            history.len() - 1
        };
        match settings {
            Ok(s) => {
                self.allow_split = allowance(s.split);
                self.allow_scroll_lock = allowance(s.scroll_lock);
                Ok(())
            },
            Err(e) => Err(e),
        }
    }

    /// Turns scroll lock on or off; it only turns on when the user allows it.
    pub fn lock(&mut self, lock: bool) -> (r: Result<(), ScrollError>)
        ensures
            r is Ok,
            final(self).scroll_lock == (lock && old(self).allow_scroll_lock),
            final(self).active == old(self).active,
            final(self).split == old(self).split,
            final(self).pos == old(self).pos,
            final(self).allow_split == old(self).allow_split,
            final(self).allow_scroll_lock == old(self).allow_scroll_lock,
            final(self).hilite == old(self).hilite,
    {
        self.scroll_lock = lock && self.allow_scroll_lock;
        Ok(())
    }

    /// Whether live output is visible: the view is not scrolled, or it is
    /// split.
    pub fn not_scrolled_or_split(&self) -> (r: bool)
        ensures
            r == (!self.active || self.split),
    {
        !self.active || self.split
    }

    /// After the history was drained, moves a scrolled position back by whole
    /// drains until it points at a line that exists.
    pub fn clamp(&mut self, history: &History)
        requires
            old(self).active ==> clamp_reaches(
                old(self).pos as int,
                history.visible_lines().len() as int,
                history.spec_drain_length(),
            ),
        ensures
            final(self).pos == if old(self).active {
                clamped_pos(
                    old(self).pos as int,
                    history.visible_lines().len() as int,
                    history.spec_drain_length(),
                )
            } else {
                old(self).pos as int
            },
            final(self).active == old(self).active,
            final(self).split == old(self).split,
            final(self).scroll_lock == old(self).scroll_lock,
            final(self).allow_split == old(self).allow_split,
            final(self).allow_scroll_lock == old(self).allow_scroll_lock,
            final(self).hilite == old(self).hilite,
            old(self).active ==> final(self).pos < history.visible_lines().len(),
    {
        if self.active {
            let len = history.len();
            let step = history.drain_len();
            let mut pos = self.pos;
            while pos >= len
                invariant
                    len == history.visible_lines().len(),
                    step == history.spec_drain_length(),
                    clamp_reaches(pos as int, len as int, step as int),
                    clamped_pos(pos as int, len as int, step as int) == clamped_pos(
                        old(self).pos as int,
                        len as int,
                        step as int,
                    ),
                decreases pos,
            {
                pos = pos - step;
            }
            self.pos = pos;
        }
    }
}

/// Clamping always ends on an existing line when it can end at all.
pub proof fn lemma_clamped_pos_in_range(pos: int, len: int, step: int)
    requires
        clamp_reaches(pos, len, step),
        pos >= 0,
    ensures
        0 <= clamped_pos(pos, len, step) < len,
    decreases pos,
{
    if pos >= len {
        lemma_clamped_pos_in_range(pos - step, len, step);
    }
}

} // verus!
