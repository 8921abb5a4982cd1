//! The input row of the screen-reader mode: one row that a screen reader
//! follows, redrawn as little as possible so that only what changed is
//! announced.
use vstd::prelude::*;
use crate::display::{
    display_width_of, fit_end, fit_index, printable_mask, printable_mask_of, width_of_chars,
    width_upto,
};
use crate::text::{chars_of, string_of};
use crate::display::lemma_width_upto_monotone;
use crate::ui::split_screen::{
    glyphs_fit, glyphs_fit_check, head, hscroll, scroll_to_cursor, tail,
};
use crate::ui::user_interface::UiError;

verus! {

/// `s` with every row break turned into a space, the one-column character
/// a screen reader reads as a pause.
pub open spec fn breaks_as_spaces(s: Seq<char>) -> Seq<char> {
    s.map_values(|c: char| if c == '\n' { ' ' } else { c })
}

/// The characters of `s` that `mask` marks as printed, in order.
pub open spec fn printed_chars(s: Seq<char>, mask: Seq<bool>) -> Seq<char>
    decreases s.len(),
{
    if s.len() == 0 {
        Seq::empty()
    } else {
        let rest = printed_chars(s.drop_last(), mask.take(s.len() - 1));
        if mask[s.len() - 1] {
            rest.push(s.last())
        } else {
            rest
        }
    }
}

/// Every character printed.
pub open spec fn all_printed(n: nat) -> Seq<bool> {
    Seq::new(n, |i: int| true)
}

/// Columns of the first `pos` characters of a text that is all printed.
pub open spec fn columns_before(text: Seq<char>, pos: int) -> int {
    width_upto(
        text,
        all_printed(text.len()),
        if pos < text.len() {
            pos
        } else {
            text.len() as int
        },
    ) as int
}

/// The cursor column and the column the previous draw left it at, both
/// brought back onto the row by whole widths (`orig` only while it is past
/// the edge).
pub open spec fn fold_columns(d: int, orig: int, width: int) -> (int, int)
    decreases d,
{
    if width >= 1 && d >= width {
        fold_columns(d - width, if orig >= width {
            orig - width
        } else {
            orig
        }, width)
    } else {
        (d, orig)
    }
}

/// What to do on the input row.
#[derive(Debug, PartialEq, Eq)]
pub enum ReaderInputAction {
    /// Redraw the row with `text` and put the cursor at 1-based `cursor_col`.
    Redraw { text: String, cursor_col: u16 },
    /// Write `text` from 0-based column `start`, then put the cursor at
    /// 0-based column `end`.
    Append { text: String, start: usize, end: usize },
    /// Clear the row from 0-based column `pos` on.
    Trim { pos: usize },
}

/// The whole-row redraw of `text` with the cursor `pos` characters in: the
/// row scrolls sideways by screenfuls to keep the cursor on it.
pub open spec fn is_redraw(a: ReaderInputAction, text: Seq<char>, pos: int, width: int) -> bool {
    is_redraw_at(a, text, columns_before(text, pos), width)
}

/// The whole-row redraw of `text` with the cursor `d` columns in.
pub open spec fn is_redraw_at(a: ReaderInputAction, text: Seq<char>, d: int, width: int) -> bool {
    let (r, m, c, _) = hscroll(text, all_printed(text.len()), width, d, false);
    let shown = if display_width_of(r, m) >= width {
        r.take(fit_end(r, m, width, 0))
    } else {
        r
    };
    a matches ReaderInputAction::Redraw { text: t, cursor_col } && t@ == shown && cursor_col == c + 1
}

/// `remembered` holds `text` drawn with the cursor at column `col`.
pub open spec fn remembers(remembered: Option<(String, usize)>, text: Seq<char>, col: int) -> bool {
    remembered matches Some(p) && p.0@ == text && p.1 == col
}

/// The step of the input row: what to draw for `text` (the printed input)
/// with the cursor `pos` characters in, after `last` (the text drawn
/// before and the cursor column it was drawn with), and what to remember.
pub open spec fn reader_step(
    a: ReaderInputAction,
    remembered: Option<(String, usize)>,
    last: Option<(String, usize)>,
    text: Seq<char>,
    pos: int,
    width: int,
) -> bool {
    let d = columns_before(text, pos);
    match last {
        None => is_redraw(a, text, pos, width) && remembers(remembered, text, d),
        Some(prev) => {
            let existing = prev.0@;
            if d == width - 1 || d == width {
                is_redraw(a, text, pos, width) && remembers(remembered, text, d)
            } else {
                let (col, orig) = fold_columns(d, prev.1 as int, width);
                &&& remembers(remembered, text, col)
                &&& if existing.len() <= text.len() && text.take(existing.len() as int)
                    == existing {
                    a matches ReaderInputAction::Append { text: t, start, end } && t@ == text.skip(
                        existing.len() as int,
                    ) && start == orig && end == col
                } else if text.len() <= existing.len() && existing.take(text.len() as int)
                    == text {
                    a == ReaderInputAction::Trim { pos: col as usize }
                } else {
                    is_redraw(a, text, pos, width)
                }
            }
        },
    }
}

/// Turns every row break of `input` into a space.
pub fn row_breaks_to_spaces(input: &str) -> (r: String)
    ensures
        r@ == breaks_as_spaces(input@),
{
    let cs = chars_of(input);
    let mut out: Vec<char> = Vec::new();
    let mut i: usize = 0;
    while i < cs.len()
        invariant
            cs@ == input@,
            i <= cs@.len(),
            out@ == breaks_as_spaces(input@.take(i as int)),
        decreases cs@.len() - i,
    {
        let c = cs[i];
        out.push(if c == '\n' { ' ' } else { c });
        assert(breaks_as_spaces(input@.take(i + 1)) =~= breaks_as_spaces(input@.take(i as int)).push(
            if c == '\n' { ' ' } else { c },
        ));
        i += 1;
    }
    assert(input@.take(cs@.len() as int) =~= input@);
    string_of(out.as_slice())
}

/// The characters of `cs` that `mask` marks as printed.
fn keep_printed(cs: &[char], mask: &[bool]) -> (r: Vec<char>)
    requires
        mask@.len() == cs@.len(),
    ensures
        r@ == printed_chars(cs@, mask@),
        r@.len() <= cs@.len(),
{
    let mut out: Vec<char> = Vec::new();
    let mut i: usize = 0;
    while i < cs.len()
        invariant
            mask@.len() == cs@.len(),
            i <= cs@.len(),
            out@ == printed_chars(cs@.take(i as int), mask@.take(i as int)),
            out@.len() <= i,
        decreases cs@.len() - i,
    {
        assert(cs@.take(i + 1).drop_last() =~= cs@.take(i as int));
        assert(mask@.take(i + 1).take(i as int) =~= mask@.take(i as int));
        if mask[i] {
            out.push(cs[i]);
        }
        i += 1;
    }
    assert(cs@.take(cs@.len() as int) =~= cs@);
    assert(mask@.take(cs@.len() as int) =~= mask@);
    out
}

/// `p` is a prefix of `s`.
fn is_prefix(p: &[char], s: &[char]) -> (r: bool)
    ensures
        r == (p@.len() <= s@.len() && s@.take(p@.len() as int) == p@),
{
    if p.len() > s.len() {
        return false;
    }
    let mut i: usize = 0;
    while i < p.len()
        invariant
            p@.len() <= s@.len(),
            i <= p@.len(),
            forall|k: int| 0 <= k < i ==> p@[k] == s@[k],
        decreases p@.len() - i,
    {
        if p[i] != s[i] {
            assert(s@.take(p@.len() as int)[i as int] != p@[i as int]);
            return false;
        }
        i += 1;
    }
    assert(s@.take(p@.len() as int) =~= p@);
    true
}

/// The input row of the screen-reader mode and what was last drawn on it.
pub struct ReaderPrompt {
    width: u16,
    last: Option<(String, usize)>,
}

impl ReaderPrompt {
    /// Columns of the row.
    pub closed spec fn spec_width(&self) -> int {
        self.width as int
    }

    /// The text last drawn and the cursor column it was drawn with.
    pub closed spec fn spec_last(&self) -> Option<(String, usize)> {
        self.last
    }

    /// A row `width` columns wide with nothing drawn yet.
    pub fn new(width: u16) -> (r: ReaderPrompt)
        ensures
            r.spec_width() == width,
            r.spec_last() is None,
    {
        ReaderPrompt { width, last: None }
    }

    /// The text last drawn and the cursor column it was drawn with.
    pub fn last_input(&self) -> (r: &Option<(String, usize)>)
        ensures
            *r == self.spec_last(),
    {
        &self.last
    }

    /// The input area of this mode is always one row.
    pub fn input_height(&self) -> (r: u16)
        ensures
            r == 1,
    {
        1
    }

    /// Asking for another input height changes nothing.
    pub fn set_input_height(&mut self, height: u16) -> (r: Result<(), UiError>)
        ensures
            r is Ok,
            *final(self) == *old(self),
    {
        Ok(())
    }

    /// Draws `input` with the cursor `pos` characters in. Row breaks become
    /// spaces and only printed characters are kept (`mask` tells which
    /// characters of the input, its row breaks made spaces, a terminal
    /// prints). When the text only grew or shrank at its end, only the
    /// change is drawn.
    pub(crate) fn print_prompt_input_masked(&mut self, input: &str, pos: usize, mask: &[bool]) -> (r:
        ReaderInputAction)
        requires
            mask@.len() == input@.len(),
            3 * input@.len() <= usize::MAX,
            1 <= old(self).spec_width(),
            old(self).spec_width() + 1 <= u16::MAX,
            glyphs_fit(
                printed_chars(breaks_as_spaces(input@), mask@),
                all_printed(printed_chars(breaks_as_spaces(input@), mask@).len()),
                old(self).spec_width(),
            ),
        ensures
            final(self).spec_width() == old(self).spec_width(),
            reader_step(
                r,
                final(self).spec_last(),
                old(self).spec_last(),
                printed_chars(breaks_as_spaces(input@), mask@),
                pos as int,
                old(self).spec_width(),
            ),
    {
        let spaced = row_breaks_to_spaces(input);
        let spaced_cs = chars_of(spaced.as_str());
        let text = keep_printed(spaced_cs.as_slice(), mask);
        let ghost t = text@;
        let all: Vec<bool> = all_true(text.len());
        let cur: usize = if pos < text.len() {
            pos
        } else {
            text.len()
        };
        let before = head(text.as_slice(), cur);
        let before_mask: Vec<bool> = all_true(cur);
        let d = width_of_chars(before.as_slice(), before_mask.as_slice());
        proof {
            lemma_width_prefix(t, all@, cur as int);
            assert(before_mask@ =~= all@.take(cur as int));
            lemma_width_upto_monotone(t, all@, cur as int, t.len() as int);
        }
        let w = self.width as usize;
        let action;
        let remembered: usize;
        match &self.last {
            Some(prev) => {
                if d == w - 1 || d == w {
                    action = redraw(text.as_slice(), all.as_slice(), w, d);
                    remembered = d;
                } else {
                    let (col, orig) = fold(d, prev.1, w);
                    let existing = chars_of(prev.0.as_str());
                    if is_prefix(existing.as_slice(), text.as_slice()) {
                        let rest = tail(text.as_slice(), existing.len());
                        assert(rest@ =~= t.skip(existing@.len() as int));
                        action = ReaderInputAction::Append {
                            text: string_of(rest.as_slice()),
                            start: orig,
                            end: col,
                        };
                    } else if is_prefix(text.as_slice(), existing.as_slice()) {
                        action = ReaderInputAction::Trim { pos: col };
                    } else {
                        action = redraw(text.as_slice(), all.as_slice(), w, d);
                    }
                    remembered = col;
                }
            },
            None => {
                action = redraw(text.as_slice(), all.as_slice(), w, d);
                remembered = d;
            },
        }
        self.last = Some((string_of(text.as_slice()), remembered));
        action
    }
}

/// `n` times `true`.
fn all_true(n: usize) -> (r: Vec<bool>)
    ensures
        r@ == all_printed(n as nat),
{
    let mut out: Vec<bool> = Vec::new();
    let mut i: usize = 0;
    while i < n
        invariant
            i <= n,
            out@ == all_printed(i as nat),
        decreases n - i,
    {
        out.push(true);
        assert(out@ =~= all_printed((i + 1) as nat));
        i += 1;
    }
    out
}

/// The columns of a prefix are those of the prefix taken alone.
proof fn lemma_width_prefix(s: Seq<char>, m: Seq<bool>, n: int)
    requires
        0 <= n <= s.len(),
        m.len() == s.len(),
    ensures
        width_upto(s, m, n) == width_upto(s.take(n), m.take(n), n),
    decreases n,
{
    if n > 0 {
        lemma_width_prefix(s, m, n - 1);
        lemma_width_take_stable(s, m, n, n - 1);
    }
}

/// Taking a longer prefix does not change the columns of a shorter one.
proof fn lemma_width_take_stable(s: Seq<char>, m: Seq<bool>, n: int, k: int)
    requires
        0 <= k <= n <= s.len(),
        m.len() == s.len(),
    ensures
        width_upto(s.take(n), m.take(n), k) == width_upto(s.take(k), m.take(k), k),
    decreases k,
{
    if k > 0 {
        lemma_width_take_stable(s, m, n, k - 1);
        lemma_width_take_stable(s, m, k, k - 1);
    }
}

/// Brings the cursor column, and the previous one while it is past the
/// edge, back onto the row by whole widths.
fn fold(d: usize, orig: usize, w: usize) -> (r: (usize, usize))
    requires
        1 <= w,
    ensures
        (r.0 as int, r.1 as int) == fold_columns(d as int, orig as int, w as int),
{
    let ghost start = fold_columns(d as int, orig as int, w as int);
    let mut d = d;
    let mut o = orig;
    while d >= w
        invariant
            1 <= w,
            fold_columns(d as int, o as int, w as int) == start,
        decreases d,
    {
        d = d - w;
        if o >= w {
            o = o - w;
        }
    }
    (d, o)
}

/// The whole-row redraw of `text` (all printed) with the cursor `d`
/// columns in.
fn redraw(text: &[char], all: &[bool], w: usize, d: usize) -> (r: ReaderInputAction)
    requires
        all@ == all_printed(text@.len()),
        3 * text@.len() <= usize::MAX,
        1 <= w,
        w + 1 <= u16::MAX,
        glyphs_fit(text@, all@, w as int),
        d <= display_width_of(text@, all@),
    ensures
        is_redraw_at(r, text@, d as int, w as int),
{
    let (rest, mrest, c, _) = scroll_to_cursor(text, all, w, d);
    let shown = if width_of_chars(rest.as_slice(), mrest.as_slice()) >= w {
        let (e, _) = fit_index(rest.as_slice(), mrest.as_slice(), w);
        head(rest.as_slice(), e)
    } else {
        tail(rest.as_slice(), 0)
    };
    assert(rest@.subrange(0, rest@.len() as int) =~= rest@);
    ReaderInputAction::Redraw { text: string_of(shown.as_slice()), cursor_col: c as u16 + 1 }
}

impl ReaderPrompt {
    /// Draws `input` with the cursor `pos` characters in (see
    /// `print_prompt_input_masked`), keeping the characters a terminal
    /// prints of the input with its row breaks made spaces. A row narrower
    /// than one of those characters cannot show it: then nothing is drawn
    /// and nothing changes.
    pub fn print_prompt_input(&mut self, input: &str, pos: usize) -> (r: Option<ReaderInputAction>)
        requires
            3 * input@.len() <= usize::MAX,
            old(self).spec_width() + 1 <= u16::MAX,
        ensures
            ({
                let spaced = breaks_as_spaces(input@);
                let text = printed_chars(spaced, printable_mask_of(spaced));
                let fits = 1 <= old(self).spec_width() && glyphs_fit(
                    text,
                    all_printed(text.len()),
                    old(self).spec_width(),
                );
                &&& r is None <==> !fits
                &&& r is None ==> *final(self) == *old(self)
                &&& r matches Some(a) ==> final(self).spec_width() == old(self).spec_width()
                    && reader_step(a, final(self).spec_last(), old(self).spec_last(), text, pos as int,
                    old(self).spec_width())
            }),
    {
        let spaced = row_breaks_to_spaces(input);
        let mask = printable_mask(spaced.as_str());
        let spaced_cs = chars_of(spaced.as_str());
        let text = keep_printed(spaced_cs.as_slice(), mask.as_slice());
        let all: Vec<bool> = all_true(text.len());
        if self.width < 1 || !glyphs_fit_check(text.as_slice(), all.as_slice(), self.width) {
            return None;
        }
        assert(breaks_as_spaces(input@).len() == input@.len());
        Some(self.print_prompt_input_masked(input, pos, mask.as_slice()))
    }
}

} // verus!
