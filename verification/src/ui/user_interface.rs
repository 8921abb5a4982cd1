//! Word wrapping of output lines to the terminal width, counting only the
//! characters a terminal prints, and the error raised when the terminal
//! reports no usable size.
use vstd::prelude::*;
use crate::display::{
    char_columns, columns, lemma_width_upto_monotone, printable_mask, printable_mask_of, width_upto,
};
use crate::model::Pattern;
use crate::text::{
    chars_of, is_blank, lines_of, lines_state, push_text, spec_is_blank, spec_lines,
    string_of, string_of_range, texts,
};

verus! {

/// The terminal reported dimensions that cannot be used.
#[derive(Debug, PartialEq, Eq, Structural)]
pub struct TerminalSizeError;

impl TerminalSizeError {
    /// The message shown for this error.
    pub fn message(&self) -> (r: &'static str)
        ensures
            r@ == "Failed to retrieve valid dimensions for terminal"@,
    {
        "Failed to retrieve valid dimensions for terminal"
    }
}

/// Why a screen operation failed.
#[derive(Debug, PartialEq, Eq)]
pub struct UiError {
    pub message: String,
}

impl UiError {
    /// The message shown for this error.
    pub fn message(&self) -> (r: &str)
        ensures
            r@ == self.message@,
    {
        self.message.as_str()
    }
}

/// What the client asks of a screen, apart from writing to the terminal.
pub trait UserInterface {
    fn setup(&mut self) -> Result<(), UiError>;

    fn reset(&mut self) -> Result<(), UiError>;

    fn reset_scroll(&mut self) -> Result<(), UiError>;

    fn scroll_down(&mut self) -> Result<(), UiError>;

    fn scroll_lock(&mut self, lock: bool) -> Result<(), UiError>;

    fn scroll_to(&mut self, row: usize) -> Result<(), UiError>;

    fn scroll_top(&mut self) -> Result<(), UiError>;

    fn scroll_up(&mut self) -> Result<(), UiError>;

    fn find_up(&mut self, pattern: &Pattern) -> Result<(), UiError>;

    fn find_down(&mut self, pattern: &Pattern) -> Result<(), UiError>;

    fn set_host(&mut self, host: &str, port: u16) -> Result<(), UiError>;

    fn add_tag(&mut self, proto: &str) -> Result<(), UiError>;

    fn remove_tag(&mut self, proto: &str) -> Result<(), UiError>;

    fn clear_tags(&mut self) -> Result<(), UiError>;

    fn set_status_area_height(&mut self, height: u16) -> Result<(), UiError>;

    fn set_status_line(&mut self, line: usize, info: String) -> Result<(), UiError>;

    fn width(&self) -> u16;

    fn height(&self) -> u16;
}

/// Where the wrapper stands after some characters of a line: the pieces cut
/// so far (as character ranges), where the current piece starts, the column
/// reached, and the last break that may serve: the column just past it,
/// where the piece cut there ends, and where the next piece then starts.
pub type WrapScan = (Seq<(int, int)>, int, int, int, int, int);

/// Columns a printed character takes at column `pos`: a tab reaches the next
/// multiple of eight.
pub open spec fn advance(c: char, pos: int) -> int {
    if c == '\t' {
        8 - pos % 8
    } else {
        columns(c) as int
    }
}

/// The character `s[i]`, taking `cw` columns, placed where it fits on the
/// current row: a space that leaves room after it is a break the row may end
/// before (the space itself is dropped); a tab that leaves room is a break
/// the row may end after.
pub open spec fn place_step(s: Seq<char>, width: int, st: WrapScan, i: int, cw: int) -> WrapScan {
    let (cuts, last_cut, pos, brk_pos, brk_end, brk_next) = st;
    let c = s[i];
    if c == ' ' && pos + cw < width {
        (cuts, last_cut, pos + cw, pos + cw, i, i + 1)
    } else if c == '\t' && pos + cw < width {
        (cuts, last_cut, pos + cw, pos + cw, i + 1, i + 1)
    } else {
        (cuts, last_cut, pos + cw, brk_pos, brk_end, brk_next)
    }
}

/// One printed character `s[i]` read by the wrapper. A character that does
/// not fit ends the row at the last break, and then goes on the new row,
/// where it is counted (or, when it does not fit there either, starts a row
/// of its own). When there is no break, or the character is a tab, the row
/// ends right before it (a tab then starts the next row, at eight columns).
pub open spec fn wrap_step(s: Seq<char>, width: int, st: WrapScan, i: int) -> WrapScan {
    let (cuts, last_cut, pos, brk_pos, brk_end, brk_next) = st;
    let c = s[i];
    let cw = advance(c, pos);
    if pos + cw > width {
        if c != '\t' && brk_end > last_cut && brk_pos > 0 {
            let cut = cuts.push((last_cut, brk_end));
            let rest = pos - brk_pos;
            if rest + cw <= width {
                place_step(s, width, (cut, brk_next, rest, 0, 0, 0), i, cw)
            } else {
                (cut.push((brk_next, i)), i, cw, 0, 0, 0)
            }
        } else if c == '\t' {
            (cuts.push((last_cut, i)), i, 8, 0, 0, 0)
        } else {
            (cuts.push((last_cut, i)), i, cw, 0, 0, 0)
        }
    } else {
        place_step(s, width, st, i, cw)
    }
}

/// The wrapper's state after the first `n` characters of `s`; characters
/// the terminal does not print are passed over, except a tab, which always
/// advances to the next tab stop.
pub open spec fn wrap_scan(s: Seq<char>, mask: Seq<bool>, width: int, n: int) -> WrapScan
    decreases n,
{
    if n <= 0 {
        (Seq::empty(), 0, 0, 0, 0, 0)
    } else if mask[n - 1] || s[n - 1] == '\t' {
        wrap_step(s, width, wrap_scan(s, mask, width, n - 1), n - 1)
    } else {
        wrap_scan(s, mask, width, n - 1)
    }
}

/// The texts of the given character ranges of `s`.
pub open spec fn cut_texts(s: Seq<char>, cuts: Seq<(int, int)>) -> Seq<Seq<char>> {
    cuts.map_values(|r: (int, int)| s.subrange(r.0, r.1))
}

/// The rows one line (without line breaks) wraps into at `width` columns. A
/// blank line stays one row; otherwise the line is cut at the last break
/// (a space or a tab) that fits, or before the character that does not, and
/// a blank remainder is dropped.
pub open spec fn wrap_segment(s: Seq<char>, mask: Seq<bool>, width: int) -> Seq<Seq<char>> {
    if spec_is_blank(s) {
        seq![s]
    } else {
        let (cuts, last_cut, _, _, _, _) = wrap_scan(s, mask, width, s.len() as int);
        let rest = s.subrange(last_cut, s.len() as int);
        cut_texts(s, cuts) + if last_cut < s.len() && !spec_is_blank(rest) {
            seq![rest]
        } else {
            Seq::empty()
        }
    }
}

/// The rows of the first `k` lines.
pub open spec fn wrap_lines(
    lines: Seq<Seq<char>>,
    masks: Seq<Seq<bool>>,
    width: int,
    k: int,
) -> Seq<Seq<char>>
    decreases k,
{
    if k <= 0 {
        Seq::empty()
    } else {
        wrap_lines(lines, masks, width, k - 1) + wrap_segment(lines[k - 1], masks[k - 1], width)
    }
}

/// The rows `text` wraps into in a `width`-column area less `padding`, given
/// the printable mask of each of its lines.
pub open spec fn spec_wrap_line(
    text: Seq<char>,
    masks: Seq<Seq<bool>>,
    width: int,
    padding: int,
) -> Seq<Seq<char>> {
    let w = if width >= padding {
        width - padding
    } else {
        0
    };
    wrap_lines(spec_lines(text), masks, w, spec_lines(text).len() as int)
}

/// Whether `masks` gives one printable mask per line of `text`, each as long
/// as its line.
pub open spec fn masks_fit(text: Seq<char>, masks: Seq<Vec<bool>>) -> bool {
    &&& masks.len() == spec_lines(text).len()
    &&& forall|k: int| 0 <= k < masks.len() ==> (#[trigger] masks[k])@.len() == spec_lines(text)[k].len()
}

/// The masks as sequences.
pub open spec fn mask_views(masks: Seq<Vec<bool>>) -> Seq<Seq<bool>> {
    masks.map_values(|m: Vec<bool>| m@)
}

/// The state `wrap_scan` is in is well formed: its cuts are ranges of the
/// text read so far and its counters are in bounds.
pub open spec fn scan_ok(st: WrapScan, n: int) -> bool {
    let (cuts, last_cut, pos, brk_pos, brk_end, brk_next) = st;
    &&& 0 <= last_cut <= n
    &&& 0 <= brk_pos <= pos <= 8 * n
    &&& 0 <= brk_end <= brk_next <= n
    &&& forall|j: int| 0 <= j < cuts.len() ==> 0 <= (#[trigger] cuts[j]).0 <= cuts[j].1 <= n
}

proof fn lemma_cut_texts_push(s: Seq<char>, cuts: Seq<(int, int)>, r: (int, int))
    ensures
        cut_texts(s, cuts.push(r)) == cut_texts(s, cuts).push(s.subrange(r.0, r.1)),
{
    assert(cut_texts(s, cuts.push(r)) =~= cut_texts(s, cuts).push(s.subrange(r.0, r.1)));
}

/// Appends the rows of one line to `out`.
fn wrap_one(s: &Vec<char>, mask: &Vec<bool>, width: usize, out: &mut Vec<String>)
    requires
        mask@.len() == s@.len(),
        8 * s@.len() + 8 <= usize::MAX,
    ensures
        texts(final(out)@) == texts(old(out)@) + wrap_segment(s@, mask@, width as int),
{
    if is_blank(s.as_slice()) {
        let whole = string_of_range(s.as_slice(), 0, s.len());
        assert(s@.subrange(0, s@.len() as int) =~= s@);
        push_text(out, whole);
        assert(texts(out@) =~= texts(old(out)@) + wrap_segment(s@, mask@, width as int));
        return;
    }
    let ghost w = width as int;
    let mut last_cut: usize = 0;
    let mut pos: usize = 0;
    let mut brk_pos: usize = 0;
    let mut brk_end: usize = 0;
    let mut brk_next: usize = 0;
    let mut i: usize = 0;
    while i < s.len()
        invariant
            mask@.len() == s@.len(),
            8 * s@.len() + 8 <= usize::MAX,
            w == width as int,
            i <= s@.len(),
            ({
                let st = wrap_scan(s@, mask@, w, i as int);
                &&& scan_ok(st, i as int)
                &&& st.1 == last_cut
                &&& st.2 == pos
                &&& st.3 == brk_pos
                &&& st.4 == brk_end
                &&& st.5 == brk_next
                &&& texts(out@) == texts(old(out)@) + cut_texts(s@, st.0)
            }),
        decreases s@.len() - i,
    {
        let ghost st = wrap_scan(s@, mask@, w, i as int);
        if mask[i] || s[i] == '\t' {
            let c = s[i];
            let cw: usize = if c == '\t' {
                8 - pos % 8
            } else {
                char_columns(c)
            };
            assert(cw == advance(c, pos as int));
            if pos + cw > width {
                if c != '\t' && brk_end > last_cut && brk_pos > 0 {
                    let piece = string_of_range(s.as_slice(), last_cut, brk_end);
                    push_text(out, piece);
                    proof {
                        lemma_cut_texts_push(s@, st.0, (last_cut as int, brk_end as int));
                    }
                    let ghost cut = st.0.push((last_cut as int, brk_end as int));
                    let rest = pos - brk_pos;
                    last_cut = brk_next;
                    brk_pos = 0;
                    brk_end = 0;
                    brk_next = 0;
                    if rest + cw <= width {
                        pos = rest + cw;
                        if c == ' ' && pos < width {
                            brk_pos = pos;
                            brk_end = i;
                            brk_next = i + 1;
                        }
                    } else {
                        let piece = string_of_range(s.as_slice(), last_cut, i);
                        push_text(out, piece);
                        proof {
                            lemma_cut_texts_push(s@, cut, (last_cut as int, i as int));
                        }
                        pos = cw;
                        last_cut = i;
                    }
                } else {
                    let piece = string_of_range(s.as_slice(), last_cut, i);
                    push_text(out, piece);
                    proof {
                        lemma_cut_texts_push(s@, st.0, (last_cut as int, i as int));
                    }
                    pos = if c == '\t' {
                        8
                    } else {
                        cw
                    };
                    last_cut = i;
                    brk_pos = 0;
                    brk_end = 0;
                    brk_next = 0;
                }
            } else {
                pos = pos + cw;
                if c == ' ' && pos < width {
                    brk_pos = pos;
                    brk_end = i;
                    brk_next = i + 1;
                } else if c == '\t' && pos < width {
                    brk_pos = pos;
                    brk_end = i + 1;
                    brk_next = i + 1;
                }
            }
        }
        i += 1;
        proof {
            let nst = wrap_scan(s@, mask@, w, i as int);
            assert forall|j: int| 0 <= j < nst.0.len() implies 0 <= (#[trigger] nst.0[j]).0
                <= nst.0[j].1 <= i by {
                if j < st.0.len() {
                    assert(nst.0[j] == st.0[j]);
                }
            }
        }
    }
    let ghost st = wrap_scan(s@, mask@, w, s@.len() as int);
    if last_cut < s.len() {
        let rest = string_of_range(s.as_slice(), last_cut, s.len());
        let rest_chars = chars_of(rest.as_str());
        if !is_blank(rest_chars.as_slice()) {
            push_text(out, rest);
        }
    }
    assert(texts(out@) =~= texts(old(out)@) + wrap_segment(s@, mask@, width as int));
}

/// Wraps `line` to `width` columns less `padding`: each line of it is broken
/// at the last space or tab that still fits, or, when there is none or the
/// character that does not fit is a tab, before that character. Only the characters that `masks` marks as
/// printed (one mask per line of `line`) take columns; a tab advances to the
/// next multiple of eight. Blank lines are kept as they are.
pub(crate) fn wrap_line_masked(line: &str, width: usize, padding: usize, masks: &[Vec<bool>]) -> (r: Vec<
    String,
>)
    requires
        masks_fit(line@, masks@),
        8 * line@.len() + 8 <= usize::MAX,
    ensures
        texts(r@) == spec_wrap_line(line@, mask_views(masks@), width as int, padding as int),
{
    let w: usize = if width >= padding {
        width - padding
    } else {
        0
    };
    let cs = chars_of(line);
    let lines = lines_of(cs.as_slice());
    let mut out: Vec<String> = Vec::new();
    let mut k: usize = 0;
    proof {
        assert(texts(out@) =~= Seq::<Seq<char>>::empty());
    }
    while k < lines.len()
        invariant
            cs@ == line@,
            lines@.len() == spec_lines(line@).len(),
            forall|i: int| 0 <= i < lines@.len() ==> #[trigger] lines@[i]@ == spec_lines(line@)[i],
            masks_fit(line@, masks@),
            8 * line@.len() + 8 <= usize::MAX,
            k <= lines@.len(),
            texts(out@) == wrap_lines(spec_lines(line@), mask_views(masks@), w as int, k as int),
        decreases lines@.len() - k,
    {
        proof {
            lemma_line_len_bound(line@, k as int);
        }
        assert(masks@[k as int]@ == mask_views(masks@)[k as int]);
        wrap_one(&lines[k], &masks[k], w, &mut out);
        k += 1;
    }
    out
}

/// No line of a text is longer than the text.
pub proof fn lemma_line_len_bound(text: Seq<char>, k: int)
    requires
        0 <= k < spec_lines(text).len(),
    ensures
        spec_lines(text)[k].len() <= text.len(),
{
    lemma_lines_state_bound(text);
}

proof fn lemma_lines_state_bound(s: Seq<char>)
    ensures
        lines_state(s).1.len() <= s.len(),
        forall|k: int| 0 <= k < lines_state(s).0.len() ==> (#[trigger] lines_state(s).0[k]).len() <= s.len(),
    decreases s.len(),
{
    if s.len() > 0 {
        lemma_lines_state_bound(s.drop_last());
    }
}

/// What the terminal prints of each line of `text`, each line parsed on
/// its own.
pub open spec fn line_masks_of(text: Seq<char>) -> Seq<Seq<bool>> {
    spec_lines(text).map_values(|l: Seq<char>| printable_mask_of(l))
}

/// Wraps `line` to `width` columns less `padding` (see `spec_wrap_line`),
/// measuring each of its lines over what the terminal prints of it.
pub fn wrap_line(line: &str, width: usize, padding: usize) -> (r: Vec<String>)
    requires
        8 * line@.len() + 8 <= usize::MAX,
    ensures
        texts(r@) == spec_wrap_line(line@, line_masks_of(line@), width as int, padding as int),
{
    let cs = chars_of(line);
    let lines = lines_of(cs.as_slice());
    let mut masks: Vec<Vec<bool>> = Vec::new();
    let mut k: usize = 0;
    while k < lines.len()
        invariant
            cs@ == line@,
            lines@.len() == spec_lines(line@).len(),
            forall|i: int| 0 <= i < lines@.len() ==> #[trigger] lines@[i]@ == spec_lines(line@)[i],
            k <= lines@.len(),
            masks@.len() == k,
            forall|i: int| 0 <= i < k ==> (#[trigger] masks@[i])@ == printable_mask_of(
                spec_lines(line@)[i],
            ) && masks@[i]@.len() == spec_lines(line@)[i].len(),
        decreases lines@.len() - k,
    {
        let text = string_of(lines[k].as_slice());
        masks.push(printable_mask(text.as_str()));
        k += 1;
    }
    assert(mask_views(masks@) =~= line_masks_of(line@));
    wrap_line_masked(line, width, padding, masks.as_slice())
}

/// Printed characters among the first `n` of a line with printable mask
/// `mask`.
pub open spec fn printed_upto(mask: Seq<bool>, n: int) -> int
    decreases n,
{
    if n <= 0 {
        0
    } else {
        printed_upto(mask, n - 1) + if mask[n - 1] {
            1int
        } else {
            0
        }
    }
}

/// Columns the printed characters of `s[a..b]` take on screen.
pub open spec fn span_columns(s: Seq<char>, mask: Seq<bool>, a: int, b: int) -> int {
    width_upto(s, mask, b) - width_upto(s, mask, a)
}

/// The row `s[a..b]` fits in `width` columns, or holds a single printed
/// character, one too wide for any row.
pub open spec fn fits_row(s: Seq<char>, mask: Seq<bool>, width: int, a: int, b: int) -> bool {
    span_columns(s, mask, a, b) <= width || printed_upto(mask, b) - printed_upto(mask, a) == 1
}

/// What holds of the wrapper's state after `n` characters of a line
/// without tabs: the current row's column is the columns of its printed
/// characters, a break on hand lies in it and fits, the row fits (or is a
/// single wide character), and every row cut fits.
spec fn scan_fits(s: Seq<char>, mask: Seq<bool>, width: int, n: int) -> bool {
    let (cuts, lc, pos, bp, be, bn) = wrap_scan(s, mask, width, n);
    &&& 0 <= lc <= n
    &&& pos == span_columns(s, mask, lc, n)
    &&& (bn == 0 && be == 0 && bp == 0) || (be + 1 == bn && lc <= be && bn <= n && bp
        == span_columns(s, mask, lc, bn) && bp < width)
    &&& pos <= width || (bn == 0 && be == 0 && bp == 0 && printed_upto(mask, n) - printed_upto(
        mask,
        lc,
    ) == 1)
    &&& forall|k: int|
        0 <= k < cuts.len() ==> 0 <= (#[trigger] cuts[k]).0 <= cuts[k].1 <= n && fits_row(
            s,
            mask,
            width,
            cuts[k].0,
            cuts[k].1,
        )
}

proof fn lemma_scan_fits(s: Seq<char>, mask: Seq<bool>, width: int, n: int)
    requires
        mask.len() == s.len(),
        width >= 0,
        0 <= n <= s.len(),
        forall|i: int| 0 <= i < s.len() ==> s[i] != '\t',
    ensures
        scan_fits(s, mask, width, n),
    decreases n,
{
    if n > 0 {
        lemma_scan_fits(s, mask, width, n - 1);
        let i = n - 1;
        let st = wrap_scan(s, mask, width, i);
        let (cuts, lc, pos, bp, be, bn) = st;
        assert(s[i] != '\t');
        if mask[i] {
            let c = s[i];
            let cw = columns(c) as int;
            assert(advance(c, pos) == cw);
            if bn != 0 {
                lemma_width_upto_monotone(s, mask, lc, bn);
                lemma_width_upto_monotone(s, mask, bn, i);
            }
            if be != 0 {
                lemma_width_upto_monotone(s, mask, be, bn);
                lemma_width_upto_monotone(s, mask, lc, be);
            }
            let nst = wrap_scan(s, mask, width, n);
            assert(nst == wrap_step(s, width, st, i));
            assert forall|k: int| 0 <= k < nst.0.len() implies 0 <= (#[trigger] nst.0[k]).0
                <= nst.0[k].1 <= n && fits_row(s, mask, width, nst.0[k].0, nst.0[k].1) by {
                if k < cuts.len() {
                    assert(nst.0[k] == cuts[k]);
                }
            }
        } else {
            assert(wrap_scan(s, mask, width, n) == st);
        }
    }
}

/// A line (without tabs) wraps into rows that each fit the width, counting
/// the columns its printed characters take on screen (a wide character
/// takes its full width); the only row that can be wider is one holding a
/// single character too wide for any row. A blank line stays whole.
pub proof fn lemma_rows_fit_width(s: Seq<char>, mask: Seq<bool>, width: int)
    requires
        mask.len() == s.len(),
        width >= 0,
        forall|i: int| 0 <= i < s.len() ==> s[i] != '\t',
    ensures
        !spec_is_blank(s) ==> forall|k: int|
            0 <= k < wrap_segment(s, mask, width).len() ==> exists|a: int, b: int|
                0 <= a <= b <= s.len() && #[trigger] wrap_segment(s, mask, width)[k] == s.subrange(
                    a,
                    b,
                ) && fits_row(s, mask, width, a, b),
{
    lemma_scan_fits(s, mask, width, s.len() as int);
    if !spec_is_blank(s) {
        let (cuts, lc, _, _, _, _) = wrap_scan(s, mask, width, s.len() as int);
        let rows = wrap_segment(s, mask, width);
        assert forall|k: int| 0 <= k < rows.len() implies exists|a: int, b: int|
            0 <= a <= b <= s.len() && #[trigger] rows[k] == s.subrange(a, b) && fits_row(
                s,
                mask,
                width,
                a,
                b,
            ) by {
            if k < cuts.len() {
                assert(rows[k] == cut_texts(s, cuts)[k]);
                assert(rows[k] == s.subrange(cuts[k].0, cuts[k].1));
            } else {
                assert(rows[k] == s.subrange(lc, s.len() as int));
            }
        }
    }
}

/// The column a terminal reaches after the first `n` characters of a line:
/// a printed character moves it on by its width, a tab to the next multiple
/// of eight, and anything else not at all.
pub open spec fn line_columns(s: Seq<char>, mask: Seq<bool>, n: int) -> int
    decreases n,
{
    if n <= 0 {
        0
    } else {
        let c = line_columns(s, mask, n - 1);
        if s[n - 1] == '\t' {
            c + 8 - c % 8
        } else if mask[n - 1] {
            c + columns(s[n - 1])
        } else {
            c
        }
    }
}

proof fn lemma_line_columns_monotone(s: Seq<char>, mask: Seq<bool>, m: int, n: int)
    requires
        0 <= m <= n,
    ensures
        0 <= line_columns(s, mask, m) <= line_columns(s, mask, n),
    decreases n,
{
    if m < n {
        lemma_line_columns_monotone(s, mask, m, n - 1);
    } else if m > 0 {
        lemma_line_columns_monotone(s, mask, m - 1, m - 1);
    }
}

/// While what was read so far fits the width, the wrapper has cut nothing.
proof fn lemma_scan_uncut(s: Seq<char>, mask: Seq<bool>, width: int, n: int)
    requires
        mask.len() == s.len(),
        0 <= n <= s.len(),
        line_columns(s, mask, n) <= width,
    ensures
        wrap_scan(s, mask, width, n).0.len() == 0,
        wrap_scan(s, mask, width, n).1 == 0,
        wrap_scan(s, mask, width, n).2 == line_columns(s, mask, n),
    decreases n,
{
    if n > 0 {
        lemma_line_columns_monotone(s, mask, n - 1, n);
        lemma_scan_uncut(s, mask, width, n - 1);
    }
}

/// A line whose columns (tabs moving on to the next multiple of eight) fit
/// the width is not wrapped: it comes out as one row, unchanged.
pub proof fn lemma_fitting_line_stays_whole(s: Seq<char>, mask: Seq<bool>, width: int)
    requires
        mask.len() == s.len(),
        line_columns(s, mask, s.len() as int) <= width,
        s.len() > 0,
    ensures
        wrap_segment(s, mask, width) == seq![s],
{
    lemma_scan_uncut(s, mask, width, s.len() as int);
    if !spec_is_blank(s) {
        let (cuts, lc, _, _, _, _) = wrap_scan(s, mask, width, s.len() as int);
        assert(cut_texts(s, cuts) =~= Seq::<Seq<char>>::empty());
        assert(s.subrange(0, s.len() as int) =~= s);
        assert(wrap_segment(s, mask, width) =~= seq![s]);
    }
}

} // verus!
