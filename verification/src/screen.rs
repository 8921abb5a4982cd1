//! The classic full-screen layout: word wrapping, the scrollback, scrolling
//! back and forth, and the text of each bar and row.
use vstd::prelude::*;
use crate::text::{
    chars_of, is_blank, lines_of, push_decimal, push_str, push_text, spec_decimal, spec_is_blank,
    spec_lines, string_of, string_of_range, texts, trim_end, trimmed_end,
};
use vstd::arithmetic::div_mod::{
    lemma_fundamental_div_mod, lemma_fundamental_div_mod_converse, lemma_mod_add_multiples_vanish,
};
use vstd::arithmetic::mul::lemma_mul_is_commutative;
use vstd::string::StringSliceAdditionalSpecFns;
use vstd::utf8::{
    encode_utf8_valid_utf8, is_char_boundary, is_char_boundary_iff_not_is_continuation_byte,
    is_char_boundary_start_end_of_seq, valid_utf8,
};
use crate::ui::window::{
    char_index_at, column_lines, column_segment, column_wrap_one, lemma_byte_offset_bound,
    lines_sliceable, segment_sliceable,
};
use crate::ui::input_rows::byte_offsets;
use crate::display::byte_len;

verus! {

/// The classic screen keeps the remainder after the last cut when more than
/// one byte of it is left.
pub open spec fn keeps_long_rest(s: Seq<char>, last_cut: int) -> bool {
    last_cut + 1 < byte_len(s)
}

/// The rows the classic screen wraps `text` into.
pub open spec fn spec_screen_wrap(text: Seq<char>, width: int) -> Seq<Seq<char>> {
    column_lines(
        spec_lines(text),
        width,
        |s: Seq<char>, c: int| keeps_long_rest(s, c),
        spec_lines(text).len() as int,
    )
}

/// Every line of `text` can be wrapped by the classic screen: it is sliced
/// only where characters start (see `segment_sliceable`).
pub open spec fn screen_sliceable(text: Seq<char>, width: int) -> bool {
    lines_sliceable(spec_lines(text), width, |s: Seq<char>, c: int| keeps_long_rest(s, c))
}

/// Wraps `line` as `wrap_line` does, or `None` when it would slice a line
/// where no character starts.
pub(crate) fn screen_wrap_checked(line: &str, width: usize) -> (r: Option<Vec<String>>)
    requires
        4 * line@.len() < usize::MAX,
    ensures
        r is Some <==> screen_sliceable(line@, width as int),
        r matches Some(v) ==> texts(v@) == spec_screen_wrap(line@, width as int),
{
    let cs = chars_of(line);
    let lines = lines_of(cs.as_slice());
    let mut out: Vec<String> = Vec::new();
    let mut k: usize = 0;
    let ghost keep = |s: Seq<char>, c: int| keeps_long_rest(s, c);
    proof {
        assert(texts(out@) =~= Seq::<Seq<char>>::empty());
    }
    while k < lines.len()
        invariant
            cs@ == line@,
            lines@.len() == spec_lines(line@).len(),
            forall|i: int| 0 <= i < lines@.len() ==> #[trigger] lines@[i]@ == spec_lines(line@)[i],
            4 * line@.len() < usize::MAX,
            keep == (|s: Seq<char>, c: int| keeps_long_rest(s, c)),
            k <= lines@.len(),
            forall|j: int|
                0 <= j < k ==> segment_sliceable(#[trigger] spec_lines(line@)[j], width as int, keep),
            texts(out@) == column_lines(spec_lines(line@), width as int, keep, k as int),
        decreases lines@.len() - k,
    {
        let seg = &lines[k];
        proof {
            crate::ui::user_interface::lemma_line_len_bound(line@, k as int);
            lemma_byte_offset_bound(seg@, seg@.len() as int);
        }
        let ghost before = texts(out@);
        if is_blank(seg.as_slice()) {
            let whole = string_of_range(seg.as_slice(), 0, seg.len());
            assert(seg@.subrange(0, seg@.len() as int) =~= seg@);
            push_text(&mut out, whole);
        } else {
            let offsets = byte_offsets(seg);
            let (last_cut, ok) = column_wrap_one(seg, &offsets, width, &mut out);
            if !ok {
                assert(!segment_sliceable(spec_lines(line@)[k as int], width as int, keep));
                return None;
            }
            let total = offsets[seg.len()];
            if last_cut < total && last_cut + 1 < total {
                match char_index_at(seg, &offsets, last_cut) {
                    Some(a) => {
                        let rest = string_of_range(seg.as_slice(), a, seg.len());
                        push_text(&mut out, rest);
                    },
                    None => {
                        assert(!segment_sliceable(spec_lines(line@)[k as int], width as int, keep));
                        return None;
                    },
                }
            }
        }
        assert(segment_sliceable(spec_lines(line@)[k as int], width as int, keep));
        assert(texts(out@) =~= before + column_segment(seg@, width as int, keep));
        k += 1;
    }
    assert(lines_sliceable(spec_lines(line@), width as int, keep));
    Some(out)
}

/// Wraps `line` to `width` columns: each line is cut at the last space
/// before the edge, or at the edge when there is none; escape sequences up
/// to their `m` take no columns; blank lines are kept, and a remainder of a
/// single byte after the last cut is dropped. Positions are counted in
/// characters and the line is sliced at them as byte positions, so every
/// line must be sliced only where characters start (see
/// `screen_sliceable`; an ASCII line always is).
pub fn wrap_line(line: &str, width: usize) -> (r: Vec<String>)
    requires
        screen_sliceable(line@, width as int),
        4 * line@.len() < usize::MAX,
    ensures
        texts(r@) == spec_screen_wrap(line@, width as int),
{
    match screen_wrap_checked(line, width) {
        Some(v) => v,
        None => Vec::new(),
    }
}

} // verus!

verus! {

/// Fewer lines than this stay in the classic screen's scrollback.
pub const SCREEN_HISTORY_CAPACITY: usize = 1024;

/// The terminal row where the output region begins.
pub const OUTPUT_START_LINE: u16 = 2;

/// The state of splitting `s` at each `"\r\n"`: the finished pieces and
/// the piece being read.
pub open spec fn crlf_state(s: Seq<char>) -> (Seq<Seq<char>>, Seq<char>)
    decreases s.len(),
{
    if s.len() == 0 {
        (seq![], seq![])
    } else {
        let (done, cur) = crlf_state(s.drop_last());
        if s.last() == '\n' && cur.len() > 0 && cur.last() == '\r' {
            (done.push(cur.drop_last()), seq![])
        } else {
            (done, cur.push(s.last()))
        }
    }
}

/// The pieces of `s` between its `"\r\n"` separators, as `str::split`
/// yields them: empty pieces included, and always at least one.
pub open spec fn crlf_pieces(s: Seq<char>) -> Seq<Seq<char>> {
    let (done, cur) = crlf_state(s);
    done.push(cur)
}

/// Splits `s` at each `"\r\n"`.
fn split_crlf(s: &str) -> (r: Vec<String>)
    ensures
        texts(r@) == crlf_pieces(s@),
{
    let cs = chars_of(s);
    let mut done: Vec<String> = Vec::new();
    let mut cur: Vec<char> = Vec::new();
    let mut i: usize = 0;
    assert(cs@.take(0) =~= Seq::<char>::empty());
    assert(texts(done@) =~= Seq::<Seq<char>>::empty());
    while i < cs.len()
        invariant
            i <= cs@.len(),
            (texts(done@), cur@) == crlf_state(cs@.take(i as int)),
        decreases cs@.len() - i,
    {
        let c = cs[i];
        assert(cs@.take(i + 1).drop_last() =~= cs@.take(i as int));
        if c == '\n' && cur.len() > 0 && cur[cur.len() - 1] == '\r' {
            cur.pop();
            let piece = string_of(cur.as_slice());
            push_text(&mut done, piece);
            cur = Vec::new();
        } else {
            cur.push(c);
        }
        i += 1;
    }
    assert(cs@.take(cs@.len() as int) =~= cs@);
    let last = string_of(cur.as_slice());
    push_text(&mut done, last);
    done
}

/// `label` followed by `fill` up to `width` characters, as the format
/// `{:fill<width$}` writes it.
pub open spec fn padded(label: Seq<char>, fill: char, width: int) -> Seq<char> {
    if label.len() >= width {
        label
    } else {
        label + Seq::new((width - label.len()) as nat, |_i: int| fill)
    }
}

/// Appends `fill` to `out` until it holds `width` characters.
fn pad_with(out: &mut Vec<char>, fill: char, width: usize)
    ensures
        final(out)@ == padded(old(out)@, fill, width as int),
{
    let ghost start = out@;
    while out.len() < width
        invariant
            start.len() <= out@.len(),
            out@.len() <= width || out@ == start,
            out@ == start + Seq::new((out@.len() - start.len()) as nat, |_i: int| fill),
        decreases width - out@.len(),
    {
        out.push(fill);
        assert(out@ =~= start + Seq::new((out@.len() - start.len()) as nat, |_i: int| fill));
    }
    proof {
        if start.len() >= width {
            assert(out@ =~= start);
        }
    }
}

/// What the classic screen keeps of `lines`: the oldest go until fewer than
/// the capacity are left.
pub open spec fn screen_kept(lines: Seq<Seq<char>>) -> Seq<Seq<char>> {
    if lines.len() >= SCREEN_HISTORY_CAPACITY {
        lines.skip(lines.len() - (SCREEN_HISTORY_CAPACITY - 1))
    } else {
        lines
    }
}

/// The top bar's label: the host and port between double bars, or nothing
/// while no host is set.
pub open spec fn top_label(host: Seq<char>, port: u16) -> Seq<char> {
    if host.len() == 0 {
        seq![]
    } else {
        seq!['\u{2550}', ' '] + host + seq![':'] + spec_decimal(port as nat) + seq![' ', '\u{2550}']
    }
}

/// The bottom bar's label: a mark while the output is scrolled back.
pub open spec fn more_label(scrolled: bool) -> Seq<char> {
    if scrolled {
        seq!['\u{2501}', ' ', '(', 'm', 'o', 'r', 'e', ')', ' ']
    } else {
        seq![]
    }
}

/// The pieces that printing `line` stores: a blank line as it is, any other
/// wrapped to `width` columns.
pub open spec fn output_pieces(line: Seq<char>, width: int) -> Seq<Seq<char>> {
    if spec_is_blank(line) {
        seq![line]
    } else {
        spec_screen_wrap(line, width)
    }
}

/// The scrollback after storing `pieces` one by one onto `lines`.
pub open spec fn screen_print_all(lines: Seq<Seq<char>>, pieces: Seq<Seq<char>>) -> Seq<Seq<char>>
    decreases pieces.len(),
{
    if pieces.len() == 0 {
        lines
    } else {
        screen_kept(screen_print_all(lines, pieces.drop_last()) + crlf_pieces(pieces.last()))
    }
}

/// An information line as the screen prints it.
pub open spec fn info_line(output: Seq<char>) -> Seq<char> {
    seq!['[', '*', '*', ']', ' '] + output
}

/// Where scrolling back five lines from `from` lands.
pub open spec fn five_back(from: int) -> int {
    if from >= 5 {
        from - 5
    } else {
        0
    }
}

/// What to draw once scrolling back ends.
pub enum Redraw {
    /// These lines, on the rows of the output region from its top.
    Rows(Vec<String>),
    /// These lines, each scrolled in at the bottom of the output region.
    ScrollIn(Vec<String>),
}

/// `d` redraws the output region of a screen whose region ends on row
/// `output_line`, over `lines`: the last screenful when there is one,
/// else every line.
pub open spec fn redraws_last(d: Redraw, lines: Seq<Seq<char>>, output_line: int) -> bool {
    let rows = output_line - OUTPUT_START_LINE + 1;
    if lines.len() >= rows {
        d matches Redraw::Rows(v) && texts(v@) == lines.skip(lines.len() - rows)
    } else {
        d matches Redraw::ScrollIn(v) && texts(v@) == lines
    }
}

/// What scrolling forward did.
pub enum ScrollDown {
    /// The output was not scrolled back.
    Unchanged,
    /// The output moved forward; its rows are to be drawn anew.
    Moved,
    /// Scrolling back ended; this is to be drawn.
    Ended(Redraw),
}

/// `a` and `b` agree on everything but the scrollback.
pub open spec fn same_but_lines(a: Screen, b: Screen) -> bool {
    &&& a.spec_width() == b.spec_width()
    &&& a.spec_height() == b.spec_height()
    &&& a.spec_output_line() == b.spec_output_line()
    &&& a.spec_prompt_line() == b.spec_prompt_line()
    &&& a.spec_cursor() == b.spec_cursor()
    &&& a.spec_scrolled() == b.spec_scrolled()
    &&& a.spec_start() == b.spec_start()
}

/// `a` and `b` agree on everything but where the output is scrolled to.
pub open spec fn same_but_scroll(a: Screen, b: Screen) -> bool {
    &&& a.spec_lines() == b.spec_lines()
    &&& a.spec_width() == b.spec_width()
    &&& a.spec_height() == b.spec_height()
    &&& a.spec_output_line() == b.spec_output_line()
    &&& a.spec_prompt_line() == b.spec_prompt_line()
    &&& a.spec_cursor() == b.spec_cursor()
}

/// Every multiple of `width` up to the end of `bytes` is a character
/// boundary.
pub open spec fn cuts_on_boundaries(bytes: Seq<u8>, width: int) -> bool {
    forall|j: int| 0 < j <= bytes.len() && j % width == 0 ==> is_char_boundary(bytes, j)
}


/// The terminal reported a size the screen cannot use.
#[derive(Debug, Clone, Copy, PartialEq, Eq, Structural)]
pub struct TerminalSizeError;

impl TerminalSizeError {
    /// The error's text.
    pub fn message(&self) -> (r: String)
        ensures
            r@ == "Failed to retrieve valid dimsensions for terminal"@,
    {
        String::from_str("Failed to retrieve valid dimsensions for terminal")
    }
}

/// The classic full-screen layout: a top bar, the output region from row
/// two to the bottom bar, and the prompt on the last row; with its
/// scrollback and where it is scrolled to.
pub struct Screen {
    history: Vec<String>,
    width: u16,
    height: u16,
    output_line: u16,
    prompt_line: u16,
    cursor_prompt_pos: u16,
    scrolled: bool,
    start: usize,
}

impl Screen {
    /// The scrollback, oldest line first.
    pub closed spec fn spec_lines(&self) -> Seq<Seq<char>> {
        texts(self.history@)
    }

    /// Columns of the terminal.
    pub closed spec fn spec_width(&self) -> int {
        self.width as int
    }

    /// Rows of the terminal.
    pub closed spec fn spec_height(&self) -> int {
        self.height as int
    }

    /// The last row of the output region.
    pub closed spec fn spec_output_line(&self) -> int {
        self.output_line as int
    }

    /// The prompt's row.
    pub closed spec fn spec_prompt_line(&self) -> int {
        self.prompt_line as int
    }

    /// The cursor's column on the prompt row.
    pub closed spec fn spec_cursor(&self) -> int {
        self.cursor_prompt_pos as int
    }

    /// Whether the output is scrolled back.
    pub closed spec fn spec_scrolled(&self) -> bool {
        self.scrolled
    }

    /// The first scrollback line shown while scrolled back.
    pub closed spec fn spec_start(&self) -> int {
        self.start as int
    }

    /// Fewer lines than the capacity are kept, and the scroll position lies
    /// within them.
    pub closed spec fn wf(&self) -> bool {
        &&& self.history@.len() < SCREEN_HISTORY_CAPACITY
        &&& self.start <= self.history@.len()
    }

    /// A screen for a terminal of `width` columns and `height` rows, with an
    /// empty scrollback.
    pub fn new(width: u16, height: u16) -> (r: Screen)
        requires
            height >= 2,
        ensures
            r.wf(),
            r.spec_lines() == Seq::<Seq<char>>::empty(),
            r.spec_width() == width,
            r.spec_height() == height,
            r.spec_output_line() == height - 2,
            r.spec_prompt_line() == height,
            r.spec_cursor() == 1,
            !r.spec_scrolled(),
            r.spec_start() == 0,
    {
        let r = Screen {
            history: Vec::new(),
            width,
            height,
            output_line: height - 2,
            prompt_line: height,
            cursor_prompt_pos: 1,
            scrolled: false,
            start: 0,
        };
        assert(texts(r.history@) =~= Seq::<Seq<char>>::empty());
        r
    }

    /// Takes the terminal's size anew: a size with no columns or no rows is
    /// refused and changes nothing.
    pub fn setup(&mut self, width: u16, height: u16) -> (r: Result<(), TerminalSizeError>)
        requires
            old(self).wf(),
            width > 0 && height > 0 ==> height >= 2,
        ensures
            final(self).wf(),
            width > 0 && height > 0 ==> {
                &&& r is Ok
                &&& final(self).spec_width() == width
                &&& final(self).spec_height() == height
                &&& final(self).spec_output_line() == height - 2
                &&& final(self).spec_prompt_line() == height
                &&& final(self).spec_lines() == old(self).spec_lines()
                &&& final(self).spec_cursor() == old(self).spec_cursor()
                &&& final(self).spec_scrolled() == old(self).spec_scrolled()
                &&& final(self).spec_start() == old(self).spec_start()
            },
            !(width > 0 && height > 0) ==> r is Err && *final(self) == *old(self),
    {
        if width > 0 && height > 0 {
            self.width = width;
            self.height = height;
            self.output_line = height - 2;
            self.prompt_line = height;
            Ok(())
        } else {
            Err(TerminalSizeError)
        }
    }

    /// The top bar: its label, padded with double bars to the width.
    pub fn redraw_top_bar(&self, host: &str, port: u16) -> (r: String)
        ensures
            r@ == padded(top_label(host@, port), '\u{2550}', self.spec_width()),
    {
        let mut out: Vec<char> = Vec::new();
        if !host.is_empty() {
            out.push('\u{2550}');
            out.push(' ');
            push_str(&mut out, host);
            out.push(':');
            push_decimal(&mut out, port as u64);
            out.push(' ');
            out.push('\u{2550}');
        }
        assert(out@ =~= top_label(host@, port));
        pad_with(&mut out, '\u{2550}', self.width as usize);
        string_of(out.as_slice())
    }

    /// The bottom bar: its label, padded with bars to the width.
    pub fn redraw_bottom_bar(&self) -> (r: String)
        ensures
            r@ == padded(more_label(self.spec_scrolled()), '\u{2501}', self.spec_width()),
    {
        let mut out: Vec<char> = Vec::new();
        if self.scrolled {
            out.push('\u{2501}');
            push_str(&mut out, " (more) ");
            proof {
                reveal_strlit(" (more) ");
            }
        }
        assert(out@ =~= more_label(self.scrolled));
        pad_with(&mut out, '\u{2501}', self.width as usize);
        string_of(out.as_slice())
    }

    /// Stores the prompt, and gives the text to draw above the prompt row,
    /// without its trailing white space, unless the output is scrolled back.
    pub fn print_prompt(&mut self, prompt: &str) -> (r: Option<String>)
        requires
            old(self).wf(),
        ensures
            final(self).wf(),
            same_but_lines(*final(self), *old(self)),
            final(self).spec_lines() == screen_kept(old(self).spec_lines() + crlf_pieces(prompt@)),
            old(self).spec_scrolled() ==> r is None,
            !old(self).spec_scrolled() ==> (r matches Some(t) && t@ == trim_end(prompt@)),
    {
        self.append_to_history(prompt);
        if self.scrolled {
            None
        } else {
            Some(trimmed_end(prompt))
        }
    }

    /// The part of the typed input shown on the prompt row: whole widths
    /// are cut off its front while it is at least as wide as the screen.
    /// The cursor moves to column `pos + 1`.
    pub fn print_prompt_input<'a>(&mut self, input: &'a str, pos: usize) -> (r: &'a str)
        requires
            old(self).wf(),
            old(self).spec_width() > 0,
            cuts_on_boundaries(input.spec_bytes(), old(self).spec_width()),
            (pos as u16) < u16::MAX,
        ensures
            final(self).wf(),
            r.spec_bytes() == input.spec_bytes().subrange(
                input.spec_bytes().len() - (input.spec_bytes().len() as int) % old(self).spec_width(),
                input.spec_bytes().len() as int,
            ),
            final(self).spec_cursor() == (pos as u16) + 1,
            final(self).spec_lines() == old(self).spec_lines(),
            final(self).spec_width() == old(self).spec_width(),
            final(self).spec_height() == old(self).spec_height(),
            final(self).spec_output_line() == old(self).spec_output_line(),
            final(self).spec_prompt_line() == old(self).spec_prompt_line(),
            final(self).spec_scrolled() == old(self).spec_scrolled(),
            final(self).spec_start() == old(self).spec_start(),
    {
        let w = self.width as usize;
        let mut rest: &'a str = input;
        let ghost bytes = input.spec_bytes();
        let total = input.as_bytes().len();
        let ghost mut off: int = 0;
        proof {
            encode_utf8_valid_utf8(input@);
            assert(bytes.subrange(0, bytes.len() as int) =~= bytes);
        }
        while rest.len() >= w
            invariant
                w == old(self).spec_width(),
                w > 0,
                bytes == input.spec_bytes(),
                total == bytes.len(),
                0 <= off <= bytes.len(),
                off % (w as int) == 0,
                rest.spec_bytes() == bytes.subrange(off, bytes.len() as int),
                cuts_on_boundaries(bytes, w as int),
                valid_utf8(bytes),
            decreases rest.spec_bytes().len(),
        {
            proof {
                let rb = rest.spec_bytes();
                encode_utf8_valid_utf8(rest@);
                lemma_mod_add_multiples_vanish(off, w as int);
                if (w as int) < rb.len() {
                    assert(is_char_boundary(bytes, off + w));
                    is_char_boundary_iff_not_is_continuation_byte(bytes, off + w);
                    is_char_boundary_iff_not_is_continuation_byte(rb, w as int);
                    assert(rb[w as int] == bytes[off + w]);
                } else {
                    is_char_boundary_start_end_of_seq(rb);
                }
            }
            let (_, last) = rest.split_at(w);
            rest = last;
            proof {
                assert(rest.spec_bytes() =~= bytes.subrange(off + w, bytes.len() as int));
                off = off + w;
            }
        }
        proof {
            let n = bytes.len() as int;
            assert(rest.spec_bytes().len() == n - off);
            assert(n - off < w);
            lemma_fundamental_div_mod(off, w as int);
            lemma_mul_is_commutative(w as int, off / (w as int));
            lemma_fundamental_div_mod_converse(n, w as int, off / (w as int), n - off);
        }
        self.cursor_prompt_pos = pos as u16 + 1;
        rest
    }

    /// Whether `print_output` can take `line`: a blank line always, any
    /// other when wrapping it slices it only where characters start.
    pub fn can_print(&self, line: &str) -> (r: bool)
        requires
            4 * line@.len() < usize::MAX,
        ensures
            r == (spec_is_blank(line@) || screen_sliceable(line@, self.spec_width())),
    {
        let cs = chars_of(line);
        if is_blank(cs.as_slice()) {
            return true;
        }
        screen_wrap_checked(line, self.width as usize).is_some()
    }

    /// Whether `print_info` can take `output` (see `can_print`).
    pub fn can_print_info(&self, output: &str) -> (r: bool)
        requires
            4 * (output@.len() + 5) < usize::MAX,
        ensures
            r == screen_sliceable(info_line(output@), self.spec_width()),
    {
        let mut text: Vec<char> = Vec::new();
        push_str(&mut text, "[**] ");
        proof {
            reveal_strlit("[**] ");
        }
        push_str(&mut text, output);
        let line = string_of(text.as_slice());
        assert(line@ =~= info_line(output@));
        screen_wrap_checked(line.as_str(), self.width as usize).is_some()
    }

    /// Prints a received line: a blank line as it is, any other wrapped to
    /// the width, piece by piece. Each piece is stored; the pieces are given
    /// back to be drawn unless the output is scrolled back.
    pub fn print_output(&mut self, line: &str) -> (r: Vec<String>)
        requires
            old(self).wf(),
            !spec_is_blank(line@) ==> screen_sliceable(line@, old(self).spec_width()) && 4
                * line@.len() < usize::MAX,
        ensures
            final(self).wf(),
            same_but_lines(*final(self), *old(self)),
            final(self).spec_lines() == screen_print_all(
                old(self).spec_lines(),
                output_pieces(line@, old(self).spec_width()),
            ),
            texts(r@) == if old(self).spec_scrolled() {
                Seq::<Seq<char>>::empty()
            } else {
                output_pieces(line@, old(self).spec_width())
            },
    {
        let cs = chars_of(line);
        let pieces: Vec<String> = if is_blank(cs.as_slice()) {
            let mut v: Vec<String> = Vec::new();
            push_text(&mut v, line.to_owned());
            v
        } else {
            wrap_line(line, self.width as usize)
        };
        let ghost all = output_pieces(line@, old(self).spec_width());
        assert(texts(pieces@) =~= all);
        let mut drawn: Vec<String> = Vec::new();
        let mut k: usize = 0;
        assert(texts(drawn@) =~= Seq::<Seq<char>>::empty());
        while k < pieces.len()
            invariant
                self.wf(),
                k <= pieces@.len(),
                texts(pieces@) == all,
                same_but_lines(*self, *old(self)),
                self.spec_lines() == screen_print_all(old(self).spec_lines(), all.take(k as int)),
                texts(drawn@) == if old(self).spec_scrolled() {
                    Seq::<Seq<char>>::empty()
                } else {
                    all.take(k as int)
                },
            decreases pieces@.len() - k,
        {
            self.append_to_history(pieces[k].as_str());
            assert(all.take(k + 1).drop_last() =~= all.take(k as int));
            if !self.scrolled {
                push_text(&mut drawn, pieces[k].clone());
                assert(all.take(k + 1) =~= all.take(k as int).push(all[k as int]));
            }
            k += 1;
        }
        assert(all.take(pieces@.len() as int) =~= all);
        drawn
    }

    /// Prints an information line, marked `[**]`, as `print_output` does.
    pub fn print_info(&mut self, output: &str) -> (r: Vec<String>)
        requires
            old(self).wf(),
            screen_sliceable(info_line(output@), old(self).spec_width()),
            4 * (output@.len() + 5) < usize::MAX,
        ensures
            final(self).wf(),
            same_but_lines(*final(self), *old(self)),
            final(self).spec_lines() == screen_print_all(
                old(self).spec_lines(),
                output_pieces(info_line(output@), old(self).spec_width()),
            ),
            texts(r@) == if old(self).spec_scrolled() {
                Seq::<Seq<char>>::empty()
            } else {
                output_pieces(info_line(output@), old(self).spec_width())
            },
    {
        let mut text: Vec<char> = Vec::new();
        push_str(&mut text, "[**] ");
        proof {
            reveal_strlit("[**] ");
        }
        push_str(&mut text, output);
        let line = string_of(text.as_slice());
        assert(line@ =~= info_line(output@));
        self.print_output(line.as_str())
    }

    /// Scrolls back five lines, from the last screenful when not yet
    /// scrolled; tells whether the output region is to be drawn anew.
    /// Nothing happens while the scrollback fits the region.
    pub fn scroll_up(&mut self) -> (r: bool)
        requires
            old(self).wf(),
            old(self).spec_output_line() >= OUTPUT_START_LINE,
        ensures
            final(self).wf(),
            same_but_scroll(*final(self), *old(self)),
            ({
                let len = old(self).spec_lines().len() as int;
                let range = old(self).spec_output_line() - OUTPUT_START_LINE;
                let from = if old(self).spec_scrolled() {
                    old(self).spec_start()
                } else {
                    len - range
                };
                &&& r == (len > range)
                &&& r ==> final(self).spec_scrolled() && final(self).spec_start() == five_back(from)
                &&& !r ==> final(self).spec_scrolled() == old(self).spec_scrolled()
                    && final(self).spec_start() == old(self).spec_start()
            }),
    {
        let range = (self.output_line - OUTPUT_START_LINE) as usize;
        if self.history.len() > range {
            if !self.scrolled {
                self.scrolled = true;
                self.start = self.history.len() - range;
            }
            self.start = if self.start >= 5 {
                self.start - 5
            } else {
                0
            };
            true
        } else {
            false
        }
    }

    /// Scrolls forward five lines; reaching the last screenful ends the
    /// scrolling back.
    pub fn scroll_down(&mut self) -> (r: ScrollDown)
        requires
            old(self).wf(),
            old(self).spec_output_line() >= OUTPUT_START_LINE,
            old(self).spec_scrolled() ==> old(self).spec_lines().len() >= old(
                self,
            ).spec_output_line() - OUTPUT_START_LINE,
        ensures
            final(self).wf(),
            same_but_scroll(*final(self), *old(self)),
            !old(self).spec_scrolled() ==> r is Unchanged && *final(self) == *old(self),
            old(self).spec_scrolled() ==> ({
                let len = old(self).spec_lines().len() as int;
                let range = old(self).spec_output_line() - OUTPUT_START_LINE;
                let next = old(self).spec_start() + 5;
                if next >= len - range {
                    &&& r matches ScrollDown::Ended(d)
                    &&& redraws_last(d, old(self).spec_lines(), old(self).spec_output_line())
                    &&& !final(self).spec_scrolled()
                    &&& final(self).spec_start() == old(self).spec_start()
                } else {
                    &&& r is Moved
                    &&& final(self).spec_scrolled()
                    &&& final(self).spec_start() == next
                }
            }),
    {
        if !self.scrolled {
            return ScrollDown::Unchanged;
        }
        let len = self.history.len();
        let range = (self.output_line - OUTPUT_START_LINE) as usize;
        let next = self.start + 5;
        if next >= len - range {
            let d = self.reset_scroll();
            ScrollDown::Ended(d)
        } else {
            self.start = next;
            ScrollDown::Moved
        }
    }

    /// Whether the rows shown while scrolled back all lie in the scrollback.
    pub fn rows_in_range(&self) -> (r: bool)
        requires
            self.wf(),
        ensures
            r == (self.spec_output_line() >= OUTPUT_START_LINE && self.spec_start()
                + self.spec_output_line() - OUTPUT_START_LINE < self.spec_lines().len()),
    {
        self.output_line >= OUTPUT_START_LINE && self.start + ((self.output_line
            - OUTPUT_START_LINE) as usize) < self.history.len()
    }

    /// The lines shown on the output region while scrolled back, top row
    /// first.
    pub fn scroll_rows(&self) -> (r: Vec<String>)
        requires
            self.spec_output_line() >= OUTPUT_START_LINE,
            self.spec_start() + self.spec_output_line() - OUTPUT_START_LINE
                < self.spec_lines().len(),
        ensures
            texts(r@) == self.spec_lines().subrange(
                self.spec_start(),
                self.spec_start() + self.spec_output_line() - OUTPUT_START_LINE + 1,
            ),
    {
        let rows = (self.output_line - OUTPUT_START_LINE) as usize + 1;
        let len = self.history.len();
        let mut out: Vec<String> = Vec::new();
        let mut i: usize = 0;
        assert(texts(out@) =~= Seq::<Seq<char>>::empty());
        while i < rows
            invariant
                len == self.history@.len(),
                rows == self.spec_output_line() - OUTPUT_START_LINE + 1,
                self.spec_start() + rows <= self.spec_lines().len(),
                self.spec_lines().len() == self.history@.len(),
                i <= rows,
                texts(out@) == self.spec_lines().subrange(
                    self.spec_start(),
                    self.spec_start() + i,
                ),
            decreases rows - i,
        {
            push_text(&mut out, self.history[self.start + i].clone());
            assert(self.spec_lines().subrange(self.spec_start(), self.spec_start() + i + 1)
                =~= self.spec_lines().subrange(self.spec_start(), self.spec_start() + i).push(
                self.spec_lines()[self.spec_start() + i],
            ));
            i += 1;
        }
        out
    }

    /// Ends scrolling back, and gives what to draw: the last screenful, or
    /// every line when there is less.
    pub fn reset_scroll(&mut self) -> (r: Redraw)
        requires
            old(self).wf(),
            old(self).spec_output_line() >= OUTPUT_START_LINE,
        ensures
            final(self).wf(),
            same_but_scroll(*final(self), *old(self)),
            !final(self).spec_scrolled(),
            final(self).spec_start() == old(self).spec_start(),
            redraws_last(r, old(self).spec_lines(), old(self).spec_output_line()),
    {
        self.scrolled = false;
        let rows = (self.output_line - OUTPUT_START_LINE) as usize + 1;
        let len = self.history.len();
        let from: usize = if len >= rows {
            len - rows
        } else {
            0
        };
        let mut out: Vec<String> = Vec::new();
        let mut i: usize = from;
        assert(texts(out@) =~= Seq::<Seq<char>>::empty());
        while i < len
            invariant
                from <= i <= len,
                len == self.history@.len(),
                texts(out@) == texts(self.history@).subrange(from as int, i as int),
            decreases len - i,
        {
            push_text(&mut out, self.history[i].clone());
            assert(texts(self.history@).subrange(from as int, i + 1) =~= texts(
                self.history@,
            ).subrange(from as int, i as int).push(texts(self.history@)[i as int]));
            i += 1;
        }
        assert(texts(self.history@).subrange(from as int, len as int) =~= texts(
            self.history@,
        ).skip(from as int));
        assert(texts(self.history@).skip(0) =~= texts(self.history@));
        if len >= rows {
            Redraw::Rows(out)
        } else {
            Redraw::ScrollIn(out)
        }
    }

    /// Whether the output is scrolled back.
    pub fn is_scrolled(&self) -> (r: bool)
        ensures
            r == self.spec_scrolled(),
    {
        self.scrolled
    }

    /// Columns of the terminal.
    pub fn width(&self) -> (r: u16)
        ensures
            r == self.spec_width(),
    {
        self.width
    }

    /// The cursor's column on the prompt row.
    pub fn cursor_prompt_pos(&self) -> (r: u16)
        ensures
            r == self.spec_cursor(),
    {
        self.cursor_prompt_pos
    }

    /// The last row of the output region.
    pub fn output_line(&self) -> (r: u16)
        ensures
            r == self.spec_output_line(),
    {
        self.output_line
    }

    /// The prompt's row.
    pub fn prompt_line(&self) -> (r: u16)
        ensures
            r == self.spec_prompt_line(),
    {
        self.prompt_line
    }

    /// How many lines the scrollback holds.
    pub fn history_len(&self) -> (r: usize)
        ensures
            r == self.spec_lines().len(),
    {
        self.history.len()
    }

    /// The scrollback line at `index`, if there is one.
    pub fn history_line(&self, index: usize) -> (r: Option<&str>)
        ensures
            index < self.spec_lines().len() ==> (r matches Some(s) && s@ == self.spec_lines()[
                index as int
            ]),
            index >= self.spec_lines().len() ==> r is None,
    {
        if index < self.history.len() {
            Some(self.history[index].as_str())
        } else {
            None
        }
    }

    /// Appends each `"\r\n"`-separated piece of `line` to the scrollback,
    /// then drops the oldest lines until fewer than the capacity are left.
    fn append_to_history(&mut self, line: &str)
        requires
            old(self).wf(),
        ensures
            final(self).wf(),
            final(self).spec_lines() == screen_kept(old(self).spec_lines() + crlf_pieces(line@)),
            final(self).spec_lines().len() >= old(self).spec_lines().len(),
            *final(self) == (Screen { history: final(self).history, ..*old(self) }),
    {
        let pieces = split_crlf(line);
        let ghost start = texts(self.history@);
        let mut k: usize = 0;
        while k < pieces.len()
            invariant
                k <= pieces@.len(),
                texts(self.history@) == start + texts(pieces@).take(k as int),
                *self == (Screen { history: self.history, ..*old(self) }),
                start == texts(old(self).history@),
                old(self).wf(),
            decreases pieces@.len() - k,
        {
            push_text(&mut self.history, pieces[k].clone());
            assert(texts(pieces@).take(k + 1) =~= texts(pieces@).take(k as int).push(
                pieces@[k as int]@,
            ));
            k += 1;
        }
        assert(texts(pieces@).take(pieces@.len() as int) =~= texts(pieces@));
        let ghost full = texts(self.history@);
        let n0 = self.history.len();
        assert(full.len() == n0);
        let mut dropped: usize = 0;
        while self.history.len() >= SCREEN_HISTORY_CAPACITY
            invariant
                full.len() <= usize::MAX,
                dropped + self.history@.len() == full.len(),
                texts(self.history@) == full.skip(dropped as int),
                self.history@.len() + 1 >= SCREEN_HISTORY_CAPACITY || dropped == 0,
                *self == (Screen { history: self.history, ..*old(self) }),
                full.len() >= texts(old(self).history@).len(),
                old(self).wf(),
            decreases self.history@.len(),
        {
            let ghost before = self.history@;
            self.history.remove(0);
            dropped += 1;
            proof {
                assert(texts(self.history@) =~= texts(before).skip(1));
                assert(texts(before).skip(1) =~= full.skip(dropped as int));
            }
        }
        assert(full.skip(0) =~= full);
    }
}

} // verus!
