//! Word wrapping for the single-window screen: escape sequences are skipped
//! up to their final `m`, and every other character takes one column.
use vstd::prelude::*;
use crate::model::Line;
use crate::text::{
    chars_of, is_blank, lines_of, push_text, spec_is_blank, spec_lines, string_of, string_of_range,
    texts,
};
use crate::ui::history::appended_texts;
use crate::ui::input_rows::byte_offsets;
use crate::display::{byte_len, byte_offset, lemma_byte_offset_monotone};

verus! {

/// Where the wrapper stands after some characters: the pieces cut so far,
/// where the current piece starts, the last space seen, the printed length
/// of the current piece and since that space, and whether an escape
/// sequence is open.
pub type ColumnScan = (Seq<(int, int)>, int, int, int, int, bool);

/// The wrapper reads `s[i]`.
pub open spec fn column_step(s: Seq<char>, width: int, st: ColumnScan, i: int) -> ColumnScan {
    let (cuts, last_cut, last_space, printed, since_space, in_escape) = st;
    let c = s[i];
    if c == '\x1b' {
        (cuts, last_cut, last_space, printed, since_space, true)
    } else if in_escape {
        (cuts, last_cut, last_space, printed, since_space, c != 'm')
    } else {
        let p = printed + 1;
        let (ls, q) = if c == ' ' && p < width {
            (i, 0)
        } else {
            (last_space, since_space + 1)
        };
        if p >= width {
            if last_cut < ls {
                (cuts.push((last_cut, ls)), ls + 1, ls, q, q, false)
            } else {
                (cuts.push((last_cut, i + 1)), i + 1, ls, 0, q, false)
            }
        } else {
            (cuts, last_cut, ls, p, q, false)
        }
    }
}

/// The wrapper's state after the first `n` characters of `s`.
pub open spec fn column_scan(s: Seq<char>, width: int, n: int) -> ColumnScan
    decreases n,
{
    if n <= 0 {
        (Seq::empty(), 0, 0, 0, 0, false)
    } else {
        column_step(s, width, column_scan(s, width, n - 1), n - 1)
    }
}

/// Whether byte `p` of the UTF-8 form of `s` is where one of its
/// characters starts, or its end.
pub open spec fn on_boundary(s: Seq<char>, p: int) -> bool {
    exists|k: int| 0 <= k <= s.len() && #[trigger] byte_offset(s, k) == p
}

/// The index of the character that starts at byte `p` of `s` (its length
/// when `p` is the end).
pub open spec fn char_at_byte(s: Seq<char>, p: int) -> int {
    choose|k: int| 0 <= k <= s.len() && #[trigger] byte_offset(s, k) == p
}

/// The texts of `s` between the given positions. The wrapper counts
/// positions in characters but slices the text at them as byte positions,
/// so a range is read as the bytes it names.
pub open spec fn range_texts(s: Seq<char>, cuts: Seq<(int, int)>) -> Seq<Seq<char>> {
    cuts.map_values(|r: (int, int)| s.subrange(char_at_byte(s, r.0), char_at_byte(s, r.1)))
}

/// Every position the cuts slice at falls on a character of `s`.
pub open spec fn cuts_on_boundaries(s: Seq<char>, cuts: Seq<(int, int)>) -> bool {
    forall|j: int|
        0 <= j < cuts.len() ==> on_boundary(s, (#[trigger] cuts[j]).0) && on_boundary(s, cuts[j].1)
}

/// Wrapping the line `s` slices it only where characters start: at every
/// cut, and where the remainder starts when `slices_rest` says it is
/// sliced there.
pub open spec fn segment_sliceable(
    s: Seq<char>,
    width: int,
    slices_rest: spec_fn(Seq<char>, int) -> bool,
) -> bool {
    let st = column_scan(s, width, s.len() as int);
    spec_is_blank(s) || (cuts_on_boundaries(s, st.0) && (slices_rest(s, st.1) ==> on_boundary(
        s,
        st.1,
    )))
}

/// Every line of `lines` can be wrapped (see `segment_sliceable`).
pub open spec fn lines_sliceable(
    lines: Seq<Seq<char>>,
    width: int,
    slices_rest: spec_fn(Seq<char>, int) -> bool,
) -> bool {
    forall|k: int| 0 <= k < lines.len() ==> segment_sliceable(#[trigger] lines[k], width, slices_rest)
}

/// The rows one line wraps into; `keep_rest` decides whether what follows
/// the last cut becomes a row.
pub open spec fn column_segment(
    s: Seq<char>,
    width: int,
    keep_rest: spec_fn(Seq<char>, int) -> bool,
) -> Seq<Seq<char>> {
    if spec_is_blank(s) {
        seq![s]
    } else {
        let last_cut = column_scan(s, width, s.len() as int).1;
        range_texts(s, column_scan(s, width, s.len() as int).0) + if keep_rest(s, last_cut) {
            seq![s.subrange(char_at_byte(s, last_cut), s.len() as int)]
        } else {
            Seq::empty()
        }
    }
}

/// The rows of the first `k` lines.
pub open spec fn column_lines(
    lines: Seq<Seq<char>>,
    width: int,
    keep_rest: spec_fn(Seq<char>, int) -> bool,
    k: int,
) -> Seq<Seq<char>>
    decreases k,
{
    if k <= 0 {
        Seq::empty()
    } else {
        column_lines(lines, width, keep_rest, k - 1) + column_segment(
            lines[k - 1],
            width,
            keep_rest,
        )
    }
}

/// The window looks at the remainder when it starts before the end.
pub open spec fn slices_short_rest(s: Seq<char>, last_cut: int) -> bool {
    last_cut < byte_len(s)
}

/// The window keeps a remainder that is not blank.
pub open spec fn keeps_unblank_rest(s: Seq<char>, last_cut: int) -> bool {
    last_cut < byte_len(s) && !spec_is_blank(s.subrange(char_at_byte(s, last_cut), s.len() as int))
}

/// Every line of `text` can be wrapped by the window.
pub open spec fn window_sliceable(text: Seq<char>, width: int) -> bool {
    lines_sliceable(spec_lines(text), width, |s: Seq<char>, c: int| slices_short_rest(s, c))
}

/// The rows the window wraps `text` into.
pub open spec fn spec_window_wrap(text: Seq<char>, width: int) -> Seq<Seq<char>> {
    column_lines(
        spec_lines(text),
        width,
        |s: Seq<char>, c: int| keeps_unblank_rest(s, c),
        spec_lines(text).len() as int,
    )
}

/// The state `column_scan` is in is well formed.
pub open spec fn column_ok(st: ColumnScan, n: int) -> bool {
    let (cuts, last_cut, last_space, printed, since_space, _) = st;
    &&& 0 <= last_cut <= n
    &&& 0 <= last_space < n || last_space == 0
    &&& 0 <= printed <= n
    &&& 0 <= since_space <= n
    &&& forall|j: int| 0 <= j < cuts.len() ==> 0 <= (#[trigger] cuts[j]).0 <= cuts[j].1 <= n
}

proof fn lemma_range_texts_push(s: Seq<char>, cuts: Seq<(int, int)>, r: (int, int))
    ensures
        range_texts(s, cuts.push(r)) == range_texts(s, cuts).push(
            s.subrange(char_at_byte(s, r.0), char_at_byte(s, r.1)),
        ),
{
    assert(range_texts(s, cuts.push(r)) =~= range_texts(s, cuts).push(
        s.subrange(char_at_byte(s, r.0), char_at_byte(s, r.1)),
    ));
}

/// Byte offsets are at most four per character.
pub proof fn lemma_byte_offset_bound(s: Seq<char>, n: int)
    requires
        0 <= n <= s.len(),
    ensures
        byte_offset(s, n) <= 4 * n,
    decreases n,
{
    if n > 0 {
        lemma_byte_offset_bound(s, n - 1);
    }
}

/// The character of `s` that starts at byte `p`, if one does; `offsets`
/// holds the byte offset of every character boundary of `s`.
pub(crate) fn char_index_at(s: &Vec<char>, offsets: &Vec<usize>, p: usize) -> (r: Option<usize>)
    requires
        offsets@.len() == s@.len() + 1,
        forall|i: int| 0 <= i <= s@.len() ==> offsets@[i] == byte_offset(s@, i),
    ensures
        r is Some <==> on_boundary(s@, p as int),
        r matches Some(k) ==> k <= s@.len() && byte_offset(s@, k as int) == p && char_at_byte(
            s@,
            p as int,
        ) == k,
{
    let mut k: usize = 0;
    while k < offsets.len()
        invariant
            offsets@.len() == s@.len() + 1,
            forall|i: int| 0 <= i <= s@.len() ==> offsets@[i] == byte_offset(s@, i),
            k <= offsets@.len(),
            forall|i: int| 0 <= i < k ==> byte_offset(s@, i) != p,
        decreases offsets@.len() - k,
    {
        if offsets[k] == p {
            proof {
                let c = char_at_byte(s@, p as int);
                assert(byte_offset(s@, k as int) == p);
                assert(0 <= c <= s@.len() && byte_offset(s@, c) == p);
                if c < k {
                    lemma_byte_offset_monotone(s@, c, k as int);
                } else if c > k {
                    lemma_byte_offset_monotone(s@, k as int, c);
                }
            }
            return Some(k);
        }
        k += 1;
    }
    None
}

/// Appends the rows of one line to `out`; returns where the last row cut
/// ended, so the caller can decide what to do with the remainder, and
/// whether every cut fell where a character starts (when one did not, what
/// `out` holds is not to be used).
pub(crate) fn column_wrap_one(
    s: &Vec<char>,
    offsets: &Vec<usize>,
    width: usize,
    out: &mut Vec<String>,
) -> (r: (usize, bool))
    requires
        s@.len() < usize::MAX,
        offsets@.len() == s@.len() + 1,
        forall|i: int| 0 <= i <= s@.len() ==> offsets@[i] == byte_offset(s@, i),
    ensures
        r.0 == column_scan(s@, width as int, s@.len() as int).1,
        r.0 <= s@.len(),
        r.1 == cuts_on_boundaries(s@, column_scan(s@, width as int, s@.len() as int).0),
        r.1 ==> texts(final(out)@) == texts(old(out)@) + range_texts(
            s@,
            column_scan(s@, width as int, s@.len() as int).0,
        ),
{
    let ghost w = width as int;
    let mut last_cut: usize = 0;
    let mut last_space: usize = 0;
    let mut printed: usize = 0;
    let mut since_space: usize = 0;
    let mut in_escape = false;
    let mut ok = true;
    let mut i: usize = 0;
    while i < s.len()
        invariant
            s@.len() < usize::MAX,
            offsets@.len() == s@.len() + 1,
            forall|k: int| 0 <= k <= s@.len() ==> offsets@[k] == byte_offset(s@, k),
            w == width as int,
            i <= s@.len(),
            ({
                let st = column_scan(s@, w, i as int);
                &&& column_ok(st, i as int)
                &&& st.1 == last_cut
                &&& st.2 == last_space
                &&& st.3 == printed
                &&& st.4 == since_space
                &&& st.5 == in_escape
                &&& ok == cuts_on_boundaries(s@, st.0)
                &&& ok ==> texts(out@) == texts(old(out)@) + range_texts(s@, st.0)
            }),
        decreases s@.len() - i,
    {
        let ghost st = column_scan(s@, w, i as int);
        let c = s[i];
        if c == '\x1b' {
            in_escape = true;
        } else if in_escape {
            in_escape = c != 'm';
        } else {
            printed = printed + 1;
            since_space = since_space + 1;
            if c == ' ' && printed < width {
                last_space = i;
                since_space = 0;
            }
            if printed >= width {
                let end = if last_cut < last_space {
                    last_space
                } else {
                    i + 1
                };
                let ghost cut = (last_cut as int, end as int);
                proof {
                    assert(cuts_on_boundaries(s@, st.0.push(cut)) == (cuts_on_boundaries(s@, st.0)
                        && on_boundary(s@, cut.0) && on_boundary(s@, cut.1))) by {
                        let n = st.0.push(cut);
                        if cuts_on_boundaries(s@, st.0) && on_boundary(s@, cut.0) && on_boundary(
                            s@,
                            cut.1,
                        ) {
                            assert forall|j: int| 0 <= j < n.len() implies on_boundary(
                                s@,
                                (#[trigger] n[j]).0,
                            ) && on_boundary(s@, n[j].1) by {
                                if j < st.0.len() {
                                    assert(n[j] == st.0[j]);
                                }
                            }
                        }
                        if cuts_on_boundaries(s@, n) {
                            assert(n[st.0.len() as int] == cut);
                            assert forall|j: int| 0 <= j < st.0.len() implies on_boundary(
                                s@,
                                (#[trigger] st.0[j]).0,
                            ) && on_boundary(s@, st.0[j].1) by {
                                assert(n[j] == st.0[j]);
                            }
                        }
                    }
                }
                if ok {
                    let ka = char_index_at(s, offsets, last_cut);
                    let kb = char_index_at(s, offsets, end);
                    match (ka, kb) {
                        (Some(a), Some(b)) => {
                            proof {
                                if a > b {
                                    lemma_byte_offset_monotone(s@, b as int, a as int);
                                }
                            }
                            let piece = string_of_range(s.as_slice(), a, b);
                            push_text(out, piece);
                            proof {
                                lemma_range_texts_push(s@, st.0, cut);
                            }
                        },
                        _ => {
                            ok = false;
                        },
                    }
                }
                if last_cut < last_space {
                    printed = since_space;
                    last_cut = last_space + 1;
                } else {
                    printed = 0;
                    last_cut = i + 1;
                }
            }
        }
        i += 1;
        proof {
            let nst = column_scan(s@, w, i as int);
            assert forall|j: int| 0 <= j < nst.0.len() implies 0 <= (#[trigger] nst.0[j]).0
                <= nst.0[j].1 <= i by {
                if j < st.0.len() {
                    assert(nst.0[j] == st.0[j]);
                }
            }
        }
    }
    (last_cut, ok)
}

/// Wraps `line` to `width` columns for the single-window screen (see
/// `wrap_line`), or `None` when it would slice a line where no character
/// starts.
pub(crate) fn window_wrap_checked(line: &str, width: usize) -> (r: Option<Vec<String>>)
    requires
        4 * line@.len() < usize::MAX,
    ensures
        r is Some <==> window_sliceable(line@, width as int),
        r matches Some(v) ==> texts(v@) == spec_window_wrap(line@, width as int),
{
    let cs = chars_of(line);
    let lines = lines_of(cs.as_slice());
    let mut out: Vec<String> = Vec::new();
    let mut k: usize = 0;
    let ghost keep = |s: Seq<char>, c: int| keeps_unblank_rest(s, c);
    let ghost slices = |s: Seq<char>, c: int| slices_short_rest(s, c);
    proof {
        assert(texts(out@) =~= Seq::<Seq<char>>::empty());
    }
    while k < lines.len()
        invariant
            cs@ == line@,
            lines@.len() == spec_lines(line@).len(),
            forall|i: int| 0 <= i < lines@.len() ==> #[trigger] lines@[i]@ == spec_lines(line@)[i],
            4 * line@.len() < usize::MAX,
            keep == (|s: Seq<char>, c: int| keeps_unblank_rest(s, c)),
            slices == (|s: Seq<char>, c: int| slices_short_rest(s, c)),
            k <= lines@.len(),
            forall|j: int| 0 <= j < k ==> segment_sliceable(#[trigger] spec_lines(line@)[j], width as int, slices),
            texts(out@) == column_lines(spec_lines(line@), width as int, keep, k as int),
        decreases lines@.len() - k,
    {
        let seg = &lines[k];
        proof {
            crate::ui::user_interface::lemma_line_len_bound(line@, k as int);
            lemma_byte_offset_bound(seg@, seg@.len() as int);
        }
        let ghost before = texts(out@);
        if is_blank(seg.as_slice()) {
            let whole = string_of_range(seg.as_slice(), 0, seg.len());
            assert(seg@.subrange(0, seg@.len() as int) =~= seg@);
            push_text(&mut out, whole);
        } else {
            let offsets = byte_offsets(seg);
            let (last_cut, ok) = column_wrap_one(seg, &offsets, width, &mut out);
            if !ok {
                assert(!segment_sliceable(spec_lines(line@)[k as int], width as int, slices));
                return None;
            }
            let total = offsets[seg.len()];
            if last_cut < total {
                match char_index_at(seg, &offsets, last_cut) {
                    Some(a) => {
                        let rest = string_of_range(seg.as_slice(), a, seg.len());
                        let rest_chars = chars_of(rest.as_str());
                        if !is_blank(rest_chars.as_slice()) {
                            push_text(&mut out, rest);
                        }
                    },
                    None => {
                        assert(!segment_sliceable(spec_lines(line@)[k as int], width as int, slices));
                        return None;
                    },
                }
            }
        }
        assert(segment_sliceable(spec_lines(line@)[k as int], width as int, slices));
        assert(texts(out@) =~= before + column_segment(seg@, width as int, keep));
        k += 1;
    }
    assert(lines_sliceable(spec_lines(line@), width as int, slices));
    Some(out)
}

/// Wraps `line` to `width` columns for the single-window screen: each line
/// is cut at the last space before the edge, or at the edge when there is
/// none; escape sequences up to their `m` take no columns; a blank
/// remainder is dropped and blank lines are kept. Positions are counted in
/// characters and the line is sliced at them as byte positions, so every
/// line must be sliced only where characters start (see
/// `window_sliceable`; an ASCII line always is).
pub fn wrap_line(line: &str, width: usize) -> (r: Vec<String>)
    requires
        window_sliceable(line@, width as int),
        4 * line@.len() < usize::MAX,
    ensures
        texts(r@) == spec_window_wrap(line@, width as int),
{
    match window_wrap_checked(line, width) {
        Some(v) => v,
        None => Vec::new(),
    }
}

/// Whether the window can wrap `line` (see `window_sliceable`).
pub fn window_can_wrap(line: &str, width: usize) -> (r: bool)
    requires
        4 * line@.len() < usize::MAX,
    ensures
        r == window_sliceable(line@, width as int),
{
    window_wrap_checked(line, width).is_some()
}

/// The window's scrollback never reaches this many lines: once it does,
/// the oldest are dropped one by one.
pub const WINDOW_HISTORY_CAPACITY: usize = 32768;

/// What the window keeps after appending `added` to `lines`: the oldest
/// lines go until fewer than the capacity are left.
pub open spec fn kept(lines: Seq<Seq<char>>) -> Seq<Seq<char>> {
    if lines.len() >= WINDOW_HISTORY_CAPACITY {
        lines.skip(lines.len() - (WINDOW_HISTORY_CAPACITY - 1))
    } else {
        lines
    }
}

/// The lines printed in the single window.
pub struct History {
    inner: Vec<String>,
}

impl History {
    /// The stored lines, oldest first.
    pub closed spec fn spec_lines(&self) -> Seq<Seq<char>> {
        texts(self.inner@)
    }

    /// Fewer lines than the capacity are stored.
    pub closed spec fn wf(&self) -> bool {
        self.inner@.len() < WINDOW_HISTORY_CAPACITY
    }

    /// An empty history.
    pub fn new() -> (r: History)
        ensures
            r.wf(),
            r.spec_lines() == Seq::<Seq<char>>::empty(),
    {
        History { inner: Vec::new() }
    }

    /// Appends a text: each of its lines, or one empty line for a blank
    /// text; then the oldest lines go until fewer than the capacity are left.
    pub fn append(&mut self, line: &str)
        requires
            old(self).wf(),
        ensures
            final(self).wf(),
            final(self).spec_lines() == kept(old(self).spec_lines() + appended_texts(line@)),
    {
        let cs = chars_of(line);
        let ghost start = self.inner@;
        let ghost added = appended_texts(line@);
        if !is_blank(cs.as_slice()) {
            let segments = lines_of(cs.as_slice());
            let mut k: usize = 0;
            while k < segments.len()
                invariant
                    k <= segments@.len(),
                    segments@.len() == spec_lines(cs@).len(),
                    forall|i: int|
                        0 <= i < segments@.len() ==> #[trigger] segments@[i]@ == spec_lines(
                            cs@,
                        )[i],
                    cs@ == line@,
                    !spec_is_blank(line@),
                    added == spec_lines(line@),
                    texts(self.inner@) == texts(start) + added.take(k as int),
                decreases segments@.len() - k,
            {
                let s = string_of(segments[k].as_slice());
                push_text(&mut self.inner, s);
                proof {
                    assert(added.take(k + 1) =~= added.take(k as int).push(added[k as int]));
                    assert(texts(self.inner@) =~= texts(start) + added.take(k + 1));
                }
                k += 1;
            }
            assert(added.take(segments@.len() as int) =~= added);
        } else {
            push_text(&mut self.inner, String::new());
            assert(texts(self.inner@) =~= texts(start) + added);
        }
        let n0 = self.inner.len();
        let ghost full = texts(self.inner@);
        assert(full.len() == n0);
        let mut dropped: usize = 0;
        while self.inner.len() >= WINDOW_HISTORY_CAPACITY
            invariant
                full.len() <= usize::MAX,
                dropped + self.inner@.len() == full.len(),
                texts(self.inner@) == full.skip(dropped as int),
                self.inner@.len() + 1 >= WINDOW_HISTORY_CAPACITY || dropped == 0,
            decreases self.inner@.len(),
        {
            let ghost before = self.inner@;
            self.inner.remove(0);
            dropped += 1;
            proof {
                assert(self.inner@ =~= before.subrange(1, before.len() as int));
                assert(texts(self.inner@) =~= texts(before).skip(1));
                assert(texts(before).skip(1) =~= full.skip(dropped as int));
            }
        }
        assert(full.skip(0) =~= full);
    }

    /// How many lines are stored.
    pub fn len(&self) -> (r: usize)
        ensures
            r == self.spec_lines().len(),
    {
        self.inner.len()
    }

    /// The stored line at `index`, if there is one.
    pub fn get(&self, index: usize) -> (r: Option<&str>)
        ensures
            index < self.spec_lines().len() ==> (r matches Some(s) && s@ == self.spec_lines()[
                index as int
            ]),
            index >= self.spec_lines().len() ==> r is None,
    {
        if index < self.inner.len() {
            Some(self.inner[index].as_str())
        } else {
            None
        }
    }
}

/// The first line shown in a window of `height` rows over `len` lines:
/// where scrolling left it, else the start of the last screenful.
pub open spec fn window_top(len: int, height: int, scrolled: bool, start: int) -> int {
    if scrolled {
        start
    } else if len > height {
        len - height
    } else {
        0
    }
}

/// The single output window: its scrollback and where it is scrolled to.
pub struct WindowState {
    history: History,
    height: u16,
    scrolled: bool,
    start: usize,
}

impl WindowState {
    /// The stored lines.
    pub closed spec fn spec_lines(&self) -> Seq<Seq<char>> {
        self.history.spec_lines()
    }

    /// Rows of the window.
    pub closed spec fn spec_height(&self) -> int {
        self.height as int
    }

    /// Whether the window is scrolled back.
    pub closed spec fn spec_scrolled(&self) -> bool {
        self.scrolled
    }

    /// The first line shown while scrolled back.
    pub closed spec fn spec_start(&self) -> int {
        self.start as int
    }

    /// The history is well formed and the scroll position lies within it.
    pub closed spec fn wf(&self) -> bool {
        &&& self.history.wf()
        &&& self.start <= self.history.spec_lines().len()
    }

    /// An empty window of `height` rows, not scrolled.
    pub fn new(height: u16) -> (r: WindowState)
        ensures
            r.wf(),
            r.spec_lines() == Seq::<Seq<char>>::empty(),
            r.spec_height() == height,
            !r.spec_scrolled(),
    {
        WindowState { history: History::new(), height, scrolled: false, start: 0 }
    }

    /// Whether the window is scrolled back.
    pub fn is_scrolled(&self) -> (r: bool)
        ensures
            r == self.spec_scrolled(),
    {
        self.scrolled
    }

    /// The first line shown.
    pub fn top(&self) -> (r: usize)
        requires
            self.wf(),
        ensures
            r == window_top(
                self.spec_lines().len() as int,
                self.spec_height(),
                self.spec_scrolled(),
                self.spec_start(),
            ),
    {
        let len = self.history.len();
        if self.scrolled {
            self.start
        } else if len > self.height as usize {
            len - self.height as usize
        } else {
            0
        }
    }

    /// The rows of the window, top to bottom: the stored lines from the top
    /// one on, empty past the last.
    pub fn shown_lines(&self) -> (r: Vec<String>)
        requires
            self.wf(),
        ensures
            r@.len() == self.spec_height(),
            forall|o: int|
                0 <= o < self.spec_height() ==> (#[trigger] r@[o])@ == {
                    let i = window_top(
                        self.spec_lines().len() as int,
                        self.spec_height(),
                        self.spec_scrolled(),
                        self.spec_start(),
                    ) + o;
                    if i < self.spec_lines().len() {
                        self.spec_lines()[i]
                    } else {
                        Seq::<char>::empty()
                    }
                },
    {
        let top = self.top();
        let mut out: Vec<String> = Vec::new();
        let mut o: usize = 0;
        while o < self.height as usize
            invariant
                self.wf(),
                top == window_top(
                    self.spec_lines().len() as int,
                    self.spec_height(),
                    self.spec_scrolled(),
                    self.spec_start(),
                ),
                top <= self.spec_lines().len(),
                o <= self.height,
                out@.len() == o,
                forall|q: int|
                    0 <= q < o ==> (#[trigger] out@[q])@ == if top + q < self.spec_lines().len() {
                        self.spec_lines()[top + q]
                    } else {
                        Seq::<char>::empty()
                    },
            decreases self.height - o,
        {
            let line = if top + o < self.history.len() {
                match self.history.get(top + o) {
                    Some(s) => s.to_owned(),
                    None => String::new(),
                }
            } else {
                String::new()
            };
            out.push(line);
            o += 1;
        }
        out
    }

    /// Stores a printed line; a scrolled window keeps its place.
    pub fn print_line(&mut self, line: &str)
        requires
            old(self).wf(),
        ensures
            final(self).wf(),
            final(self).spec_lines() == kept(old(self).spec_lines() + appended_texts(line@)),
            final(self).spec_height() == old(self).spec_height(),
            final(self).spec_scrolled() == old(self).spec_scrolled(),
            final(self).spec_start() == if old(self).spec_start() <= final(self).spec_lines().len() {
                old(self).spec_start()
            } else {
                final(self).spec_lines().len() as int
            },
    {
        self.history.append(line);
        if self.start > self.history.len() {
            self.start = self.history.len();
        }
    }

    /// Stores the prompt unless it is gagged, and gives the text to draw on
    /// the prompt row when the window is not scrolled back.
    pub fn print_prompt(&mut self, prompt: &Line) -> (r: Option<String>)
        requires
            old(self).wf(),
        ensures
            final(self).wf(),
            prompt.flags.gag ==> r is None && *final(self) == *old(self),
            !prompt.flags.gag ==> {
                &&& final(self).spec_lines() == kept(
                    old(self).spec_lines() + appended_texts(prompt.text()),
                )
                &&& final(self).spec_scrolled() == old(self).spec_scrolled()
                &&& final(self).spec_height() == old(self).spec_height()
                &&& old(self).spec_scrolled() ==> r is None
                &&& !old(self).spec_scrolled() ==> (r matches Some(t) && t@ == prompt.text())
            },
    {
        match prompt.print_line() {
            Some(text) => {
                self.print_line(text);
                if self.scrolled {
                    None
                } else {
                    Some(text.to_owned())
                }
            },
            None => None,
        }
    }

    /// Scrolls back five lines, starting from the last screenful; nothing
    /// happens while everything fits.
    pub fn scroll_up(&mut self)
        requires
            old(self).wf(),
        ensures
            final(self).wf(),
            final(self).spec_lines() == old(self).spec_lines(),
            final(self).spec_height() == old(self).spec_height(),
            ({
                let len = old(self).spec_lines().len() as int;
                let h = old(self).spec_height();
                let from = if old(self).spec_scrolled() {
                    old(self).spec_start()
                } else {
                    len - h
                };
                if len > h {
                    final(self).spec_scrolled() && final(self).spec_start() == if from >= 5 {
                        from - 5
                    } else {
                        0
                    }
                } else {
                    final(self).spec_scrolled() == old(self).spec_scrolled()
                        && final(self).spec_start() == old(self).spec_start()
                }
            }),
    {
        let len = self.history.len();
        if len > self.height as usize {
            if !self.scrolled {
                self.scrolled = true;
                self.start = len - self.height as usize;
            }
            self.start = if self.start >= 5 {
                self.start - 5
            } else {
                0
            };
        }
    }

    /// Scrolls forward five lines; reaching the last screenful ends the
    /// scrolling.
    pub fn scroll_down(&mut self)
        requires
            old(self).wf(),
        ensures
            final(self).wf(),
            final(self).spec_lines() == old(self).spec_lines(),
            final(self).spec_height() == old(self).spec_height(),
            ({
                let len = old(self).spec_lines().len() as int;
                let h = old(self).spec_height();
                let next = old(self).spec_start() + 5;
                if !old(self).spec_scrolled() {
                    *final(self) == *old(self)
                } else if len >= h && next >= len - h {
                    !final(self).spec_scrolled() && final(self).spec_start() == old(self).spec_start()
                } else {
                    final(self).spec_scrolled() && final(self).spec_start() == if next <= len {
                        next
                    } else {
                        len
                    }
                }
            }),
    {
        if self.scrolled {
            let len = self.history.len();
            let h = self.height as usize;
            let next = self.start + 5;
            if len >= h && next >= len - h {
                self.scrolled = false;
            } else {
                self.start = if next <= len {
                    next
                } else {
                    len
                };
            }
        }
    }

    /// Stops scrolling back.
    pub fn reset_scroll(&mut self)
        requires
            old(self).wf(),
        ensures
            final(self).wf(),
            !final(self).spec_scrolled(),
            final(self).spec_lines() == old(self).spec_lines(),
            final(self).spec_height() == old(self).spec_height(),
            final(self).spec_start() == old(self).spec_start(),
    {
        self.scrolled = false;
    }

    /// Prints a received line unless it is gagged: a blank line as it is,
    /// any other wrapped to `width` columns, piece by piece.
    pub fn print_output(&mut self, line: &Line, width: usize)
        requires
            old(self).wf(),
            !line.flags.gag ==> line.text().len() < usize::MAX,
            !line.flags.gag && !spec_is_blank(line.text()) ==> window_sliceable(
                line.text(),
                width as int,
            ) && 4 * line.text().len() < usize::MAX,
        ensures
            final(self).wf(),
            final(self).spec_height() == old(self).spec_height(),
            final(self).spec_scrolled() == old(self).spec_scrolled(),
            line.flags.gag ==> *final(self) == *old(self),
            !line.flags.gag && spec_is_blank(line.text()) ==> final(self).spec_lines() == kept(
                old(self).spec_lines() + appended_texts(line.text()),
            ),
            !line.flags.gag && !spec_is_blank(line.text()) ==> final(self).spec_lines()
                == print_all(old(self).spec_lines(), spec_window_wrap(line.text(), width as int)),
    {
        match line.print_line() {
            Some(text) => {
                let cs = chars_of(text);
                if is_blank(cs.as_slice()) {
                    self.print_line(text);
                } else {
                    let pieces = wrap_line(text, width);
                    let ghost start = self.spec_lines();
                    let mut k: usize = 0;
                    while k < pieces.len()
                        invariant
                            self.wf(),
                            k <= pieces@.len(),
                            self.spec_height() == old(self).spec_height(),
                            self.spec_scrolled() == old(self).spec_scrolled(),
                            self.spec_lines() == print_all(start, texts(pieces@).take(k as int)),
                        decreases pieces@.len() - k,
                    {
                        self.print_line(pieces[k].as_str());
                        proof {
                            assert(texts(pieces@).take(k + 1).drop_last() =~= texts(pieces@).take(
                                k as int,
                            ));
                        }
                        k += 1;
                    }
                    assert(texts(pieces@).take(pieces@.len() as int) =~= texts(pieces@));
                }
            },
            None => {},
        }
    }
}

/// The lines kept after printing `pieces` one by one onto `lines`.
pub open spec fn print_all(lines: Seq<Seq<char>>, pieces: Seq<Seq<char>>) -> Seq<Seq<char>>
    decreases pieces.len(),
{
    if pieces.len() == 0 {
        lines
    } else {
        kept(print_all(lines, pieces.drop_last()) + appended_texts(pieces.last()))
    }
}

} // verus!
