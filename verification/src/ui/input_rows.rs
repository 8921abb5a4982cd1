//! How an input buffer divides into the visual rows of a `width`-column
//! area, and where the cursor lands among them.
//!
//! Two coordinate spaces meet here: rows are byte ranges into the buffer,
//! the cursor is a character index. Internally everything is computed on
//! character indices and turned into byte offsets at the end.
use vstd::prelude::*;
use std::ops::Range;
use crate::display::{
    byte_len, byte_offset, char_columns, fit_end, lemma_byte_offset_monotone, lemma_fit_end,
    printable_mask, printable_mask_of, utf8_len_of, width_upto,
};
use crate::text::chars_of;

verus! {

/// Columns taken by the printed characters of `s[a..b]`.
pub open spec fn span_width(s: Seq<char>, mask: Seq<bool>, a: int, b: int) -> nat {
    width_upto(s.subrange(a, b), mask.subrange(a, b), b - a)
}

/// Where the row that starts at `a` within the segment ending at `b` ends:
/// as many characters as fit in `width` columns, and at least one.
pub open spec fn hard_end(s: Seq<char>, mask: Seq<bool>, width: int, a: int, b: int) -> int {
    let e = a + fit_end(s.subrange(a, b), mask.subrange(a, b), width, 0);
    if e == a && a < b {
        a + 1
    } else {
        e
    }
}

/// The rows of the segment `s[a..b]` (which holds no line break), hard
/// wrapped at `width` columns; there is always at least one.
pub open spec fn hard_rows(s: Seq<char>, mask: Seq<bool>, width: int, a: int, b: int) -> Seq<
    (int, int),
>
    recommends
        0 <= a <= b <= s.len(),
    decreases b - a,
{
    let e = hard_end(s, mask, width, a, b);
    if a < b && a < e < b {
        seq![(a, e)] + hard_rows(s, mask, width, e, b)
    } else {
        seq![(a, e)]
    }
}

/// The rows of one segment: its hard-wrapped rows, and one more, empty, row
/// when the last of them is not empty and fills the width.
pub open spec fn segment_rows(s: Seq<char>, mask: Seq<bool>, width: int, a: int, b: int) -> Seq<
    (int, int),
> {
    let rows = hard_rows(s, mask, width, a, b);
    let last = rows.last();
    if last.0 < last.1 && span_width(s, mask, last.0, last.1) >= width {
        rows.push((last.1, last.1))
    } else {
        rows
    }
}

/// Index of the first line break at or after `a`, or the end of `s`.
pub open spec fn next_break(s: Seq<char>, a: int) -> int
    decreases s.len() - a,
{
    if a >= s.len() {
        s.len() as int
    } else if s[a] == '\n' {
        a
    } else {
        next_break(s, a + 1)
    }
}

/// The rows of `s` from `a` on: each `'\n'`-separated segment's rows, in
/// order; the line breaks themselves belong to no row.
pub open spec fn rows_from(s: Seq<char>, mask: Seq<bool>, width: int, a: int) -> Seq<(int, int)>
    decreases s.len() - a,
{
    let b = next_break(s, a);
    if a <= b < s.len() {
        segment_rows(s, mask, width, a, b) + rows_from(s, mask, width, b + 1)
    } else {
        segment_rows(s, mask, width, a, b)
    }
}

/// The rows of the input `s` in a `width`-column area (at least one
/// column), as character ranges.
pub open spec fn char_rows(s: Seq<char>, mask: Seq<bool>, width: int) -> Seq<(int, int)> {
    rows_from(
        s,
        mask,
        if width < 1 {
            1
        } else {
            width
        },
        0,
    )
}

proof fn lemma_next_break(s: Seq<char>, a: int)
    requires
        0 <= a <= s.len(),
    ensures
        a <= next_break(s, a) <= s.len(),
        next_break(s, a) < s.len() ==> s[next_break(s, a)] == '\n',
        forall|i: int| a <= i < next_break(s, a) ==> s[i] != '\n',
    decreases s.len() - a,
{
    if a < s.len() && s[a] != '\n' {
        lemma_next_break(s, a + 1);
    }
}

/// The character index where the next row ends, scanning `cs[a..b]`.
fn row_end(cs: &Vec<char>, mask: &[bool], width: usize, a: usize, b: usize) -> (r: usize)
    requires
        a <= b <= cs@.len(),
        mask@.len() == cs@.len(),
    ensures
        r == hard_end(cs@, mask@, width as int, a as int, b as int),
        a <= r <= b,
        a < b ==> a < r,
{
    let ghost sub = cs@.subrange(a as int, b as int);
    let ghost msub = mask@.subrange(a as int, b as int);
    let mut w: usize = 0;
    let mut j: usize = a;
    while j < b
        invariant
            a <= j <= b <= cs@.len(),
            mask@.len() == cs@.len(),
            sub == cs@.subrange(a as int, b as int),
            msub == mask@.subrange(a as int, b as int),
            w == width_upto(sub, msub, j - a),
            w <= width,
            fit_end(sub, msub, width as int, 0) == fit_end(sub, msub, width as int, j - a),
        ensures
            a <= j <= b,
            fit_end(sub, msub, width as int, 0) == j - a,
        decreases b - j,
    {
        assert(sub[j - a] == cs@[j as int]);
        assert(msub[j - a] == mask@[j as int]);
        let cw: usize = if mask[j] {
            char_columns(cs[j])
        } else {
            0
        };
        if mask[j] && cw > width - w {
            break;
        }
        w = w + cw;
        j += 1;
    }
    if j == a && a < b {
        a + 1
    } else {
        j
    }
}

/// Columns taken by the printed characters of `cs[a..b]`.
pub(crate) fn span_columns(cs: &Vec<char>, mask: &[bool], a: usize, b: usize) -> (r: usize)
    requires
        a <= b <= cs@.len(),
        mask@.len() == cs@.len(),
        3 * cs@.len() <= usize::MAX,
    ensures
        r == span_width(cs@, mask@, a as int, b as int),
{
    let ghost sub = cs@.subrange(a as int, b as int);
    let ghost msub = mask@.subrange(a as int, b as int);
    let mut w: usize = 0;
    let mut j: usize = a;
    while j < b
        invariant
            a <= j <= b <= cs@.len(),
            mask@.len() == cs@.len(),
            3 * cs@.len() <= usize::MAX,
            sub == cs@.subrange(a as int, b as int),
            msub == mask@.subrange(a as int, b as int),
            w == width_upto(sub, msub, j - a),
            w <= 3 * (j - a),
        decreases b - j,
    {
        assert(sub[j - a] == cs@[j as int]);
        assert(msub[j - a] == mask@[j as int]);
        if mask[j] {
            w = w + char_columns(cs[j]);
        }
        j += 1;
    }
    w
}

/// Appends the rows of the segment `cs[a..b]` to `out`.
fn push_segment_rows(
    cs: &Vec<char>,
    mask: &[bool],
    width: usize,
    a: usize,
    b: usize,
    out: &mut Vec<(usize, usize)>,
)
    requires
        a <= b <= cs@.len(),
        mask@.len() == cs@.len(),
        3 * cs@.len() <= usize::MAX,
    ensures
        pairs(final(out)@) == pairs(old(out)@) + segment_rows(
            cs@,
            mask@,
            width as int,
            a as int,
            b as int,
        ),
{
    let ghost w = width as int;
    let mut start: usize = a;
    let ghost mut done: Seq<(int, int)> = Seq::empty();
    let mut last: (usize, usize) = (a, a);
    loop
        invariant_except_break
            done + hard_rows(cs@, mask@, w, start as int, b as int) == hard_rows(
                cs@,
                mask@,
                w,
                a as int,
                b as int,
            ),
        invariant
            a <= start <= b <= cs@.len(),
            mask@.len() == cs@.len(),
            3 * cs@.len() <= usize::MAX,
            w == width as int,
            pairs(out@) == pairs(old(out)@) + done,
            start < b || start == a,
        ensures
            pairs(out@) == pairs(old(out)@) + done,
            done == hard_rows(cs@, mask@, w, a as int, b as int),
            done.len() > 0,
            done.last() == (last.0 as int, last.1 as int),
        decreases b - start,
    {
        let e = row_end(cs, mask, width, start, b);
        let ghost prev = out@;
        out.push((start, e));
        proof {
            assert(hard_rows(cs@, mask@, w, start as int, b as int)[0] == (start as int, e as int));
            assert(pairs(out@) =~= pairs(prev).push((start as int, e as int)));
            assert(pairs(out@) =~= pairs(old(out)@) + done.push((start as int, e as int)));
        }
        last = (start, e);
        if start < b && e < b {
            proof {
                assert(hard_rows(cs@, mask@, w, start as int, b as int) =~= seq![
                    (start as int, e as int),
                ] + hard_rows(cs@, mask@, w, e as int, b as int));
                assert(done + hard_rows(cs@, mask@, w, start as int, b as int) =~= done.push(
                    (start as int, e as int),
                ) + hard_rows(cs@, mask@, w, e as int, b as int));
                done = done.push((start as int, e as int));
            }
            start = e;
        } else {
            proof {
                assert(hard_rows(cs@, mask@, w, start as int, b as int) =~= seq![
                    (start as int, e as int),
                ]);
                done = done.push((start as int, e as int));
            }
            break;
        }
    }
    proof {
        lemma_hard_rows_in_bounds(cs@, mask@, w, a as int, b as int);
    }
    if last.0 < last.1 && span_columns(cs, mask, last.0, last.1) >= width {
        let ghost prev = out@;
        out.push((last.1, last.1));
        assert(pairs(out@) =~= pairs(prev).push((last.1 as int, last.1 as int)));
        assert(pairs(out@) =~= pairs(old(out)@) + segment_rows(cs@, mask@, w, a as int, b as int));
    }
}

/// The pairs of a vector of index pairs, as integers.
pub open spec fn pairs(v: Seq<(usize, usize)>) -> Seq<(int, int)> {
    v.map_values(|p: (usize, usize)| (p.0 as int, p.1 as int))
}

/// The input's rows as character ranges.
pub(crate) fn char_row_ranges(cs: &Vec<char>, mask: &[bool], width: usize) -> (r: Vec<(usize, usize)>)
    requires
        mask@.len() == cs@.len(),
        3 * cs@.len() <= usize::MAX,
        width >= 1,
    ensures
        pairs(r@) == rows_from(cs@, mask@, width as int, 0),
{
    let ghost w = width as int;
    let mut out: Vec<(usize, usize)> = Vec::new();
    let mut a: usize = 0;
    let ghost mut done: Seq<(int, int)> = Seq::empty();
    loop
        invariant_except_break
            done + rows_from(cs@, mask@, w, a as int) == rows_from(cs@, mask@, w, 0),
        invariant
            a <= cs@.len(),
            mask@.len() == cs@.len(),
            3 * cs@.len() <= usize::MAX,
            w == width as int,
            pairs(out@) == done,
        ensures
            pairs(out@) == rows_from(cs@, mask@, w, 0),
        decreases cs@.len() - a,
    {
        let mut b: usize = a;
        while b < cs.len() && cs[b] != '\n'
            invariant
                a <= b <= cs@.len(),
                next_break(cs@, a as int) == next_break(cs@, b as int),
            decreases cs@.len() - b,
        {
            b += 1;
        }
        let ghost before = pairs(out@);
        push_segment_rows(cs, mask, width, a, b, &mut out);
        if b < cs.len() {
            proof {
                assert(rows_from(cs@, mask@, w, a as int) == segment_rows(
                    cs@,
                    mask@,
                    w,
                    a as int,
                    b as int,
                ) + rows_from(cs@, mask@, w, b + 1));
                assert(done + rows_from(cs@, mask@, w, a as int) =~= (done + segment_rows(
                    cs@,
                    mask@,
                    w,
                    a as int,
                    b as int,
                )) + rows_from(cs@, mask@, w, b + 1));
                done = done + segment_rows(cs@, mask@, w, a as int, b as int);
            }
            a = b + 1;
        } else {
            proof {
                assert(rows_from(cs@, mask@, w, a as int) == segment_rows(
                    cs@,
                    mask@,
                    w,
                    a as int,
                    b as int,
                ));
                done = done + segment_rows(cs@, mask@, w, a as int, b as int);
            }
            break;
        }
    }
    out
}

/// Byte offset of every character boundary of `cs`.
pub(crate) fn byte_offsets(cs: &Vec<char>) -> (r: Vec<usize>)
    requires
        byte_len(cs@) <= usize::MAX,
    ensures
        r@.len() == cs@.len() + 1,
        forall|i: int| 0 <= i <= cs@.len() ==> r@[i] == byte_offset(cs@, i),
{
    let mut out: Vec<usize> = Vec::new();
    out.push(0);
    let mut i: usize = 0;
    while i < cs.len()
        invariant
            i <= cs@.len(),
            byte_len(cs@) <= usize::MAX,
            out@.len() == i + 1,
            forall|k: int| 0 <= k <= i ==> out@[k] == byte_offset(cs@, k),
        decreases cs@.len() - i,
    {
        proof {
            lemma_byte_offset_monotone(cs@, i + 1, cs@.len() as int);
        }
        let next = out[i] + utf8_len_of(cs[i]);
        out.push(next);
        i += 1;
    }
    out
}

/// Partitions `input` into the visual rows it occupies in a `width`-column
/// area (at least one column), as byte ranges. `mask` marks, for each
/// character, whether the terminal prints it when its line is parsed on its
/// own. Each `'\n'`-separated line is cut into rows of as many characters
/// as fit (at least one per row); a line whose last row is not empty and
/// fills the width gets one more, empty, row for the cursor. The line
/// breaks belong to no row.
pub(crate) fn rows_masked(input: &str, width: u16, mask: &[bool]) -> (r: Vec<Range<usize>>)
    requires
        mask@.len() == input@.len(),
        3 * input@.len() <= usize::MAX,
        byte_len(input@) <= usize::MAX,
    ensures
        r@.len() == char_rows(input@, mask@, width as int).len(),
        forall|i: int|
            0 <= i < r@.len() ==> {
                &&& (#[trigger] r@[i]).start == byte_offset(
                    input@,
                    char_rows(input@, mask@, width as int)[i].0,
                )
                &&& r@[i].end == byte_offset(input@, char_rows(input@, mask@, width as int)[i].1)
            },
{
    let w: usize = if width < 1 {
        1
    } else {
        width as usize
    };
    let cs = chars_of(input);
    let ranges = char_row_ranges(&cs, mask, w);
    let offsets = byte_offsets(&cs);
    proof {
        lemma_rows_in_bounds(cs@, mask@, w as int, 0);
        assert forall|k: int| 0 <= k < ranges@.len() implies 0 <= (#[trigger] ranges@[k]).0
            <= ranges@[k].1 <= cs@.len() by {
            assert(pairs(ranges@)[k] == (ranges@[k].0 as int, ranges@[k].1 as int));
        }
    }
    let mut out: Vec<Range<usize>> = Vec::new();
    let mut i: usize = 0;
    while i < ranges.len()
        invariant
            cs@ == input@,
            pairs(ranges@) == char_rows(input@, mask@, width as int),
            offsets@.len() == cs@.len() + 1,
            forall|k: int| 0 <= k <= cs@.len() ==> offsets@[k] == byte_offset(cs@, k),
            forall|k: int|
                0 <= k < ranges@.len() ==> 0 <= (#[trigger] ranges@[k]).0 <= ranges@[k].1
                    <= cs@.len(),
            i <= ranges@.len(),
            out@.len() == i,
            forall|k: int|
                0 <= k < i ==> {
                    &&& (#[trigger] out@[k]).start == byte_offset(input@, ranges@[k].0 as int)
                    &&& out@[k].end == byte_offset(input@, ranges@[k].1 as int)
                },
        decreases ranges@.len() - i,
    {
        let (a, b) = ranges[i];
        out.push(offsets[a]..offsets[b]);
        i += 1;
    }
    proof {
        assert forall|k: int| 0 <= k < out@.len() implies pairs(ranges@)[k] == (
            ranges@[k].0 as int,
            ranges@[k].1 as int,
        ) by {}
    }
    out
}

/// Every row lies inside the text.
pub proof fn lemma_rows_in_bounds(s: Seq<char>, mask: Seq<bool>, width: int, a: int)
    requires
        0 <= a <= s.len(),
    ensures
        forall|k: int|
            0 <= k < rows_from(s, mask, width, a).len() ==> a <= (#[trigger] rows_from(
                s,
                mask,
                width,
                a,
            )[k]).0 <= rows_from(s, mask, width, a)[k].1 <= s.len(),
    decreases s.len() - a,
{
    lemma_next_break(s, a);
    let b = next_break(s, a);
    lemma_segment_rows_in_bounds(s, mask, width, a, b);
    let seg = segment_rows(s, mask, width, a, b);
    if b < s.len() {
        lemma_rows_in_bounds(s, mask, width, b + 1);
        let rest = rows_from(s, mask, width, b + 1);
        assert forall|k: int| 0 <= k < rows_from(s, mask, width, a).len() implies a <= (
        #[trigger] rows_from(s, mask, width, a)[k]).0 <= rows_from(s, mask, width, a)[k].1
            <= s.len() by {
            if k < seg.len() {
                assert(rows_from(s, mask, width, a)[k] == seg[k]);
            } else {
                assert(rows_from(s, mask, width, a)[k] == rest[k - seg.len()]);
            }
        }
    }
}

proof fn lemma_segment_rows_in_bounds(s: Seq<char>, mask: Seq<bool>, width: int, a: int, b: int)
    requires
        0 <= a <= b <= s.len(),
    ensures
        forall|k: int|
            0 <= k < segment_rows(s, mask, width, a, b).len() ==> a <= (
            #[trigger] segment_rows(s, mask, width, a, b)[k]).0 <= segment_rows(
                s,
                mask,
                width,
                a,
                b,
            )[k].1 <= b,
{
    lemma_hard_rows_in_bounds(s, mask, width, a, b);
}

proof fn lemma_hard_end(s: Seq<char>, mask: Seq<bool>, width: int, a: int, b: int)
    requires
        0 <= a <= b <= s.len(),
    ensures
        a <= hard_end(s, mask, width, a, b) <= b,
        a < b ==> a < hard_end(s, mask, width, a, b),
{
    let sub = s.subrange(a, b);
    let msub = mask.subrange(a, b);
    if width >= 0 {
        lemma_fit_end(sub, msub, width, 0);
    } else {
        lemma_fit_end_any(sub, msub, width, 0);
    }
}

proof fn lemma_fit_end_any(s: Seq<char>, mask: Seq<bool>, target: int, i: int)
    requires
        0 <= i <= s.len(),
    ensures
        i <= crate::display::fit_end(s, mask, target, i) <= s.len(),
    decreases s.len() - i,
{
    if i < s.len() && !(mask[i] && width_upto(s, mask, i) + crate::display::columns(s[i])
        > target) {
        lemma_fit_end_any(s, mask, target, i + 1);
    }
}

proof fn lemma_hard_rows_in_bounds(s: Seq<char>, mask: Seq<bool>, width: int, a: int, b: int)
    requires
        0 <= a <= b <= s.len(),
    ensures
        hard_rows(s, mask, width, a, b).len() >= 1,
        forall|k: int|
            0 <= k < hard_rows(s, mask, width, a, b).len() ==> a <= (#[trigger] hard_rows(
                s,
                mask,
                width,
                a,
                b,
            )[k]).0 <= hard_rows(s, mask, width, a, b)[k].1 <= b,
    decreases b - a,
{
    lemma_hard_end(s, mask, width, a, b);
    let e = hard_end(s, mask, width, a, b);
    if a < b && a < e < b {
        lemma_hard_rows_in_bounds(s, mask, width, e, b);
    }
}

/// Index of the last row, among those in order from `i` on, that starts at
/// or before `p`, stopping at the first that starts after it; `idx` when
/// none does.
pub open spec fn cursor_index(rows: Seq<(int, int)>, p: int, i: int, idx: int) -> int
    decreases rows.len() - i,
{
    if i >= rows.len() || i < 0 {
        idx
    } else if rows[i].0 <= p {
        cursor_index(rows, p, i + 1, i)
    } else {
        idx
    }
}

/// Row and column of the character index `pos` (clamped to the end of `s`):
/// the last row starting at or before it, and the columns of that row's
/// text up to it.
pub open spec fn spec_cursor(s: Seq<char>, mask: Seq<bool>, pos: int, width: int) -> (int, int) {
    let rows = char_rows(s, mask, width);
    let q = if pos < s.len() {
        pos
    } else {
        s.len() as int
    };
    let idx = cursor_index(rows, q, 0, 0);
    let row = rows[idx];
    let end = if q < row.0 {
        row.0
    } else if q > row.1 {
        row.1
    } else {
        q
    };
    (idx, span_width(s, mask, row.0, end) as int)
}

proof fn lemma_cursor_index(rows: Seq<(int, int)>, p: int, i: int, idx: int)
    requires
        0 <= idx < rows.len(),
        0 <= i <= rows.len(),
    ensures
        0 <= cursor_index(rows, p, i, idx) < rows.len(),
    decreases rows.len() - i,
{
    if i < rows.len() && rows[i].0 <= p {
        lemma_cursor_index(rows, p, i + 1, i);
    }
}

pub proof fn lemma_rows_nonempty(s: Seq<char>, mask: Seq<bool>, width: int, a: int)
    requires
        0 <= a <= s.len(),
    ensures
        rows_from(s, mask, width, a).len() >= 1,
    decreases s.len() - a,
{
    lemma_next_break(s, a);
    let b = next_break(s, a);
    lemma_hard_rows_in_bounds(s, mask, width, a, b);
    if b < s.len() {
        lemma_rows_nonempty(s, mask, width, b + 1);
    }
}

/// Locates the character index `pos` (clamped to the end of `input`) as a
/// row and column: the row is the last one starting at or before the
/// cursor, the column the display width of that row's text up to it.
pub(crate) fn cursor_row_col_masked(input: &str, pos: usize, width: u16, mask: &[bool]) -> (r: (
    u16,
    u16,
))
    requires
        mask@.len() == input@.len(),
        3 * input@.len() <= usize::MAX,
    ensures
        r.0 == spec_cursor(input@, mask@, pos as int, width as int).0 as u16,
        r.1 == spec_cursor(input@, mask@, pos as int, width as int).1 as u16,
{
    let w: usize = if width < 1 {
        1
    } else {
        width as usize
    };
    let cs = chars_of(input);
    let ranges = char_row_ranges(&cs, mask, w);
    let ghost rows = char_rows(input@, mask@, width as int);
    proof {
        lemma_rows_in_bounds(cs@, mask@, w as int, 0);
        lemma_rows_nonempty(cs@, mask@, w as int, 0);
        lemma_cursor_index(rows, if pos < cs@.len() { pos as int } else { cs@.len() as int }, 0, 0);
    }
    let q: usize = if pos < cs.len() {
        pos
    } else {
        cs.len()
    };
    let mut idx: usize = 0;
    let mut i: usize = 0;
    while i < ranges.len()
        invariant
            pairs(ranges@) == rows,
            rows.len() >= 1,
            i <= ranges@.len(),
            idx < ranges@.len(),
            cursor_index(rows, q as int, 0, 0) == cursor_index(rows, q as int, i as int, idx as int),
        ensures
            cursor_index(rows, q as int, 0, 0) == idx as int,
        decreases ranges@.len() - i,
    {
        assert(rows[i as int] == (ranges@[i as int].0 as int, ranges@[i as int].1 as int));
        if ranges[i].0 <= q {
            idx = i;
        } else {
            break;
        }
        i += 1;
    }
    let (a, b) = ranges[idx];
    assert(rows[idx as int] == (a as int, b as int));
    let end: usize = if q < a {
        a
    } else if q > b {
        b
    } else {
        q
    };
    let col = span_columns(&cs, mask, a, end);
    (idx as u16, col as u16)
}

/// `rows` cover `s[a..]` in order: the first starts at `a`, the last ends at
/// the end of `s`, each row is followed by the next either directly or
/// across one line break, and no row holds a line break.
pub open spec fn covers_from(s: Seq<char>, rows: Seq<(int, int)>, a: int) -> bool {
    &&& rows.len() >= 1
    &&& rows[0].0 == a
    &&& rows.last().1 == s.len()
    &&& forall|k: int| 0 <= k < rows.len() ==> (#[trigger] rows[k]).0 <= rows[k].1
    &&& forall|k: int|
        0 <= k < rows.len() - 1 ==> {
            ||| (#[trigger] rows[k + 1]).0 == rows[k].1
            ||| (rows[k + 1].0 == rows[k].1 + 1 && s[rows[k].1] == '\n')
        }
    &&& forall|k: int, i: int|
        0 <= k < rows.len() && (#[trigger] rows[k]).0 <= i < rows[k].1 ==> #[trigger] s[i] != '\n'
}

/// Rows that follow one another directly from `a` to `b`.
pub open spec fn adjacent_span(rows: Seq<(int, int)>, a: int, b: int) -> bool {
    &&& rows.len() >= 1
    &&& rows[0].0 == a
    &&& rows.last().1 == b
    &&& forall|k: int| 0 <= k < rows.len() ==> a <= (#[trigger] rows[k]).0 <= rows[k].1 <= b
    &&& forall|k: int| 0 <= k < rows.len() - 1 ==> (#[trigger] rows[k + 1]).0 == rows[k].1
}

proof fn lemma_hard_rows_adjacent(s: Seq<char>, mask: Seq<bool>, width: int, a: int, b: int)
    requires
        0 <= a <= b <= s.len(),
    ensures
        adjacent_span(hard_rows(s, mask, width, a, b), a, b),
    decreases b - a,
{
    lemma_hard_end(s, mask, width, a, b);
    let e = hard_end(s, mask, width, a, b);
    let rows = hard_rows(s, mask, width, a, b);
    if a < b && a < e < b {
        lemma_hard_rows_adjacent(s, mask, width, e, b);
        let rest = hard_rows(s, mask, width, e, b);
        assert(rows == seq![(a, e)] + rest);
        assert forall|k: int| 0 <= k < rows.len() - 1 implies (#[trigger] rows[k + 1]).0
            == rows[k].1 by {
            if k > 0 {
                let j = k - 1;
                assert(rows[k] == rest[j]);
                assert(rows[k + 1] == rest[j + 1]);
            } else {
                assert(rows[0] == (a, e));
                assert(rows[1] == rest[0]);
            }
        }
        assert forall|k: int| 0 <= k < rows.len() implies a <= (#[trigger] rows[k]).0
            <= rows[k].1 <= b by {
            if k > 0 {
                assert(rows[k] == rest[k - 1]);
            }
        }
    }
}

proof fn lemma_segment_rows_adjacent(s: Seq<char>, mask: Seq<bool>, width: int, a: int, b: int)
    requires
        0 <= a <= b <= s.len(),
    ensures
        adjacent_span(segment_rows(s, mask, width, a, b), a, b),
{
    lemma_hard_rows_adjacent(s, mask, width, a, b);
}

/// The rows of a text cover it: in order, separated only by line breaks,
/// none of which lies inside a row.
pub proof fn lemma_rows_cover(s: Seq<char>, mask: Seq<bool>, width: int, a: int)
    requires
        0 <= a <= s.len(),
    ensures
        covers_from(s, rows_from(s, mask, width, a), a),
    decreases s.len() - a,
{
    lemma_next_break(s, a);
    let b = next_break(s, a);
    lemma_segment_rows_adjacent(s, mask, width, a, b);
    let seg = segment_rows(s, mask, width, a, b);
    let rows = rows_from(s, mask, width, a);
    if b < s.len() {
        lemma_rows_cover(s, mask, width, b + 1);
        let rest = rows_from(s, mask, width, b + 1);
        assert(rows == seg + rest);
        assert forall|k: int| 0 <= k < rows.len() implies (#[trigger] rows[k]).0 <= rows[k].1 by {
            if k < seg.len() {
                assert(rows[k] == seg[k]);
            } else {
                assert(rows[k] == rest[k - seg.len()]);
            }
        }
        assert forall|k: int| 0 <= k < rows.len() - 1 implies {
            ||| (#[trigger] rows[k + 1]).0 == rows[k].1
            ||| (rows[k + 1].0 == rows[k].1 + 1 && s[rows[k].1] == '\n')
        } by {
            if k < seg.len() - 1 {
                assert(rows[k] == seg[k]);
                assert(rows[k + 1] == seg[k + 1]);
            } else if k == seg.len() - 1 {
                assert(rows[k] == seg[k]);
                assert(rows[k + 1] == rest[0]);
            } else {
                let j = k - seg.len();
                assert(rows[k] == rest[j]);
                assert(rows[k + 1] == rest[j + 1]);
            }
        }
        assert forall|k: int, i: int|
            0 <= k < rows.len() && (#[trigger] rows[k]).0 <= i < rows[k].1 implies #[trigger] s[i]
            != '\n' by {
            if k < seg.len() {
                assert(rows[k] == seg[k]);
            } else {
                assert(rows[k] == rest[k - seg.len()]);
            }
        }
    } else {
        assert(rows == seg);
    }
}

/// The rows of an input partition it: they come in order from its start to
/// its end, only line breaks lie between them, and no row holds one.
pub proof fn lemma_rows_partition(s: Seq<char>, mask: Seq<bool>, width: int)
    ensures
        covers_from(s, char_rows(s, mask, width), 0),
{
    lemma_rows_cover(s, mask, if width < 1 { 1 } else { width }, 0);
}

/// A prefix's width depends only on the characters in it.
proof fn lemma_width_upto_prefix(s: Seq<char>, mask: Seq<bool>, t: Seq<char>, tmask: Seq<bool>, n: int)
    requires
        0 <= n <= s.len(),
        n <= t.len(),
        n <= mask.len(),
        n <= tmask.len(),
        forall|i: int| 0 <= i < n ==> s[i] == t[i] && mask[i] == tmask[i],
    ensures
        width_upto(s, mask, n) == width_upto(t, tmask, n),
    decreases n,
{
    if n > 0 {
        lemma_width_upto_prefix(s, mask, t, tmask, n - 1);
    }
}

/// The cursor always lands on a row that exists, at a column that row
/// reaches.
pub proof fn lemma_cursor_in_row(s: Seq<char>, mask: Seq<bool>, pos: int, width: int)
    requires
        mask.len() == s.len(),
    ensures
        ({
            let rows = char_rows(s, mask, width);
            let (row, col) = spec_cursor(s, mask, pos, width);
            &&& 0 <= row < rows.len()
            &&& 0 <= col <= span_width(s, mask, rows[row].0, rows[row].1)
        }),
{
    let w = if width < 1 { 1 } else { width };
    let rows = char_rows(s, mask, width);
    lemma_rows_in_bounds(s, mask, w, 0);
    lemma_rows_nonempty(s, mask, w, 0);
    let q = if pos < s.len() { pos } else { s.len() as int };
    lemma_cursor_index(rows, q, 0, 0);
    let idx = cursor_index(rows, q, 0, 0);
    let (a, b) = rows[idx];
    let end = if q < a { a } else if q > b { b } else { q };
    let full = s.subrange(a, b);
    let fm = mask.subrange(a, b);
    lemma_width_upto_prefix(s.subrange(a, end), mask.subrange(a, end), full, fm, end - a);
    crate::display::lemma_width_upto_monotone(full, fm, end - a, b - a);
}

/// A row never takes more columns than the area has, except a single
/// character wider than the area, which takes at most three.
pub proof fn lemma_row_width(s: Seq<char>, mask: Seq<bool>, width: int, k: int)
    requires
        mask.len() == s.len(),
        width >= 1,
        0 <= k < rows_from(s, mask, width, 0).len(),
    ensures
        ({
            let r = rows_from(s, mask, width, 0)[k];
            span_width(s, mask, r.0, r.1) <= if width >= 3 { width } else { 3 }
        }),
{
    lemma_rows_from_width(s, mask, width, 0);
}

proof fn lemma_rows_from_width(s: Seq<char>, mask: Seq<bool>, width: int, a: int)
    requires
        mask.len() == s.len(),
        width >= 1,
        0 <= a <= s.len(),
    ensures
        forall|k: int|
            0 <= k < rows_from(s, mask, width, a).len() ==> span_width(
                s,
                mask,
                (#[trigger] rows_from(s, mask, width, a)[k]).0,
                rows_from(s, mask, width, a)[k].1,
            ) <= if width >= 3 {
                width
            } else {
                3
            },
    decreases s.len() - a,
{
    lemma_next_break(s, a);
    let b = next_break(s, a);
    lemma_segment_rows_width(s, mask, width, a, b);
    let seg = segment_rows(s, mask, width, a, b);
    let rows = rows_from(s, mask, width, a);
    if b < s.len() {
        lemma_rows_from_width(s, mask, width, b + 1);
        let rest = rows_from(s, mask, width, b + 1);
        assert forall|k: int| 0 <= k < rows.len() implies span_width(
            s,
            mask,
            (#[trigger] rows[k]).0,
            rows[k].1,
        ) <= if width >= 3 {
            width
        } else {
            3
        } by {
            if k < seg.len() {
                assert(rows[k] == seg[k]);
            } else {
                assert(rows[k] == rest[k - seg.len()]);
            }
        }
    } else {
        assert(rows == seg);
    }
}

proof fn lemma_segment_rows_width(s: Seq<char>, mask: Seq<bool>, width: int, a: int, b: int)
    requires
        mask.len() == s.len(),
        width >= 1,
        0 <= a <= b <= s.len(),
    ensures
        forall|k: int|
            0 <= k < segment_rows(s, mask, width, a, b).len() ==> span_width(
                s,
                mask,
                (#[trigger] segment_rows(s, mask, width, a, b)[k]).0,
                segment_rows(s, mask, width, a, b)[k].1,
            ) <= if width >= 3 {
                width
            } else {
                3
            },
{
    lemma_hard_rows_width(s, mask, width, a, b);
    let rows = hard_rows(s, mask, width, a, b);
    let seg = segment_rows(s, mask, width, a, b);
    lemma_hard_rows_in_bounds(s, mask, width, a, b);
    assert forall|k: int| 0 <= k < seg.len() implies span_width(
        s,
        mask,
        (#[trigger] seg[k]).0,
        seg[k].1,
    ) <= if width >= 3 {
        width
    } else {
        3
    } by {
        if k < rows.len() {
            assert(seg[k] == rows[k]);
        } else {
            let e = rows.last().1;
            assert(seg[k] == (e, e));
            assert(span_width(s, mask, e, e) == 0);
        }
    }
}

proof fn lemma_hard_rows_width(s: Seq<char>, mask: Seq<bool>, width: int, a: int, b: int)
    requires
        mask.len() == s.len(),
        width >= 1,
        0 <= a <= b <= s.len(),
    ensures
        forall|k: int|
            0 <= k < hard_rows(s, mask, width, a, b).len() ==> span_width(
                s,
                mask,
                (#[trigger] hard_rows(s, mask, width, a, b)[k]).0,
                hard_rows(s, mask, width, a, b)[k].1,
            ) <= if width >= 3 {
                width
            } else {
                3
            },
    decreases b - a,
{
    lemma_hard_end(s, mask, width, a, b);
    let e = hard_end(s, mask, width, a, b);
    let rows = hard_rows(s, mask, width, a, b);
    let sub = s.subrange(a, b);
    let msub = mask.subrange(a, b);
    let f = fit_end(sub, msub, width, 0);
    lemma_fit_end(sub, msub, width, 0);
    if f == 0 && a < b {
        crate::display::lemma_width_upto_bound(s.subrange(a, a + 1), mask.subrange(a, a + 1), 1);
    } else {
        lemma_width_upto_prefix(s.subrange(a, e), mask.subrange(a, e), sub, msub, e - a);
    }
    assert(span_width(s, mask, a, e) <= if width >= 3 {
        width
    } else {
        3
    });
    if a < b && a < e < b {
        lemma_hard_rows_width(s, mask, width, e, b);
        let rest = hard_rows(s, mask, width, e, b);
        assert forall|k: int| 0 <= k < rows.len() implies span_width(
            s,
            mask,
            (#[trigger] rows[k]).0,
            rows[k].1,
        ) <= if width >= 3 {
            width
        } else {
            3
        } by {
            if k > 0 {
                assert(rows[k] == rest[k - 1]);
            }
        }
    }
}

/// The rows `input` wraps into on a `width`-column input area (see
/// `char_rows`), as byte ranges, measured over what the terminal prints of
/// it. The rows partition the input: in order from its start to its end,
/// with only line breaks between them and none inside one.
pub fn rows(input: &str, width: u16) -> (r: Vec<Range<usize>>)
    requires
        3 * input@.len() <= usize::MAX,
        byte_len(input@) <= usize::MAX,
    ensures
        ({
            let rs = char_rows(input@, printable_mask_of(input@), width as int);
            &&& r@.len() == rs.len()
            &&& forall|i: int|
                0 <= i < r@.len() ==> {
                    &&& (#[trigger] r@[i]).start == byte_offset(input@, rs[i].0)
                    &&& r@[i].end == byte_offset(input@, rs[i].1)
                }
            &&& covers_from(input@, rs, 0)
        }),
{
    let mask = printable_mask(input);
    proof {
        lemma_rows_partition(input@, printable_mask_of(input@), width as int);
    }
    rows_masked(input, width, mask.as_slice())
}

/// The row and column of the cursor at character `pos` of `input` on a
/// `width`-column input area (see `spec_cursor`), measured over what the
/// terminal prints of it. The cursor always lands on a row that exists, at
/// a column that row reaches.
pub fn cursor_row_col(input: &str, pos: usize, width: u16) -> (r: (u16, u16))
    requires
        3 * input@.len() <= usize::MAX,
    ensures
        r.0 == spec_cursor(input@, printable_mask_of(input@), pos as int, width as int).0 as u16,
        r.1 == spec_cursor(input@, printable_mask_of(input@), pos as int, width as int).1 as u16,
        ({
            let m = printable_mask_of(input@);
            let rs = char_rows(input@, m, width as int);
            let (row, col) = spec_cursor(input@, m, pos as int, width as int);
            &&& 0 <= row < rs.len()
            &&& 0 <= col <= span_width(input@, m, rs[row].0, rs[row].1)
        }),
{
    let mask = printable_mask(input);
    proof {
        lemma_cursor_in_row(input@, printable_mask_of(input@), pos as int, width as int);
    }
    cursor_row_col_masked(input, pos, width, mask.as_slice())
}

} // verus!
