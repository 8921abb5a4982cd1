//! Display arithmetic over text that may hold terminal escape sequences.
//!
//! Which characters of a text reach the screen is decided by a terminal
//! parser; the functions here take that decision as a *printable mask*, one
//! `bool` per character, and count columns and bytes from it.
use vstd::prelude::*;
use vstd::utf8::{encode_utf8, encode_scalar};
use crate::text::chars_of;

verus! {

/// The column width the `unicode-width` tables give `c`; `None` for a
/// control character.
pub uninterp spec fn char_width_table(c: char) -> Option<usize>;

/// Trusted: `unicode_width::UnicodeWidthChar::width` returns the table width
/// of `c`. Its source answers `Some(1)` for the printable ASCII range
/// `' '..='~'`, `None` for the C0 and C1 control ranges, and never more than
/// three columns.
#[verifier::external_body]
fn unicode_char_width(c: char) -> (r: Option<usize>)
    ensures
        r == char_width_table(c),
        r matches Some(w) ==> w <= 3,
        (' ' <= c && c <= '~') ==> r == Some(1usize),
        (c < ' ' || ('\u{7f}' <= c && c < '\u{a0}')) ==> r is None,
{
    unicode_width::UnicodeWidthChar::width(c)
}

/// Columns `c` takes on screen; a control character takes none. (The
/// table never gives more than three; the bound is written out so that it
/// holds of every character, not only of those looked up.)
pub open spec fn columns(c: char) -> nat {
    match char_width_table(c) {
        Some(w) => if w <= 3 {
            w as nat
        } else {
            3
        },
        None => 0,
    }
}

/// A prefix never takes more than three columns per character.
pub proof fn lemma_width_upto_bound(s: Seq<char>, mask: Seq<bool>, n: int)
    requires
        0 <= n,
    ensures
        width_upto(s, mask, n) <= 3 * n,
    decreases n,
{
    if n > 0 {
        lemma_width_upto_bound(s, mask, n - 1);
    }
}

/// Columns taken by `c` (`width().unwrap_or(0)`).
pub fn char_columns(c: char) -> (r: usize)
    ensures
        r == columns(c),
        r <= 3,
{
    let w = unicode_char_width(c);
    if let Some(n) = w {
        n
    } else {
        0
    }
}

/// Columns taken by the printed characters among the first `n` of `s`.
pub open spec fn width_upto(s: Seq<char>, mask: Seq<bool>, n: int) -> nat
    decreases n,
{
    if n <= 0 {
        0
    } else {
        width_upto(s, mask, n - 1) + if mask[n - 1] {
            columns(s[n - 1])
        } else {
            0
        }
    }
}

/// Columns taken by the printed characters of `s`.
pub open spec fn display_width_of(s: Seq<char>, mask: Seq<bool>) -> nat {
    width_upto(s, mask, s.len() as int)
}

/// A longer prefix takes at least as many columns.
pub proof fn lemma_width_upto_monotone(s: Seq<char>, mask: Seq<bool>, m: int, n: int)
    requires
        0 <= m <= n,
    ensures
        width_upto(s, mask, m) <= width_upto(s, mask, n),
    decreases n - m,
{
    if m < n {
        lemma_width_upto_monotone(s, mask, m, n - 1);
    }
}

/// Number of bytes in the UTF-8 encoding of `c`.
pub open spec fn utf8_len(c: char) -> nat {
    let u = c as u32;
    if u < 0x80 {
        1
    } else if u < 0x800 {
        2
    } else if u < 0x10000 {
        3
    } else {
        4
    }
}

/// Number of bytes in the UTF-8 encoding of `c` (`char::len_utf8`).
pub fn utf8_len_of(c: char) -> (r: usize)
    ensures
        r == utf8_len(c),
        1 <= r <= 4,
{
    let u = c as u32;
    if u < 0x80 {
        1
    } else if u < 0x800 {
        2
    } else if u < 0x10000 {
        3
    } else {
        4
    }
}

/// Byte offset of the `n`-th character of `s` in its UTF-8 encoding.
pub open spec fn byte_offset(s: Seq<char>, n: int) -> nat
    decreases n,
{
    if n <= 0 {
        0
    } else {
        byte_offset(s, n - 1) + utf8_len(s[n - 1])
    }
}

/// One character encodes to `utf8_len` bytes.
proof fn lemma_encode_scalar_len(c: char)
    ensures
        encode_scalar(c as u32).len() == utf8_len(c),
{
    vstd::utf8::char_is_scalar(c);
}

/// Encoding distributes over concatenation, as far as lengths go.
proof fn lemma_encode_len_append(a: Seq<char>, c: char)
    ensures
        encode_utf8(a.push(c)).len() == encode_utf8(a).len() + utf8_len(c),
    decreases a.len(),
{
    lemma_encode_scalar_len(c);
    if a.len() == 0 {
        assert(a.push(c).drop_first() =~= Seq::<char>::empty());
        assert(encode_utf8(Seq::<char>::empty()).len() == 0);
        assert(encode_utf8(a).len() == 0);
        assert(encode_utf8(a.push(c)) == encode_scalar(c as u32) + encode_utf8(
            a.push(c).drop_first(),
        ));
    } else {
        assert(a.push(c).drop_first() =~= a.drop_first().push(c));
        lemma_encode_len_append(a.drop_first(), c);
        lemma_encode_scalar_len(a[0]);
        assert(encode_utf8(a.push(c)) == encode_scalar(a[0] as u32) + encode_utf8(
            a.push(c).drop_first(),
        ));
        assert(encode_utf8(a) == encode_scalar(a[0] as u32) + encode_utf8(a.drop_first()));
    }
}

/// The byte offset of the `n`-th character is the length of the encoding of
/// the characters before it.
pub proof fn lemma_byte_offset_encoding(s: Seq<char>, n: int)
    requires
        0 <= n <= s.len(),
    ensures
        byte_offset(s, n) == encode_utf8(s.take(n)).len(),
    decreases n,
{
    if n == 0 {
        assert(s.take(0) =~= Seq::<char>::empty());
    } else {
        lemma_byte_offset_encoding(s, n - 1);
        assert(s.take(n) =~= s.take(n - 1).push(s[n - 1]));
        lemma_encode_len_append(s.take(n - 1), s[n - 1]);
    }
}

/// Byte offsets grow with the character index, by at least one per character.
pub proof fn lemma_byte_offset_monotone(s: Seq<char>, m: int, n: int)
    requires
        0 <= m <= n,
    ensures
        byte_offset(s, m) + (n - m) <= byte_offset(s, n),
    decreases n - m,
{
    if m < n {
        lemma_byte_offset_monotone(s, m, n - 1);
    }
}

/// Byte length of the text `s`, as `str::len` reports it.
pub open spec fn byte_len(s: Seq<char>) -> nat {
    byte_offset(s, s.len() as int)
}

/// Columns `text` takes on screen: the sum of the widths of its printed
/// characters.
pub(crate) fn display_width_masked(text: &str, mask: &[bool]) -> (r: usize)
    requires
        mask@.len() == text@.len(),
        3 * text@.len() <= usize::MAX,
    ensures
        r == display_width_of(text@, mask@),
{
    let cs = chars_of(text);
    let mut total: usize = 0;
    let mut i: usize = 0;
    while i < cs.len()
        invariant
            cs@ == text@,
            mask@.len() == text@.len(),
            3 * text@.len() <= usize::MAX,
            i <= cs@.len(),
            total == width_upto(text@, mask@, i as int),
            total <= 3 * i,
        decreases cs@.len() - i,
    {
        if mask[i] {
            total = total + char_columns(cs[i]);
        }
        i += 1;
    }
    total
}

/// Where the display width of `s` first exceeds `target`: the index of the
/// first printed character that does not fit, or `s.len()` when all fit.
pub open spec fn fit_end(s: Seq<char>, mask: Seq<bool>, target: int, i: int) -> int
    decreases s.len() - i,
{
    if i >= s.len() {
        s.len() as int
    } else if mask[i] && width_upto(s, mask, i) + columns(s[i]) > target {
        i
    } else {
        fit_end(s, mask, target, i + 1)
    }
}

/// `fit_end` lies between its start and the end of the text, and every
/// character before it fits.
pub proof fn lemma_fit_end(s: Seq<char>, mask: Seq<bool>, target: int, i: int)
    requires
        0 <= i <= s.len(),
        width_upto(s, mask, i) <= target,
    ensures
        i <= fit_end(s, mask, target, i) <= s.len(),
        width_upto(s, mask, fit_end(s, mask, target, i)) <= target,
    decreases s.len() - i,
{
    if i < s.len() && !(mask[i] && width_upto(s, mask, i) + columns(s[i]) > target) {
        lemma_fit_end(s, mask, target, i + 1);
    }
}

/// The byte index at which the display width of `text` would pass `target`,
/// with the width reached there. When everything fits, the byte length of
/// `text` and its whole width.
pub(crate) fn byte_index_at_display_width_masked(text: &str, mask: &[bool], target: usize) -> (r: (
    usize,
    usize,
))
    requires
        mask@.len() == text@.len(),
        byte_len(text@) <= usize::MAX,
    ensures
        ({
            let end = fit_end(text@, mask@, target as int, 0);
            &&& r.0 == byte_offset(text@, end)
            &&& r.1 == width_upto(text@, mask@, end)
        }),
{
    let cs = chars_of(text);
    let mut width: usize = 0;
    let mut bytes: usize = 0;
    let mut i: usize = 0;
    while i < cs.len()
        invariant
            cs@ == text@,
            mask@.len() == text@.len(),
            byte_len(text@) <= usize::MAX,
            i <= cs@.len(),
            width == width_upto(text@, mask@, i as int),
            width <= target,
            bytes == byte_offset(text@, i as int),
            fit_end(text@, mask@, target as int, 0) == fit_end(text@, mask@, target as int, i as int),
        decreases cs@.len() - i,
    {
        proof {
            lemma_byte_offset_monotone(text@, i + 1, text@.len() as int);
        }
        let c = cs[i];
        let w: usize = if mask[i] { char_columns(c) } else { 0 };
        if mask[i] && w > target - width {
            return (bytes, width);
        }
        width = width + w;
        bytes = bytes + utf8_len_of(c);
        i += 1;
    }
    (bytes, width)
}

/// Columns the printed characters of `cs` take.
pub(crate) fn width_of_chars(cs: &[char], mask: &[bool]) -> (r: usize)
    requires
        mask@.len() == cs@.len(),
        3 * cs@.len() <= usize::MAX,
    ensures
        r == display_width_of(cs@, mask@),
{
    let mut total: usize = 0;
    let mut i: usize = 0;
    while i < cs.len()
        invariant
            mask@.len() == cs@.len(),
            3 * cs@.len() <= usize::MAX,
            i <= cs@.len(),
            total == width_upto(cs@, mask@, i as int),
            total <= 3 * i,
        decreases cs@.len() - i,
    {
        if mask[i] {
            total = total + char_columns(cs[i]);
        }
        i += 1;
    }
    total
}

/// The character index at which the width of `cs` would pass `target`, and
/// the width reached there (see `fit_end`).
pub(crate) fn fit_index(cs: &[char], mask: &[bool], target: usize) -> (r: (usize, usize))
    requires
        mask@.len() == cs@.len(),
    ensures
        r.0 == fit_end(cs@, mask@, target as int, 0),
        r.1 == width_upto(cs@, mask@, r.0 as int),
        r.1 <= target,
        r.0 <= cs@.len(),
{
    let mut width: usize = 0;
    let mut i: usize = 0;
    while i < cs.len()
        invariant
            mask@.len() == cs@.len(),
            i <= cs@.len(),
            width == width_upto(cs@, mask@, i as int),
            width <= target,
            fit_end(cs@, mask@, target as int, 0) == fit_end(cs@, mask@, target as int, i as int),
        decreases cs@.len() - i,
    {
        let w: usize = if mask[i] {
            char_columns(cs[i])
        } else {
            0
        };
        if mask[i] && w > target - width {
            return (i, width);
        }
        width = width + w;
        i += 1;
    }
    (i, width)
}

/// Which characters of a text a terminal prints: one flag per character,
/// set where a terminal parser fed the text character by character prints
/// it (escape sequences and control characters are not printed).
pub uninterp spec fn printable_mask_of(s: Seq<char>) -> Seq<bool>;

/// Remembers whether the terminal parser printed the character it was just
/// fed.
pub struct PrintSeen {
    seen: bool,
}

impl vte::Perform for PrintSeen {
    fn print(&mut self, _c: char) {
        self.seen = true;
    }
}

/// Trusted: feeds `s` to `vte::Parser::advance` one character at a time
/// and records, for each, whether the parser printed it; the answer
/// depends on the text alone.
#[verifier::external_body]
fn parse_printable(s: &str) -> (r: Vec<bool>)
    ensures
        r@ == printable_mask_of(s@),
        r@.len() == s@.len(),
{
    let mut parser = vte::Parser::new();
    let mut seen = PrintSeen { seen: false };
    let mut buf = [0u8; 4];
    s.chars().map(|c| {
        parser.advance(&mut seen, c.encode_utf8(&mut buf).as_bytes());
        let printed = seen.seen;
        seen.seen = false;
        printed
    }).collect()
}

/// The printable mask of `s` (see `printable_mask_of`).
pub fn printable_mask(s: &str) -> (r: Vec<bool>)
    ensures
        r@ == printable_mask_of(s@),
        r@.len() == s@.len(),
{
    parse_printable(s)
}

/// Columns taken by what the terminal prints of `text`.
pub fn display_width(text: &str) -> (r: usize)
    requires
        3 * text@.len() <= usize::MAX,
    ensures
        r == display_width_of(text@, printable_mask_of(text@)),
{
    let mask = printable_mask(text);
    display_width_masked(text, mask.as_slice())
}

/// The byte index at which the display width of `text` would pass
/// `target`, with the width reached there; when everything fits, the byte
/// length of `text` and its whole width. Measured over what the terminal
/// prints of it.
pub fn byte_index_at_display_width(text: &str, target: usize) -> (r: (usize, usize))
    requires
        byte_len(text@) <= usize::MAX,
    ensures
        ({
            let mask = printable_mask_of(text@);
            let end = fit_end(text@, mask, target as int, 0);
            &&& r.0 == byte_offset(text@, end)
            &&& r.1 == width_upto(text@, mask, end)
        }),
{
    let mask = printable_mask(text);
    byte_index_at_display_width_masked(text, mask.as_slice(), target)
}

} // verus!
