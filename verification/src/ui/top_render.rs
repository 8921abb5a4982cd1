//! What the bars at the top and bottom of the screen show: the text set
//! into each, where it is cut to fit, and how many bar characters fill the
//! rest, as a sequence of text runs and colour switches. Turning a colour
//! switch into terminal bytes is left to the caller.
use vstd::prelude::*;
use crate::display::{
    char_columns, columns, fit_end, fit_index, printable_mask, printable_mask_of, width_upto,
};
use crate::tabs::TabInfo;
use crate::ui::top_area::{TopPrefix, TopPrefixStyle, TopRow, TopRowBody, HOST_STATUS};
use crate::text::{
    chars_of, is_blank, push_decimal, push_str, spec_decimal, spec_is_blank, string_of,
    str_eq, string_of_range, trim, trimmed,
};
use vstd::relations::{sorted_by, total_ordering};

verus! {

/// A colour or style a bar switches to.
#[derive(Debug, Clone, Copy, PartialEq, Eq, Structural)]
pub enum Style {
    Green,
    LightGreen,
    LightYellow,
    LightBlack,
    LightWhite,
    /// The default foreground colour.
    FgReset,
    /// The default background colour.
    BgReset,
    Bold,
    /// Every style back to the default.
    StyleReset,
}

/// One run of a rendered bar: a style switch or text.
#[derive(Debug, PartialEq, Eq)]
pub enum Piece {
    Style(Style),
    Text(String),
}

/// A piece as contracts see it: the style it switches to, or its text.
pub open spec fn piece_view(p: Piece) -> (Option<Style>, Seq<char>) {
    match p {
        Piece::Style(s) => (Some(s), Seq::<char>::empty()),
        Piece::Text(t) => (None, t@),
    }
}

/// The pieces as contracts see them.
pub open spec fn pieces_view(v: Seq<Piece>) -> Seq<(Option<Style>, Seq<char>)> {
    v.map_values(|p: Piece| piece_view(p))
}

/// A style switch.
pub open spec fn st(s: Style) -> (Option<Style>, Seq<char>) {
    (Some(s), Seq::<char>::empty())
}

/// A text run.
pub open spec fn tx(t: Seq<char>) -> (Option<Style>, Seq<char>) {
    (None, t)
}

/// The text the pieces print, styles left out.
pub open spec fn plain_of(v: Seq<(Option<Style>, Seq<char>)>) -> Seq<char>
    decreases v.len(),
{
    if v.len() == 0 {
        Seq::<char>::empty()
    } else {
        plain_of(v.drop_last()) + v.last().1
    }
}

/// `n` copies of `c`.
pub open spec fn repeated(c: char, n: nat) -> Seq<char> {
    Seq::new(n, |_i: int| c)
}

/// Appends a piece.
fn push_piece(out: &mut Vec<Piece>, p: Piece)
    ensures
        pieces_view(final(out)@) == pieces_view(old(out)@).push(piece_view(p)),
{
    let ghost pv = piece_view(p);
    out.push(p);
    assert(pieces_view(out@) =~= pieces_view(old(out)@).push(pv));
}

/// Appends the pieces of `more`.
fn append_pieces(out: &mut Vec<Piece>, more: Vec<Piece>)
    ensures
        pieces_view(final(out)@) == pieces_view(old(out)@) + pieces_view(more@),
{
    let mut more = more;
    let ghost m = more@;
    out.append(&mut more);
    assert(pieces_view(out@) =~= pieces_view(old(out)@) + pieces_view(m));
}

/// A text of `n` copies of `c`.
fn repeat_char(c: char, n: usize) -> (r: String)
    ensures
        r@ == repeated(c, n as nat),
{
    let mut cs: Vec<char> = Vec::new();
    let mut i: usize = 0;
    while i < n
        invariant
            i <= n,
            cs@ == repeated(c, i as nat),
        decreases n - i,
    {
        cs.push(c);
        assert(cs@ =~= repeated(c, (i + 1) as nat));
        i += 1;
    }
    string_of(cs.as_slice())
}

/// The text of a concatenation is the concatenation of the texts.
pub proof fn lemma_plain_of_concat(a: Seq<(Option<Style>, Seq<char>)>, b: Seq<(Option<Style>, Seq<char>)>)
    ensures
        plain_of(a + b) == plain_of(a) + plain_of(b),
    decreases b.len(),
{
    if b.len() == 0 {
        assert(a + b =~= a);
    } else {
        lemma_plain_of_concat(a, b.drop_last());
        assert((a + b).drop_last() =~= a + b.drop_last());
        assert(plain_of(a) + plain_of(b.drop_last()) + b.last().1 =~= plain_of(a) + (plain_of(
            b.drop_last(),
        ) + b.last().1));
    }
}

/// The pieces of a row's prefix, its trailing space included.
pub open spec fn prefix_view(prefix: Option<TopPrefix>, bar: char) -> Seq<(Option<Style>, Seq<char>)> {
    match prefix {
        None => seq![],
        Some(p) => match p.style {
            TopPrefixStyle::Plain => seq![
                st(Style::Green),
                tx(repeated(bar, 3)),
                tx(p.text@),
                st(Style::FgReset),
                tx(seq![' ']),
            ],
            TopPrefixStyle::Brand => seq![
                st(Style::Green),
                tx(repeated(bar, 3)),
                st(Style::Bold),
                st(Style::LightWhite),
                tx(p.text@),
                st(Style::FgReset),
                st(Style::StyleReset),
                st(Style::Green),
                tx(repeated(bar, 2)),
                st(Style::FgReset),
                tx(seq![' ']),
            ],
        },
    }
}

/// Columns a prefix takes, counted in characters.
pub open spec fn prefix_width(prefix: Option<TopPrefix>) -> nat {
    match prefix {
        None => 0,
        Some(p) => match p.style {
            TopPrefixStyle::Plain => 3 + p.text@.len() + 1,
            TopPrefixStyle::Brand => 3 + p.text@.len() + 2 + 1,
        },
    }
}

/// The pieces of a row's prefix and the columns it takes: three bar
/// characters and the text, framed as a badge for the brand style.
pub fn render_prefix(prefix: &Option<TopPrefix>, bar: char) -> (r: (Vec<Piece>, usize))
    requires
        prefix matches Some(p) ==> p.text@.len() + 6 <= usize::MAX,
    ensures
        pieces_view(r.0@) == prefix_view(*prefix, bar),
        r.1 == prefix_width(*prefix),
{
    let mut out: Vec<Piece> = Vec::new();
    match prefix {
        None => {
            assert(pieces_view(out@) =~= prefix_view(*prefix, bar));
            (out, 0)
        },
        Some(p) => {
            let n = chars_of(p.text.as_str()).len();
            match p.style {
                TopPrefixStyle::Plain => {
                    push_piece(&mut out, Piece::Style(Style::Green));
                    push_piece(&mut out, Piece::Text(repeat_char(bar, 3)));
                    push_piece(&mut out, Piece::Text(p.text.clone()));
                    push_piece(&mut out, Piece::Style(Style::FgReset));
                    push_piece(&mut out, Piece::Text(repeat_char(' ', 1)));
                    assert(repeated(' ', 1) =~= seq![' ']);
                    assert(pieces_view(out@) =~= prefix_view(*prefix, bar));
                    (out, 3 + n + 1)
                },
                TopPrefixStyle::Brand => {
                    push_piece(&mut out, Piece::Style(Style::Green));
                    push_piece(&mut out, Piece::Text(repeat_char(bar, 3)));
                    push_piece(&mut out, Piece::Style(Style::Bold));
                    push_piece(&mut out, Piece::Style(Style::LightWhite));
                    push_piece(&mut out, Piece::Text(p.text.clone()));
                    push_piece(&mut out, Piece::Style(Style::FgReset));
                    push_piece(&mut out, Piece::Style(Style::StyleReset));
                    push_piece(&mut out, Piece::Style(Style::Green));
                    push_piece(&mut out, Piece::Text(repeat_char(bar, 2)));
                    push_piece(&mut out, Piece::Style(Style::FgReset));
                    push_piece(&mut out, Piece::Text(repeat_char(' ', 1)));
                    assert(repeated(' ', 1) =~= seq![' ']);
                    assert(pieces_view(out@) =~= prefix_view(*prefix, bar));
                    (out, 3 + n + 2 + 1)
                },
            }
        },
    }
}

/// A tab's name in the indicator: its shortcut, if any, then its label.
pub open spec fn tab_body(t: TabInfo) -> Seq<char> {
    match t.shortcut {
        Some(sc) => sc@ + seq![' ', '-', ' '] + t.label@,
        None => t.label@,
    }
}

/// The text a tab shows: the active one in brackets, one with unread
/// lines in parentheses with their count, any other in parentheses.
pub open spec fn tab_text_of(t: TabInfo) -> Seq<char> {
    if t.active {
        seq!['['] + tab_body(t) + seq![']']
    } else if t.unread > 0 {
        seq!['('] + tab_body(t) + seq!['\u{b7}'] + spec_decimal(t.unread as nat) + seq![')']
    } else {
        seq!['('] + tab_body(t) + seq![')']
    }
}

/// A tab's pieces: its text, bold light green when active, light yellow
/// with unread lines, else light black.
pub open spec fn tab_run(t: TabInfo) -> Seq<(Option<Style>, Seq<char>)> {
    if t.active {
        seq![
            st(Style::Bold),
            st(Style::LightGreen),
            tx(tab_text_of(t)),
            st(Style::FgReset),
            st(Style::StyleReset),
        ]
    } else if t.unread > 0 {
        seq![st(Style::LightYellow), tx(tab_text_of(t)), st(Style::FgReset)]
    } else {
        seq![st(Style::LightBlack), tx(tab_text_of(t)), st(Style::FgReset)]
    }
}

/// What stands between two tabs.
pub open spec fn tab_separator() -> Seq<(Option<Style>, Seq<char>)> {
    seq![st(Style::Green), tx(seq![' ', '\u{2502}', ' ']), st(Style::FgReset)]
}

/// The first `n` tabs, separated.
pub open spec fn tab_runs_upto(tabs: Seq<TabInfo>, n: int) -> Seq<(Option<Style>, Seq<char>)>
    decreases n,
{
    if n <= 0 {
        seq![]
    } else {
        tab_runs_upto(tabs, n - 1) + (if n > 1 {
            tab_separator()
        } else {
            seq![]
        }) + tab_run(tabs[n - 1])
    }
}

/// The tabs segment: every tab, separated, once there are two or more.
pub open spec fn tabs_segment(tabs: Seq<TabInfo>) -> Seq<(Option<Style>, Seq<char>)> {
    if tabs.len() < 2 {
        seq![]
    } else {
        tab_runs_upto(tabs, tabs.len() as int)
    }
}

/// The text of one tab.
fn tab_text(t: &TabInfo) -> (r: String)
    ensures
        r@ == tab_text_of(*t),
{
    let mut cs: Vec<char> = Vec::new();
    cs.push(if t.active { '[' } else { '(' });
    match &t.shortcut {
        Some(sc) => {
            push_str(&mut cs, sc.as_str());
            push_str(&mut cs, " - ");
            proof {
                reveal_strlit(" - ");
            }
        },
        None => {},
    }
    push_str(&mut cs, t.label.as_str());
    if t.active {
        cs.push(']');
    } else if t.unread > 0 {
        cs.push('\u{b7}');
        push_decimal(&mut cs, t.unread as u64);
        cs.push(')');
    } else {
        cs.push(')');
    }
    assert(cs@ =~= tab_text_of(*t));
    string_of(cs.as_slice())
}

/// The text of a tab's pieces is its text.
proof fn lemma_plain_tab_run(t: TabInfo)
    ensures
        plain_of(tab_run(t)) == tab_text_of(t),
{
    reveal_with_fuel(plain_of, 6);
    let e = Seq::<char>::empty();
    if t.active {
        assert(e + e + tab_text_of(t) + e + e =~= tab_text_of(t));
    } else {
        assert(e + tab_text_of(t) + e =~= tab_text_of(t));
    }
}

/// The text between two tabs.
proof fn lemma_plain_separator()
    ensures
        plain_of(tab_separator()) == seq![' ', '\u{2502}', ' '],
{
    reveal_with_fuel(plain_of, 4);
    let e = Seq::<char>::empty();
    assert(e + seq![' ', '\u{2502}', ' '] + e =~= seq![' ', '\u{2502}', ' ']);
}

/// The text of the first `n` tabs, step by step.
proof fn lemma_plain_runs_step(tabs: Seq<TabInfo>, n: int)
    requires
        1 <= n <= tabs.len(),
    ensures
        plain_of(tab_runs_upto(tabs, n)) == plain_of(tab_runs_upto(tabs, n - 1)) + (if n > 1 {
            seq![' ', '\u{2502}', ' ']
        } else {
            Seq::<char>::empty()
        }) + tab_text_of(tabs[n - 1]),
{
    let before = tab_runs_upto(tabs, n - 1);
    let sep = if n > 1 {
        tab_separator()
    } else {
        seq![]
    };
    lemma_plain_of_concat(before + sep, tab_run(tabs[n - 1]));
    lemma_plain_of_concat(before, sep);
    lemma_plain_tab_run(tabs[n - 1]);
    lemma_plain_separator();
    if n <= 1 {
        assert(plain_of(sep) =~= Seq::<char>::empty());
    }
}

/// More tabs never print less.
proof fn lemma_plain_runs_monotone(tabs: Seq<TabInfo>, m: int, n: int)
    requires
        0 <= m <= n <= tabs.len(),
    ensures
        plain_of(tab_runs_upto(tabs, m)).len() <= plain_of(tab_runs_upto(tabs, n)).len(),
    decreases n - m,
{
    if m < n {
        lemma_plain_runs_monotone(tabs, m, n - 1);
        lemma_plain_runs_step(tabs, n);
    }
}

/// The tabs segment and the columns it takes, counted in characters:
/// nothing for fewer than two tabs.
pub fn format_tabs_segment(tabs: &[TabInfo]) -> (r: (Vec<Piece>, usize))
    requires
        plain_of(tabs_segment(tabs@)).len() <= usize::MAX,
    ensures
        pieces_view(r.0@) == tabs_segment(tabs@),
        r.1 == plain_of(tabs_segment(tabs@)).len(),
{
    let mut out: Vec<Piece> = Vec::new();
    if tabs.len() < 2 {
        assert(pieces_view(out@) =~= tabs_segment(tabs@));
        return (out, 0);
    }
    let mut width: usize = 0;
    let mut i: usize = 0;
    assert(pieces_view(out@) =~= tab_runs_upto(tabs@, 0));
    while i < tabs.len()
        invariant
            2 <= tabs@.len(),
            i <= tabs@.len(),
            pieces_view(out@) == tab_runs_upto(tabs@, i as int),
            width == plain_of(tab_runs_upto(tabs@, i as int)).len(),
            plain_of(tab_runs_upto(tabs@, tabs@.len() as int)).len() <= usize::MAX,
        decreases tabs@.len() - i,
    {
        proof {
            lemma_plain_runs_step(tabs@, i + 1);
            lemma_plain_runs_monotone(tabs@, i + 1, tabs@.len() as int);
        }
        let ghost before = pieces_view(out@);
        if i > 0 {
            push_piece(&mut out, Piece::Style(Style::Green));
            push_piece(&mut out, Piece::Text(string_of(&[' ', '\u{2502}', ' '])));
            push_piece(&mut out, Piece::Style(Style::FgReset));
            width = width + 3;
        }
        let ghost mid = pieces_view(out@);
        assert(mid =~= before + if i > 0 {
            tab_separator()
        } else {
            seq![]
        });
        let t = &tabs[i];
        let text = tab_text(t);
        let n = chars_of(text.as_str()).len();
        if t.active {
            push_piece(&mut out, Piece::Style(Style::Bold));
            push_piece(&mut out, Piece::Style(Style::LightGreen));
            push_piece(&mut out, Piece::Text(text));
            push_piece(&mut out, Piece::Style(Style::FgReset));
            push_piece(&mut out, Piece::Style(Style::StyleReset));
        } else if t.unread > 0 {
            push_piece(&mut out, Piece::Style(Style::LightYellow));
            push_piece(&mut out, Piece::Text(text));
            push_piece(&mut out, Piece::Style(Style::FgReset));
        } else {
            push_piece(&mut out, Piece::Style(Style::LightBlack));
            push_piece(&mut out, Piece::Text(text));
            push_piece(&mut out, Piece::Style(Style::FgReset));
        }
        assert(pieces_view(out@) =~= mid + tab_run(tabs@[i as int]));
        width = width + n;
        i += 1;
    }
    (out, width)
}


/// `a` sorts strictly before `b`, as `String`s compare: character by
/// character by code point, a proper prefix first.
pub open spec fn lex_lt(a: Seq<char>, b: Seq<char>) -> bool
    decreases a.len(),
{
    if a.len() == 0 {
        b.len() > 0
    } else if b.len() == 0 {
        false
    } else if a[0] != b[0] {
        (a[0] as u32) < (b[0] as u32)
    } else {
        lex_lt(a.skip(1), b.skip(1))
    }
}

/// `a` sorts no later than `b`.
pub open spec fn text_le(a: Seq<char>, b: Seq<char>) -> bool {
    !lex_lt(b, a)
}

/// Nothing sorts before itself, and of two texts at most one sorts first.
proof fn lemma_lex_asymmetric(a: Seq<char>, b: Seq<char>)
    ensures
        !(lex_lt(a, b) && lex_lt(b, a)),
    decreases a.len(),
{
    if a.len() > 0 && b.len() > 0 && a[0] == b[0] {
        lemma_lex_asymmetric(a.skip(1), b.skip(1));
    }
}

/// Of two different texts one sorts first.
proof fn lemma_lex_total(a: Seq<char>, b: Seq<char>)
    ensures
        a != b ==> lex_lt(a, b) || lex_lt(b, a),
    decreases a.len(),
{
    if a.len() == 0 {
        if b.len() == 0 {
            assert(a =~= b);
        }
    } else if b.len() > 0 && a[0] == b[0] {
        lemma_lex_total(a.skip(1), b.skip(1));
        if a.skip(1) == b.skip(1) {
            assert(a =~= seq![a[0]] + a.skip(1));
            assert(b =~= seq![b[0]] + b.skip(1));
        }
    } else if b.len() > 0 {
        vstd::utf8::char_u32_cast(a[0], a[0] as u32);
        vstd::utf8::char_u32_cast(b[0], b[0] as u32);
    }
}

/// Sorting first passes along.
proof fn lemma_lex_transitive(a: Seq<char>, b: Seq<char>, c: Seq<char>)
    requires
        lex_lt(a, b),
        lex_lt(b, c),
    ensures
        lex_lt(a, c),
    decreases a.len(),
{
    if a.len() > 0 && a[0] == b[0] && b[0] == c[0] {
        lemma_lex_transitive(a.skip(1), b.skip(1), c.skip(1));
    }
}

/// `text_le` orders texts totally.
pub proof fn lemma_text_le_total_ordering()
    ensures
        total_ordering(|a: Seq<char>, b: Seq<char>| text_le(a, b)),
{
    let le = |a: Seq<char>, b: Seq<char>| text_le(a, b);
    assert forall|x: Seq<char>| #[trigger] le(x, x) by {
        lemma_lex_asymmetric(x, x);
    }
    assert forall|x: Seq<char>, y: Seq<char>| #[trigger] le(x, y) && #[trigger] le(y, x) implies x == y by {
        lemma_lex_total(x, y);
    }
    assert forall|x: Seq<char>, y: Seq<char>, z: Seq<char>| #[trigger] le(x, y) && #[trigger] le(y, z) implies le(x, z) by {
        if lex_lt(z, x) {
            lemma_lex_total(x, y);
            if x != y {
                lemma_lex_transitive(z, x, y);
            }
        }
    }
    assert forall|x: Seq<char>, y: Seq<char>| #[trigger] le(x, y) || #[trigger] le(y, x) by {
        lemma_lex_asymmetric(x, y);
    }
}

/// Whether `a` sorts strictly before `b`.
fn lex_less(a: &[char], b: &[char]) -> (r: bool)
    ensures
        r == lex_lt(a@, b@),
{
    let mut k: usize = 0;
    assert(a@.skip(0) =~= a@);
    assert(b@.skip(0) =~= b@);
    while k < a.len() && k < b.len() && a[k] == b[k]
        invariant
            k <= a@.len(),
            k <= b@.len(),
            lex_lt(a@, b@) == lex_lt(a@.skip(k as int), b@.skip(k as int)),
        decreases a@.len() - k,
    {
        assert(a@.skip(k as int).skip(1) =~= a@.skip(k + 1));
        assert(b@.skip(k as int).skip(1) =~= b@.skip(k + 1));
        k += 1;
    }
    if k == a.len() {
        k < b.len()
    } else if k == b.len() {
        false
    } else {
        (a[k] as u32) < (b[k] as u32)
    }
}

/// A tag as the host bar shows it: in brackets.
pub open spec fn bracketed(t: Seq<char>) -> Seq<char> {
    seq!['['] + t + seq![']']
}

/// The bracketed tags in sorted order.
pub open spec fn sorted_tags(tags: Seq<Seq<char>>) -> Seq<Seq<char>> {
    tags.map_values(|t: Seq<char>| bracketed(t)).sort_by(|a: Seq<char>, b: Seq<char>| text_le(a, b))
}

/// The host bar's text: the host (or nothing), a space and the sorted
/// bracketed tags, with a space after; nothing at all when that is blank.
pub open spec fn host_tags_text(connection: Option<Seq<char>>, tags: Seq<Seq<char>>) -> Seq<char> {
    let host = match connection {
        Some(h) => h,
        None => Seq::<char>::empty(),
    };
    let out = host + seq![' '] + sorted_tags(tags).flatten_alt();
    if spec_is_blank(out) {
        Seq::<char>::empty()
    } else {
        out + seq![' ']
    }
}

/// The tags, bracketed and sorted.
fn sort_bracketed(tags: &Vec<String>) -> (r: Vec<Vec<char>>)
    ensures
        r@.map_values(|v: Vec<char>| v@) == sorted_tags(tags@.map_values(|s: String| s@)),
{
    let ghost le = |a: Seq<char>, b: Seq<char>| text_le(a, b);
    let ghost src = tags@.map_values(|s: String| s@).map_values(|t: Seq<char>| bracketed(t));
    let mut out: Vec<Vec<char>> = Vec::new();
    let mut i: usize = 0;
    assert(src.take(0) =~= out@.map_values(|v: Vec<char>| v@));
    while i < tags.len()
        invariant
            i <= tags@.len(),
            src.len() == tags@.len(),
            src == tags@.map_values(|s: String| s@).map_values(|t: Seq<char>| bracketed(t)),
            le == (|a: Seq<char>, b: Seq<char>| text_le(a, b)),
            sorted_by(out@.map_values(|v: Vec<char>| v@), le),
            out@.map_values(|v: Vec<char>| v@).to_multiset() == src.take(i as int).to_multiset(),
        decreases tags@.len() - i,
    {
        let mut x: Vec<char> = Vec::new();
        x.push('[');
        push_str(&mut x, tags[i].as_str());
        x.push(']');
        assert(x@ =~= src[i as int]);
        let mut p: usize = 0;
        while p < out.len() && !lex_less(x.as_slice(), out[p].as_slice())
            invariant
                p <= out@.len(),
                forall|q: int| 0 <= q < p ==> !lex_lt(x@, (#[trigger] out@[q])@),
            decreases out@.len() - p,
        {
            p += 1;
        }
        let ghost before = out@.map_values(|v: Vec<char>| v@);
        let ghost xv = x@;
        out.insert(p, x);
        proof {
            let after = out@.map_values(|v: Vec<char>| v@);
            assert(after =~= before.insert(p as int, xv));
            assert forall|a: int, b: int| 0 <= a < b < after.len() implies #[trigger] le(
                after[a],
                after[b],
            ) by {
                if b < p {
                    assert(le(before[a], before[b]));
                } else if a > p {
                    assert(le(before[a - 1], before[b - 1]));
                } else if a == p {
                    // x against a later element before[b - 1], b - 1 >= p
                    if lex_lt(before[b - 1], xv) {
                        assert(p < before.len());
                        assert(lex_lt(xv, before[p as int]));
                        if b - 1 == p {
                            lemma_lex_asymmetric(xv, before[p as int]);
                        } else {
                            assert(le(before[p as int], before[b - 1]));
                            lemma_lex_transitive(before[b - 1], xv, before[p as int]);
                        }
                    }
                } else {
                    // b == p: an earlier element against x
                    assert(!lex_lt(xv, before[a]));
                }
            }
            vstd::seq_lib::to_multiset_insert(before, p as int, xv);
            assert(src.take(i + 1) =~= src.take(i as int).push(src[i as int]));
            vstd::seq_lib::to_multiset_build(src.take(i as int), src[i as int]);
        }
        i += 1;
    }
    proof {
        assert(src.take(tags@.len() as int) =~= src);
        lemma_text_le_total_ordering();
        src.lemma_sort_by_ensures(le);
        vstd::seq_lib::lemma_sorted_unique(out@.map_values(|v: Vec<char>| v@), src.sort_by(le), le);
    }
    out
}


/// The host a connection shows, if any.
pub open spec fn connection_view(c: Option<String>) -> Option<Seq<char>> {
    match c {
        Some(h) => Some(h@),
        None => None,
    }
}

/// The host bar's text for `connection` and `tags`.
pub fn format_host_tags(connection: &Option<String>, tags: &Vec<String>) -> (r: String)
    ensures
        r@ == host_tags_text(connection_view(*connection), tags@.map_values(|s: String| s@)),
{
    let sorted = sort_bracketed(tags);
    let ghost all = sorted@.map_values(|v: Vec<char>| v@);
    let mut out: Vec<char> = Vec::new();
    match connection {
        Some(h) => push_str(&mut out, h.as_str()),
        None => {},
    }
    out.push(' ');
    let ghost start = out@;
    let mut k: usize = 0;
    assert(all.take(0).flatten_alt() =~= Seq::<char>::empty());
    assert(start + all.take(0).flatten_alt() =~= start);
    while k < sorted.len()
        invariant
            k <= sorted@.len(),
            all == sorted@.map_values(|v: Vec<char>| v@),
            out@ == start + all.take(k as int).flatten_alt(),
        decreases sorted@.len() - k,
    {
        let piece = &sorted[k];
        let mut j: usize = 0;
        let ghost base = out@;
        while j < piece.len()
            invariant
                j <= piece@.len(),
                out@ == base + piece@.take(j as int),
            decreases piece@.len() - j,
        {
            out.push(piece[j]);
            assert(piece@.take(j + 1) =~= piece@.take(j as int).push(piece@[j as int]));
            j += 1;
        }
        assert(piece@.take(piece@.len() as int) =~= piece@);
        assert(all.take(k + 1).drop_last() =~= all.take(k as int));
        assert(out@ =~= start + all.take(k + 1).flatten_alt());
        k += 1;
    }
    assert(all.take(sorted@.len() as int) =~= all);
    let ghost host = match connection {
        Some(h) => h@,
        None => Seq::<char>::empty(),
    };
    assert(start =~= host + seq![' ']);
    assert(out@ =~= host + seq![' '] + sorted_tags(tags@.map_values(|s: String| s@)).flatten_alt());
    if is_blank(out.as_slice()) {
        String::new()
    } else {
        out.push(' ');
        string_of(out.as_slice())
    }
}


/// The pieces of `v`, the first of which begins after `pos` characters of
/// text, cut before character `k`: text from there on is dropped, and so
/// is every style switch after it.
pub open spec fn cut_pieces(v: Seq<(Option<Style>, Seq<char>)>, k: int, pos: int) -> Seq<
    (Option<Style>, Seq<char>),
>
    decreases v.len(),
{
    if v.len() == 0 {
        seq![]
    } else {
        let p = v[0];
        let rest = cut_pieces(v.skip(1), k, pos + p.1.len());
        if p.0 is Some {
            if pos <= k {
                seq![p] + rest
            } else {
                rest
            }
        } else if pos < k {
            seq![tx(p.1.take(if p.1.len() <= k - pos {
                p.1.len() as int
            } else {
                k - pos
            }))] + rest
        } else {
            rest
        }
    }
}

/// Past the cut nothing is kept.
proof fn lemma_cut_past(v: Seq<(Option<Style>, Seq<char>)>, k: int, pos: int)
    requires
        pos > k,
    ensures
        cut_pieces(v, k, pos) == Seq::<(Option<Style>, Seq<char>)>::empty(),
    decreases v.len(),
{
    if v.len() > 0 {
        lemma_cut_past(v.skip(1), k, pos + v[0].1.len());
        assert(cut_pieces(v, k, pos) =~= Seq::<(Option<Style>, Seq<char>)>::empty());
    }
}

/// The text of a piece followed by more is its text followed by theirs.
proof fn lemma_plain_of_cons(p: (Option<Style>, Seq<char>), rest: Seq<(Option<Style>, Seq<char>)>)
    ensures
        plain_of(seq![p] + rest) == p.1 + plain_of(rest),
{
    lemma_plain_of_concat(seq![p], rest);
    reveal_with_fuel(plain_of, 2);
    assert(plain_of(seq![p]) =~= Seq::<char>::empty() + p.1);
}

/// Cutting before character `k` keeps exactly the text before it.
pub proof fn lemma_cut_keeps_text_before(v: Seq<(Option<Style>, Seq<char>)>, k: int, pos: int)
    requires
        pos <= k,
        forall|i: int| 0 <= i < v.len() && (#[trigger] v[i]).0 is Some ==> v[i].1.len() == 0,
    ensures
        plain_of(cut_pieces(v, k, pos)) == plain_of(v).take(
            if plain_of(v).len() <= k - pos {
                plain_of(v).len() as int
            } else {
                k - pos
            },
        ),
    decreases v.len(),
{
    if v.len() == 0 {
        assert(plain_of(v).take(0) =~= Seq::<char>::empty());
    } else {
        let p = v[0];
        let rest = v.skip(1);
        assert(v =~= seq![p] + rest);
        assert forall|i: int| 0 <= i < rest.len() && (#[trigger] rest[i]).0 is Some implies rest[i].1.len() == 0 by {
            assert(rest[i] == v[i + 1]);
        }
        lemma_plain_of_cons(p, rest);
        let n = p.1.len();
        let whole = plain_of(v);
        if pos + n <= k {
            lemma_cut_keeps_text_before(rest, k, pos + n);
            if p.0 is Some {
                lemma_plain_of_cons(p, cut_pieces(rest, k, pos + n));
            } else if pos < k {
                lemma_plain_of_cons(tx(p.1.take(n as int)), cut_pieces(rest, k, pos + n));
                assert(p.1.take(n as int) =~= p.1);
            } else {
                assert(n == 0);
            }
            let m = if plain_of(rest).len() <= k - pos - n {
                plain_of(rest).len() as int
            } else {
                k - pos - n
            };
            assert(p.1 + plain_of(rest).take(m) =~= whole.take(n + m));
        } else {
            lemma_cut_past(rest, k, pos + n);
            reveal_with_fuel(plain_of, 1);
            assert(plain_of(Seq::<(Option<Style>, Seq<char>)>::empty()) =~= Seq::<char>::empty());
            if p.0 is Some {
                assert(n == 0);
            } else if pos < k {
                lemma_plain_of_cons(tx(p.1.take(k - pos)), cut_pieces(rest, k, pos + n));
                assert(p.1.take(k - pos) + Seq::<char>::empty() =~= whole.take(k - pos));
            } else {
                assert(whole.take(0) =~= Seq::<char>::empty());
            }
        }
    }
}


/// `v` cut before character `k` of its text.
fn cut(v: &Vec<Piece>, k: usize) -> (r: Vec<Piece>)
    ensures
        pieces_view(r@) == cut_pieces(pieces_view(v@), k as int, 0),
{
    let ghost all = pieces_view(v@);
    let mut kept: Vec<Piece> = Vec::new();
    let mut pos: usize = 0;
    let mut past = false;
    let mut i: usize = 0;
    assert(all.skip(0) =~= all);
    assert(pieces_view(kept@) + cut_pieces(all.skip(0), k as int, 0) =~= cut_pieces(all, k as int, 0));
    while i < v.len()
        invariant
            i <= v@.len(),
            all == pieces_view(v@),
            !past ==> pos <= k,
            pieces_view(kept@) + (if past {
                Seq::<(Option<Style>, Seq<char>)>::empty()
            } else {
                cut_pieces(all.skip(i as int), k as int, pos as int)
            }) == cut_pieces(all, k as int, 0),
        decreases v@.len() - i,
    {
        let ghost rest = all.skip(i as int);
        assert(rest.skip(1) =~= all.skip(i + 1));
        assert(rest[0] == piece_view(v@[i as int]));
        let ghost before = pieces_view(kept@);
        if !past {
            match &v[i] {
                Piece::Style(style) => {
                    push_piece(&mut kept, Piece::Style(*style));
                    assert(pieces_view(kept@) + cut_pieces(all.skip(i + 1), k as int, pos as int)
                        =~= before + cut_pieces(rest, k as int, pos as int));
                },
                Piece::Text(t) => {
                    let cs = chars_of(t.as_str());
                    let n = cs.len();
                    if pos < k {
                        let take = if n <= k - pos {
                            n
                        } else {
                            k - pos
                        };
                        let part = string_of_range(cs.as_slice(), 0, take);
                        assert(cs@.subrange(0, take as int) =~= t@.take(take as int));
                        push_piece(&mut kept, Piece::Text(part));
                        if n <= k - pos {
                            assert(pieces_view(kept@) + cut_pieces(
                                all.skip(i + 1),
                                k as int,
                                (pos + n) as int,
                            ) =~= before + cut_pieces(rest, k as int, pos as int));
                            pos = pos + n;
                        } else {
                            proof {
                                lemma_cut_past(all.skip(i + 1), k as int, pos + n);
                            }
                            assert(pieces_view(kept@) =~= before + cut_pieces(
                                rest,
                                k as int,
                                pos as int,
                            ));
                            past = true;
                        }
                    } else if n == 0 {
                        assert(cut_pieces(rest, k as int, pos as int) == cut_pieces(
                            all.skip(i + 1),
                            k as int,
                            pos as int,
                        ));
                    } else {
                        proof {
                            lemma_cut_past(all.skip(i + 1), k as int, pos + n);
                        }
                        assert(before =~= before + cut_pieces(rest, k as int, pos as int));
                        past = true;
                    }
                },
            }
        }
        i += 1;
    }
    proof {
        if !past {
            assert(all.skip(v@.len() as int) =~= Seq::<(Option<Style>, Seq<char>)>::empty());
        }
    }
    assert(pieces_view(kept@) =~= cut_pieces(all, k as int, 0));
    kept
}


/// The text the pieces print.
fn plain_chars(v: &Vec<Piece>) -> (r: Vec<char>)
    ensures
        r@ == plain_of(pieces_view(v@)),
{
    let ghost all = pieces_view(v@);
    let mut out: Vec<char> = Vec::new();
    let mut i: usize = 0;
    assert(all.take(0) =~= Seq::<(Option<Style>, Seq<char>)>::empty());
    while i < v.len()
        invariant
            i <= v@.len(),
            all == pieces_view(v@),
            out@ == plain_of(all.take(i as int)),
        decreases v@.len() - i,
    {
        assert(all.take(i + 1).drop_last() =~= all.take(i as int));
        match &v[i] {
            Piece::Style(_) => {
                assert(out@ =~= plain_of(all.take(i as int)) + all[i as int].1);
            },
            Piece::Text(t) => {
                push_str(&mut out, t.as_str());
            },
        }
        i += 1;
    }
    assert(all.take(v@.len() as int) =~= all);
    out
}

/// A bar holding `body` (whose text has the printable mask `mask`): one
/// bar character and a space, the body cut where it passes `target`
/// columns, the colours reset and a space; then bar characters to `width`
/// columns. A body without text leaves the bar unbroken.
pub open spec fn bare_bar(
    bar: char,
    width: int,
    body: Seq<(Option<Style>, Seq<char>)>,
    mask: Seq<bool>,
    target: int,
) -> Seq<(Option<Style>, Seq<char>)> {
    let p = plain_of(body);
    let k = fit_end(p, mask, target, 0);
    let frag = if p.len() > 0 {
        seq![tx(seq![bar, ' '])] + cut_pieces(body, k, 0) + seq![
            st(Style::BgReset),
            st(Style::FgReset),
            st(Style::Green),
            tx(seq![' ']),
        ]
    } else {
        seq![]
    };
    let used = if p.len() > 0 {
        columns(bar) + 2 + width_upto(p, mask, k)
    } else {
        0
    };
    let fill = if width > used {
        width - used
    } else {
        0
    };
    seq![st(Style::Green)] + frag + (if fill > 0 {
        seq![tx(repeated(bar, fill as nat))]
    } else {
        seq![]
    }) + seq![st(Style::FgReset)]
}

/// The pieces of a bar holding `body`; see `bare_bar`.
fn bar_pieces(bar: char, width: usize, body: &Vec<Piece>, mask: &[bool], target: usize) -> (r: Vec<
    Piece,
>)
    requires
        mask@.len() == plain_of(pieces_view(body@)).len(),
    ensures
        pieces_view(r@) == bare_bar(bar, width as int, pieces_view(body@), mask@, target as int),
{
    let ghost bv = pieces_view(body@);
    let ghost p = plain_of(bv);
    let plain = plain_chars(body);
    let mut out: Vec<Piece> = Vec::new();
    push_piece(&mut out, Piece::Style(Style::Green));
    let mut fill: usize = width;
    let ghost mut frag = Seq::<(Option<Style>, Seq<char>)>::empty();
    if plain.len() > 0 {
        let (k, w) = fit_index(plain.as_slice(), mask, target);
        let lead_chars: Vec<char> = vec![bar, ' '];
        assert(lead_chars@ =~= seq![bar, ' ']);
        push_piece(&mut out, Piece::Text(string_of(lead_chars.as_slice())));
        let kept = cut(body, k);
        append_pieces(&mut out, kept);
        push_piece(&mut out, Piece::Style(Style::BgReset));
        push_piece(&mut out, Piece::Style(Style::FgReset));
        push_piece(&mut out, Piece::Style(Style::Green));
        let space: Vec<char> = vec![' '];
        assert(space@ =~= seq![' ']);
        push_piece(&mut out, Piece::Text(string_of(space.as_slice())));
        proof {
            frag = seq![tx(seq![bar, ' '])] + cut_pieces(bv, k as int, 0) + seq![
                st(Style::BgReset),
                st(Style::FgReset),
                st(Style::Green),
                tx(seq![' ']),
            ];
            assert(pieces_view(out@) =~= seq![st(Style::Green)] + frag);
        }
        let cb = char_columns(bar);
        fill = if width >= cb + 2 && width - cb - 2 > w {
            width - cb - 2 - w
        } else {
            0
        };
    } else {
        assert(pieces_view(out@) =~= seq![st(Style::Green)] + frag);
    }
    let ghost mid = pieces_view(out@);
    if fill > 0 {
        push_piece(&mut out, Piece::Text(repeat_char(bar, fill)));
    }
    let ghost tail = if fill > 0 {
        seq![tx(repeated(bar, fill as nat))]
    } else {
        Seq::<(Option<Style>, Seq<char>)>::empty()
    };
    assert(pieces_view(out@) =~= mid + tail);
    push_piece(&mut out, Piece::Style(Style::FgReset));
    assert(pieces_view(out@) =~= seq![st(Style::Green)] + frag + tail + seq![st(Style::FgReset)]);
    out
}

/// The pieces of a status bar: `info` without surrounding white space, cut
/// to four columns less than the width, set into a bar of `bar` characters
/// `width` columns wide. `mask` is the printable mask of the trimmed text.
pub(crate) fn draw_bar_masked(bar: char, width: usize, info: &str, mask: &[bool]) -> (r: Vec<Piece>)
    requires
        mask@.len() == trim(info@).len(),
        trim(info@).len() > 0 ==> width >= 4 && columns(bar) + 2 + width_upto(
            trim(info@),
            mask@,
            fit_end(trim(info@), mask@, width - 4, 0),
        ) <= width,
    ensures
        pieces_view(r@) == bare_bar(
            bar,
            width as int,
            seq![tx(trim(info@))],
            mask@,
            if width >= 4 {
                width - 4
            } else {
                0
            },
        ),
{
    let t = trimmed(info);
    let mut body: Vec<Piece> = Vec::new();
    push_piece(&mut body, Piece::Text(t));
    assert(pieces_view(body@) =~= seq![tx(trim(info@))]);
    proof {
        reveal_with_fuel(plain_of, 2);
        assert(plain_of(pieces_view(body@)) =~= trim(info@));
    }
    let target = if width >= 4 {
        width - 4
    } else {
        0
    };
    bar_pieces(bar, width, &body, mask, target)
}


/// What a row is drawn from besides itself.
pub struct TopRenderContext {
    /// Columns of the terminal.
    pub width: u16,
    /// The connected host and port, if any.
    pub connection: Option<String>,
    /// The connection's tags.
    pub tags: Vec<String>,
    /// The tabs, in order.
    pub tabs: Vec<TabInfo>,
    /// The tabs are shown on the host status row.
    pub inline_tabs_active: bool,
}

/// The host bar's text in `ctx`.
pub open spec fn host_tags_of(ctx: TopRenderContext) -> Seq<char> {
    host_tags_text(connection_view(ctx.connection), ctx.tags@.map_values(|s: String| s@))
}

/// A row's own body and the columns it takes, counted in characters.
pub open spec fn own_body(row: TopRow, ctx: TopRenderContext) -> (Seq<(Option<Style>, Seq<char>)>, nat) {
    match row.body {
        TopRowBody::Empty => (seq![], 0),
        TopRowBody::Text(s) => (seq![tx(s@)], s@.len()),
        TopRowBody::HostTags => (seq![tx(host_tags_of(ctx))], host_tags_of(ctx).len()),
        TopRowBody::TabIndicator => (
            tabs_segment(ctx.tabs@),
            plain_of(tabs_segment(ctx.tabs@)).len(),
        ),
    }
}

/// The tabs follow the body of the host status row when they are shown
/// inline and there are two or more.
pub open spec fn inline_decorated(row: TopRow, ctx: TopRenderContext) -> bool {
    ctx.inline_tabs_active && row.name@ == HOST_STATUS@ && ctx.tabs@.len() > 1
}

/// A row's body with the inline tabs, and the columns it takes.
pub open spec fn full_body(row: TopRow, ctx: TopRenderContext) -> (Seq<(Option<Style>, Seq<char>)>, nat) {
    let b = own_body(row, ctx);
    if inline_decorated(row, ctx) {
        (b.0 + tabs_segment(ctx.tabs@), b.1 + plain_of(tabs_segment(ctx.tabs@)).len())
    } else {
        b
    }
}

/// The body a row without a prefix sets into its bar: a text without
/// surrounding white space, or the tabs segment.
pub open spec fn bare_body(row: TopRow, ctx: TopRenderContext) -> Seq<(Option<Style>, Seq<char>)> {
    match row.body {
        TopRowBody::Empty => seq![tx(Seq::<char>::empty())],
        TopRowBody::Text(s) => seq![tx(trim(s@))],
        TopRowBody::HostTags => seq![tx(trim(host_tags_of(ctx)))],
        TopRowBody::TabIndicator => tabs_segment(ctx.tabs@),
    }
}

/// The pieces of a row: the prefix, if any, then
/// - for an empty body, bar characters to the width;
/// - for a prefixed or inline-decorated body, the body, a space and bar
///   characters to the width;
/// - for any other, the body set into a bar (`bare_bar`), cut four columns
///   short of the width.
pub open spec fn row_view(row: TopRow, ctx: TopRenderContext, mask: Seq<bool>) -> Seq<
    (Option<Style>, Seq<char>),
> {
    let width = ctx.width as int;
    let body = full_body(row, ctx);
    let pw = prefix_width(row.prefix) as int;
    let lead = seq![st(Style::Green)] + prefix_view(row.prefix, row.bar_char);
    if body.1 == 0 {
        let fill = if width > pw {
            width - pw
        } else {
            0
        };
        lead + (if fill > 0 {
            seq![tx(repeated(row.bar_char, fill as nat))]
        } else {
            seq![]
        }) + seq![st(Style::FgReset)]
    } else if inline_decorated(row, ctx) || pw > 0 {
        let used = pw + body.1 + 1;
        let fill = if width > used {
            width - used
        } else {
            0
        };
        lead + body.0 + seq![
            tx(seq![' ']),
            st(Style::FgReset),
            st(Style::Green),
            tx(repeated(row.bar_char, fill as nat)),
            st(Style::FgReset),
        ]
    } else {
        bare_bar(row.bar_char, width, bare_body(row, ctx), mask, if width >= 4 {
            width - 4
        } else {
            0
        })
    }
}

/// No text of the row is too long to count.
pub open spec fn row_fits(row: TopRow, ctx: TopRenderContext) -> bool {
    let bound = usize::MAX / 8;
    &&& (row.prefix matches Some(p) ==> p.text@.len() <= bound)
    &&& (row.body matches TopRowBody::Text(s) ==> s@.len() <= bound)
    &&& host_tags_of(ctx).len() <= bound
    &&& plain_of(tabs_segment(ctx.tabs@)).len() <= bound
}

/// The text a row without a prefix sets into its bar; its printable mask
/// is what `render_row` measures the cut with.
pub fn bare_body_text(row: &TopRow, ctx: &TopRenderContext) -> (r: String)
    requires
        plain_of(tabs_segment(ctx.tabs@)).len() <= usize::MAX,
    ensures
        r@ == plain_of(bare_body(*row, *ctx)),
{
    let body = bare_body_pieces(row, ctx);
    let cs = plain_chars(&body);
    string_of(cs.as_slice())
}

/// The pieces of `bare_body`.
fn bare_body_pieces(row: &TopRow, ctx: &TopRenderContext) -> (r: Vec<Piece>)
    requires
        plain_of(tabs_segment(ctx.tabs@)).len() <= usize::MAX,
    ensures
        pieces_view(r@) == bare_body(*row, *ctx),
{
    let mut out: Vec<Piece> = Vec::new();
    match &row.body {
        TopRowBody::Empty => {
            push_piece(&mut out, Piece::Text(String::new()));
        },
        TopRowBody::Text(s) => {
            push_piece(&mut out, Piece::Text(trimmed(s.as_str())));
        },
        TopRowBody::HostTags => {
            let h = format_host_tags(&ctx.connection, &ctx.tags);
            push_piece(&mut out, Piece::Text(trimmed(h.as_str())));
        },
        TopRowBody::TabIndicator => {
            let (seg, _) = format_tabs_segment(ctx.tabs.as_slice());
            out = seg;
        },
    }
    assert(pieces_view(out@) =~= bare_body(*row, *ctx));
    out
}

/// A row's body with the inline tabs, and the columns it takes.
fn full_body_pieces(row: &TopRow, ctx: &TopRenderContext) -> (r: (Vec<Piece>, usize))
    requires
        row_fits(*row, *ctx),
    ensures
        pieces_view(r.0@) == full_body(*row, *ctx).0,
        r.1 == full_body(*row, *ctx).1,
        r.1 <= usize::MAX / 4,
{
    let mut body: Vec<Piece> = Vec::new();
    let mut body_width: usize = 0;
    match &row.body {
        TopRowBody::Empty => {},
        TopRowBody::Text(s) => {
            body_width = chars_of(s.as_str()).len();
            push_piece(&mut body, Piece::Text(s.clone()));
        },
        TopRowBody::HostTags => {
            let h = format_host_tags(&ctx.connection, &ctx.tags);
            body_width = chars_of(h.as_str()).len();
            push_piece(&mut body, Piece::Text(h));
        },
        TopRowBody::TabIndicator => {
            let (seg, w) = format_tabs_segment(ctx.tabs.as_slice());
            body = seg;
            body_width = w;
        },
    }
    assert(pieces_view(body@) =~= own_body(*row, *ctx).0);
    let inline = ctx.inline_tabs_active && str_eq(row.name.as_str(), HOST_STATUS)
        && ctx.tabs.len() > 1;
    if inline {
        let (seg, w) = format_tabs_segment(ctx.tabs.as_slice());
        append_pieces(&mut body, seg);
        body_width = body_width + w;
    }
    assert(pieces_view(body@) =~= full_body(*row, *ctx).0);
    (body, body_width)
}

/// The pieces of `row` drawn `ctx.width` columns wide. `mask` is the
/// printable mask of `bare_body_text(row, ctx)`.
#[verifier::rlimit(30)]
pub(crate) fn render_row_masked(row: &TopRow, ctx: &TopRenderContext, mask: &[bool]) -> (r: Vec<Piece>)
    requires
        row_fits(*row, *ctx),
        mask@.len() == plain_of(bare_body(*row, *ctx)).len(),
    ensures
        pieces_view(r@) == row_view(*row, *ctx, mask@),
{
    let width = ctx.width as usize;
    let (body, body_width) = full_body_pieces(row, ctx);
    let inline = ctx.inline_tabs_active && str_eq(row.name.as_str(), HOST_STATUS)
        && ctx.tabs.len() > 1;
    let mut out: Vec<Piece> = Vec::new();
    push_piece(&mut out, Piece::Style(Style::Green));
    let (prefix, pw) = render_prefix(&row.prefix, row.bar_char);
    append_pieces(&mut out, prefix);
    let ghost lead = pieces_view(out@);
    assert(lead =~= seq![st(Style::Green)] + prefix_view(row.prefix, row.bar_char));
    if body_width == 0 {
        let fill = if width > pw {
            width - pw
        } else {
            0
        };
        if fill > 0 {
            push_piece(&mut out, Piece::Text(repeat_char(row.bar_char, fill)));
        }
        push_piece(&mut out, Piece::Style(Style::FgReset));
        assert(pieces_view(out@) =~= row_view(*row, *ctx, mask@));
        out
    } else if inline || pw > 0 {
        let used = pw + body_width + 1;
        let fill = if width > used {
            width - used
        } else {
            0
        };
        append_pieces(&mut out, body);
        let space: Vec<char> = vec![' '];
        assert(space@ =~= seq![' ']);
        push_piece(&mut out, Piece::Text(string_of(space.as_slice())));
        push_piece(&mut out, Piece::Style(Style::FgReset));
        push_piece(&mut out, Piece::Style(Style::Green));
        push_piece(&mut out, Piece::Text(repeat_char(row.bar_char, fill)));
        push_piece(&mut out, Piece::Style(Style::FgReset));
        assert(pieces_view(out@) =~= row_view(*row, *ctx, mask@));
        out
    } else {
        let bare = bare_body_pieces(row, ctx);
        let target = if width >= 4 {
            width - 4
        } else {
            0
        };
        assert(row.prefix is None);
        bar_pieces(row.bar_char, width, &bare, mask, target)
    }
}

/// The pieces of `row` drawn `ctx.width` columns wide (see `row_view`),
/// a body set into a bare bar being cut by what the terminal prints of it.
pub fn render_row(row: &TopRow, ctx: &TopRenderContext) -> (r: Vec<Piece>)
    requires
        row_fits(*row, *ctx),
    ensures
        pieces_view(r@) == row_view(*row, *ctx, printable_mask_of(plain_of(bare_body(*row, *ctx)))),
{
    let body = bare_body_text(row, ctx);
    let mask = printable_mask(body.as_str());
    render_row_masked(row, ctx, mask.as_slice())
}

/// The pieces of a status bar (see `draw_bar_masked`), the trimmed text
/// measured over what the terminal prints of it. When the text would not
/// leave room for the bar (a width under four columns, or a bar character
/// too wide for what is left), there are none.
pub fn draw_bar(bar: char, width: usize, info: &str) -> (r: Option<Vec<Piece>>)
    ensures
        ({
            let t = trim(info@);
            let mask = printable_mask_of(t);
            let fits = t.len() > 0 ==> width >= 4 && columns(bar) + 2 + width_upto(
                t,
                mask,
                fit_end(t, mask, width - 4, 0),
            ) <= width;
            &&& r is None <==> !fits
            &&& r matches Some(v) ==> pieces_view(v@) == bare_bar(
                bar,
                width as int,
                seq![tx(t)],
                mask,
                if width >= 4 {
                    width - 4
                } else {
                    0
                },
            )
        }),
{
    let t = trimmed(info);
    let mask = printable_mask(t.as_str());
    let cs = chars_of(t.as_str());
    if cs.len() > 0 {
        if width < 4 {
            return None;
        }
        let (_, shown) = fit_index(cs.as_slice(), mask.as_slice(), width - 4);
        let cb = char_columns(bar);
        if !(width >= cb + 2 && width - cb - 2 >= shown) {
            return None;
        }
    }
    Some(draw_bar_masked(bar, width, info, mask.as_slice()))
}

/// The rows of `rows` that are shown, in order.
pub open spec fn shown_rows(rows: Seq<TopRow>) -> Seq<TopRow>
    decreases rows.len(),
{
    if rows.len() == 0 {
        Seq::empty()
    } else {
        let before = shown_rows(rows.drop_last());
        if rows.last().visible {
            before.push(rows.last())
        } else {
            before
        }
    }
}

/// What `render_row` draws of `row`.
pub open spec fn row_pieces(row: TopRow, ctx: TopRenderContext) -> Seq<(Option<Style>, Seq<char>)> {
    row_view(row, ctx, printable_mask_of(plain_of(bare_body(row, ctx))))
}

/// No shown row grows the row texts past what can be drawn.
pub open spec fn rows_fit(rows: Seq<TopRow>, ctx: TopRenderContext) -> bool {
    forall|i: int| 0 <= i < rows.len() && (#[trigger] rows[i]).visible ==> row_fits(rows[i], ctx)
}

/// The top area drawn from terminal line `start_line` down: each shown row,
/// in order, with the line it goes on, one line after the other.
pub fn render_top_area(rows: &[TopRow], start_line: u16, ctx: &TopRenderContext) -> (r: Vec<
    (u16, Vec<Piece>),
>)
    requires
        rows_fit(rows@, *ctx),
        start_line + shown_rows(rows@).len() <= u16::MAX,
    ensures
        r@.len() == shown_rows(rows@).len(),
        forall|k: int|
            0 <= k < r@.len() ==> (#[trigger] r@[k]).0 == start_line + k && pieces_view(r@[k].1@)
                == row_pieces(shown_rows(rows@)[k], *ctx),
{
    let mut out: Vec<(u16, Vec<Piece>)> = Vec::new();
    let mut line: u16 = start_line;
    let mut i: usize = 0;
    proof {
        lemma_shown_rows_grow(rows@);
    }
    while i < rows.len()
        invariant
            i <= rows@.len(),
            rows_fit(rows@, *ctx),
            start_line + shown_rows(rows@).len() <= u16::MAX,
            forall|j: int| 0 <= j <= rows@.len() ==> #[trigger] shown_rows(rows@.take(j)).len() <= shown_rows(rows@).len(),
            out@.len() == shown_rows(rows@.take(i as int)).len(),
            line == start_line + out@.len(),
            forall|k: int|
                0 <= k < out@.len() ==> (#[trigger] out@[k]).0 == start_line + k && pieces_view(
                    out@[k].1@,
                ) == row_pieces(shown_rows(rows@.take(i as int))[k], *ctx),
        decreases rows@.len() - i,
    {
        assert(rows@.take(i + 1).drop_last() =~= rows@.take(i as int));
        assert(rows@.take(i + 1).last() == rows@[i as int]);
        if rows[i].visible {
            assert(shown_rows(rows@.take(i + 1)).len() <= shown_rows(rows@).len());
            let pieces = render_row(&rows[i], ctx);
            out.push((line, pieces));
            line = line + 1;
        }
        i += 1;
    }
    assert(rows@.take(rows@.len() as int) =~= rows@);
    out
}

/// Taking more rows never shows fewer.
proof fn lemma_shown_rows_grow(rows: Seq<TopRow>)
    ensures
        forall|j: int| 0 <= j <= rows.len() ==> #[trigger] shown_rows(rows.take(j)).len() <= shown_rows(rows).len(),
    decreases rows.len(),
{
    if rows.len() > 0 {
        lemma_shown_rows_grow(rows.drop_last());
        assert forall|j: int| 0 <= j <= rows.len() implies #[trigger] shown_rows(rows.take(j)).len()
            <= shown_rows(rows).len() by {
            if j < rows.len() {
                assert(rows.take(j) =~= rows.drop_last().take(j));
            } else {
                assert(rows.take(j) =~= rows);
            }
        }
    }
}

} // verus!
