//! Decisions of the split screen: which rows of the top area show, where
//! the regions of the terminal go, and what the input area shows with the
//! cursor where.
use vstd::prelude::*;
use crate::display::{
    columns, display_width_of, fit_end, fit_index, lemma_fit_end, lemma_width_upto_monotone,
    printable_mask, printable_mask_of, width_of_chars, width_upto, char_columns,
};
use crate::text::{chars_of, string_of, string_of_range, texts};
use crate::ui::input_layout::{
    desired_height, spec_desired_height, spec_visible_end, spec_visible_start, visible_rows,
};
use crate::ui::input_rows::{
    char_row_ranges, char_rows, cursor_row_col_masked, lemma_cursor_in_row, lemma_row_width,
    lemma_rows_in_bounds, lemma_rows_nonempty, pairs, spec_cursor, span_width,
};
use crate::ui::layout::{layout_of, ScreenLayout, INPUT_HEIGHT_MIN};
use crate::ui::top_area::{
    count_visible, patched, TopArea, TopPrefix, TopPrefixStyle, TopRow, TopRowOpts, HOST_STATUS,
    TAB_INDICATOR,
};
use crate::ui::user_interface::TerminalSizeError;

verus! {

/// The settings that shape the top of the screen.
#[derive(Debug, Clone, Copy, PartialEq, Eq, Structural)]
pub struct TopBarSettings {
    /// Hide the host status row.
    pub hide_topbar: bool,
    /// Show the brand badge on the tab indicator row.
    pub brand: bool,
    /// Show the tabs on the host status row instead of a row of their own.
    pub inline_tabs: bool,
    /// Show the tab indicator at all.
    pub indicator_visible: bool,
}

/// Whether the dedicated tab indicator row shows: when asked for, when
/// there is more than one tab, and when the tabs are not shown inline on a
/// visible host status row.
pub open spec fn shows_indicator(s: TopBarSettings, tab_count: int) -> bool {
    s.indicator_visible && tab_count > 1 && !(s.inline_tabs && !s.hide_topbar)
}

/// The prefix of the tab indicator row.
pub open spec fn indicator_prefix_ok(p: TopPrefix, brand: bool) -> bool {
    if brand {
        p.style == TopPrefixStyle::Brand && p.text@ == " Blightmud "@
    } else {
        p.style == TopPrefixStyle::Plain && p.text@.len() == 0
    }
}

/// `after` are the rows `before` once configured for `settings` and
/// `tab_count` tabs: the first tab indicator row shows as
/// `shows_indicator` says, with the prefix the brand setting asks for; the
/// first host status row shows unless the top bar is hidden; every other
/// row is left alone.
pub open spec fn configured(
    before: Seq<TopRow>,
    after: Seq<TopRow>,
    settings: TopBarSettings,
    tab_count: int,
) -> bool {
    &&& after.len() == before.len()
    &&& forall|i: int|
        0 <= i < before.len() ==> {
            let b = before[i];
            let a = #[trigger] after[i];
            if b.name@ == TAB_INDICATOR@ && forall|j: int|
                0 <= j < i ==> (#[trigger] before[j]).name@ != TAB_INDICATOR@ {
                &&& a.visible == shows_indicator(settings, tab_count)
                &&& a.prefix matches Some(p) && indicator_prefix_ok(p, settings.brand)
                &&& a.name == b.name && a.bar_char == b.bar_char && a.body == b.body
            } else if b.name@ == HOST_STATUS@ && forall|j: int|
                0 <= j < i ==> (#[trigger] before[j]).name@ != HOST_STATUS@ {
                a == (TopRow { visible: !settings.hide_topbar, ..b })
            } else {
                a == b
            }
        }
}

/// Brings the built-in rows of the top area in line with the settings and
/// the number of tabs: the tab indicator row's visibility and prefix, and
/// whether the host status row shows. Other rows are left alone.
pub fn configure_top_area(top: &mut TopArea, settings: &TopBarSettings, tab_count: usize)
    ensures
        configured(old(top).spec_rows(), final(top).spec_rows(), *settings, tab_count as int),
{
    let inline_with_topbar = settings.inline_tabs && !settings.hide_topbar;
    let show_indicator = settings.indicator_visible && tab_count > 1 && !inline_with_topbar;
    let ghost rows0 = top.spec_rows();
    let prefix = if settings.brand {
        TopPrefix { text: " Blightmud ".to_owned(), style: TopPrefixStyle::Brand }
    } else {
        TopPrefix { text: String::new(), style: TopPrefixStyle::Plain }
    };
    assert(indicator_prefix_ok(prefix, settings.brand));
    let ind = top.find(TAB_INDICATOR);
    let ghost o1 = TopRowOpts {
        name: None,
        bar_char: None,
        prefix: Some(Some(prefix)),
        body: None,
        visible: Some(show_indicator),
    };
    if ind.is_some() {
        let idx = ind.unwrap();
        let opts = TopRowOpts {
            name: None,
            bar_char: None,
            prefix: Some(Some(prefix)),
            body: None,
            visible: Some(show_indicator),
        };
        assert(opts == o1);
        top.apply_opts(idx, opts);
    }
    let ghost rows1 = top.spec_rows();
    assert(ind matches Some(k) ==> rows1 == rows0.update(k as int, patched(rows0[k as int], o1)));
    assert(ind is None ==> rows1 == rows0);
    let host = top.find(HOST_STATUS);
    let ghost o2 = TopRowOpts {
        name: None,
        bar_char: None,
        prefix: None,
        body: None,
        visible: Some(!settings.hide_topbar),
    };
    if host.is_some() {
        let idx = host.unwrap();
        let opts = TopRowOpts {
            name: None,
            bar_char: None,
            prefix: None,
            body: None,
            visible: Some(!settings.hide_topbar),
        };
        assert(opts == o2);
        top.apply_opts(idx, opts);
    }
    let ghost rows2 = top.spec_rows();
    assert(host matches Some(k) ==> rows2 == rows1.update(k as int, patched(rows1[k as int], o2)));
    assert(host is None ==> rows2 == rows1);
    proof {
        assert forall|i: int| 0 <= i < rows0.len() implies (#[trigger] rows1[i]).name == rows0[i].name
            by {}
        assert forall|i: int| 0 <= i < rows0.len() implies {
            let before = rows0[i];
            let after = #[trigger] rows2[i];
            if before.name@ == TAB_INDICATOR@ && forall|j: int|
                0 <= j < i ==> (#[trigger] rows0[j]).name@ != TAB_INDICATOR@ {
                &&& after.visible == shows_indicator(*settings, tab_count as int)
                &&& after.prefix matches Some(p) && indicator_prefix_ok(p, settings.brand)
                &&& after.name == before.name && after.bar_char == before.bar_char && after.body
                    == before.body
            } else if before.name@ == HOST_STATUS@ && forall|j: int|
                0 <= j < i ==> (#[trigger] rows0[j]).name@ != HOST_STATUS@ {
                after == (crate::ui::top_area::TopRow { visible: !settings.hide_topbar, ..before })
            } else {
                after == before
            }
        } by {
            reveal_strlit("tab_indicator");
            reveal_strlit("host_status");
            assert(TAB_INDICATOR@ != HOST_STATUS@) by {
                assert(TAB_INDICATOR@[0] != HOST_STATUS@[0]);
            }
            let first_ind = rows0[i].name@ == TAB_INDICATOR@ && forall|j: int|
                0 <= j < i ==> (#[trigger] rows0[j]).name@ != TAB_INDICATOR@;
            let first_host = rows0[i].name@ == HOST_STATUS@ && forall|j: int|
                0 <= j < i ==> (#[trigger] rows0[j]).name@ != HOST_STATUS@;
            let ind_here = ind matches Some(k) && k as int == i;
            let host_here = host matches Some(k) && k as int == i;
            if first_ind {
                assert(ind_here) by {
                    if ind.is_none() {
                        assert(rows0[i].name@ != TAB_INDICATOR@);
                    } else {
                        let k = ind.unwrap() as int;
                        if k < i {
                            assert(rows0[k].name@ != TAB_INDICATOR@);
                        } else if k > i {
                            assert(rows0[i].name@ != TAB_INDICATOR@);
                        }
                    }
                }
            } else if ind.is_some() {
                let k = ind.unwrap() as int;
                if k == i {
                    assert(rows0[i].name@ == TAB_INDICATOR@);
                    assert(forall|j: int| 0 <= j < i ==> rows0[j].name@ != TAB_INDICATOR@);
                    assert(first_ind);
                }
                assert(k != i);
                assert(!ind_here);
            }
            if first_host {
                assert(host_here) by {
                    if host.is_none() {
                        assert(rows1[i].name@ != HOST_STATUS@);
                    } else {
                        let k = host.unwrap() as int;
                        if k < i {
                            assert(rows1[k].name@ != HOST_STATUS@);
                            assert(rows0[k].name@ != HOST_STATUS@);
                        } else if k > i {
                            assert(rows1[i].name@ != HOST_STATUS@);
                        }
                    }
                }
            } else if host.is_some() {
                let k = host.unwrap() as int;
                if k == i {
                    assert(rows1[i].name@ == HOST_STATUS@);
                    assert(rows0[i].name@ == HOST_STATUS@);
                    assert(forall|j: int| 0 <= j < i ==> rows1[j].name@ != HOST_STATUS@);
                    assert forall|j: int| 0 <= j < i implies rows0[j].name@ != HOST_STATUS@ by {
                        assert(rows1[j].name@ != HOST_STATUS@);
                        assert(rows1[j].name == rows0[j].name);
                    }
                    assert(first_host);
                }
                assert(k != i);
                assert(!host_here);
            }
        }
    }
}

/// Row `i` of `rows` is the first one named `name`.
pub open spec fn first_at(rows: Seq<TopRow>, name: Seq<char>, i: int) -> bool {
    &&& 0 <= i < rows.len()
    &&& rows[i].name@ == name
    &&& forall|j: int| 0 <= j < i ==> (#[trigger] rows[j]).name@ != name
}

/// Only one row is the first of a name.
proof fn lemma_first_at_unique(rows: Seq<TopRow>, name: Seq<char>, a: int, b: int)
    requires
        first_at(rows, name, a),
        first_at(rows, name, b),
    ensures
        a == b,
{
    if a < b {
        assert(rows[a].name@ != name);
    } else if b < a {
        assert(rows[b].name@ != name);
    }
}

/// Whether the tab indicator takes a row of its own: with more than one
/// tab, unless the tabs are shown inline on a visible host status row.
pub open spec fn dedicated_indicator(rows: Seq<TopRow>, tab_count: int, inline_tabs: bool) -> bool {
    tab_count > 1 && !(inline_tabs && exists|h: int|
        first_at(rows, HOST_STATUS@, h) && (#[trigger] rows[h]).visible)
}

/// Shows or hides the tab indicator row for `tab_count` tabs, and tells
/// whether the number of visible top rows changed, so that the layout is
/// to be set up anew rather than only the top area redrawn.
pub fn set_tab_indicator(top: &mut TopArea, tab_count: usize, inline_tabs: bool) -> (r: bool)
    ensures
        final(top).spec_rows().len() == old(top).spec_rows().len(),
        forall|i: int|
            0 <= i < old(top).spec_rows().len() ==> #[trigger] final(top).spec_rows()[i] == if first_at(
                old(top).spec_rows(),
                TAB_INDICATOR@,
                i,
            ) {
                (TopRow {
                    visible: dedicated_indicator(old(top).spec_rows(), tab_count as int, inline_tabs),
                    ..old(top).spec_rows()[i]
                })
            } else {
                old(top).spec_rows()[i]
            },
        r == (count_visible(old(top).spec_rows()) as u16 != count_visible(final(top).spec_rows()) as u16),
{
    let ghost rows0 = top.spec_rows();
    let was = top.visible_row_count();
    let host_visible = match top.find(HOST_STATUS) {
        Some(h) => match top.get(h) {
            Some(row) => row.visible,
            None => false,
        },
        None => false,
    };
    let dedicated = tab_count > 1 && !(inline_tabs && host_visible);
    proof {
        let hv = exists|h: int| first_at(rows0, HOST_STATUS@, h) && (#[trigger] rows0[h]).visible;
        assert(host_visible == hv) by {
            if hv {
                let h2 = choose|h: int| first_at(rows0, HOST_STATUS@, h) && (#[trigger] rows0[h]).visible;
                assert(rows0[h2].name@ == HOST_STATUS@);
            }
        }
    }
    let ind = top.find(TAB_INDICATOR);
    let ghost opts0 = TopRowOpts {
        name: None,
        bar_char: None,
        prefix: None,
        body: None,
        visible: Some(dedicated),
    };
    if ind.is_some() {
        let idx = ind.unwrap();
        let opts = TopRowOpts { name: None, bar_char: None, prefix: None, body: None, visible: Some(dedicated) };
        assert(opts == opts0);
        top.apply_opts(idx, opts);
    }
    proof {
        let rows1 = top.spec_rows();
        assert forall|i: int| 0 <= i < rows0.len() implies #[trigger] rows1[i] == if first_at(
            rows0,
            TAB_INDICATOR@,
            i,
        ) {
            (TopRow { visible: dedicated_indicator(rows0, tab_count as int, inline_tabs), ..rows0[i] })
        } else {
            rows0[i]
        } by {
            if first_at(rows0, TAB_INDICATOR@, i) {
                if ind.is_none() {
                    assert(rows0[i].name@ != TAB_INDICATOR@);
                }
                lemma_first_at_unique(rows0, TAB_INDICATOR@, i, ind.unwrap() as int);
            } else if ind.is_some() {
                let k = ind.unwrap() as int;
                if k == i {
                    assert(first_at(rows0, TAB_INDICATOR@, k));
                }
            }
        }
    }
    was != top.visible_row_count()
}

/// The regions of a `height`-row terminal once the top area is
/// configured: the terminal must have rows and columns, and room for the
/// regions.
pub fn setup_layout(
    top: &mut TopArea,
    settings: &TopBarSettings,
    tab_count: usize,
    width: u16,
    height: u16,
    status_height: u16,
) -> (r: Result<ScreenLayout, TerminalSizeError>)
    ensures
        final(top).spec_rows().len() == old(top).spec_rows().len(),
        width > 0 && height > 0 ==> configured(
            old(top).spec_rows(),
            final(top).spec_rows(),
            *settings,
            tab_count as int,
        ),
        width == 0 || height == 0 ==> r == Err::<ScreenLayout, TerminalSizeError>(
            TerminalSizeError,
        ) && final(top).spec_rows() == old(top).spec_rows(),
        width > 0 && height > 0 ==> match layout_of(
            height,
            count_visible(final(top).spec_rows()) as u16,
            status_height,
            INPUT_HEIGHT_MIN,
        ) {
            Some(l) => r == Ok::<ScreenLayout, TerminalSizeError>(l),
            None => r == Err::<ScreenLayout, TerminalSizeError>(TerminalSizeError),
        },
{
    if width == 0 || height == 0 {
        return Err(TerminalSizeError);
    }
    configure_top_area(top, settings, tab_count);
    let rows = top.visible_row_count();
    match ScreenLayout::compute(height, rows, status_height, INPUT_HEIGHT_MIN) {
        Some(l) => Ok(l),
        None => Err(TerminalSizeError),
    }
}

/// What the input area shows: its lines, top to bottom, and the cursor's
/// row within the area and 1-based column.
#[derive(Debug, PartialEq, Eq)]
pub struct InputAreaView {
    pub lines: Vec<String>,
    pub cursor_row: u16,
    pub cursor_col: u16,
    /// The single-row view was scrolled sideways (shown by a leading `>`).
    pub scrolled: bool,
}

/// What the input area taller than one row shows (see `input_area_rows`).
pub open spec fn is_rows_view(
    r: InputAreaView,
    input: Seq<char>,
    mask: Seq<bool>,
    pos: int,
    width: int,
    input_height: int,
    auto_expand: bool,
) -> bool {
    let rows = char_rows(input, mask, width);
    let cur = spec_cursor(input, mask, pos, width);
    let h = spec_desired_height(rows.len() as int, input_height, auto_expand);
    let ws = spec_visible_start(rows.len() as int, (cur.0 as u16) as int, h);
    let we = spec_visible_end(rows.len() as int, (cur.0 as u16) as int, h);
    &&& r.lines@.len() == h
    &&& forall|o: int|
        0 <= o < h ==> (#[trigger] r.lines@[o])@ == if ws + o < we {
            input.subrange(rows[ws + o].0, rows[ws + o].1)
        } else {
            Seq::<char>::empty()
        }
    &&& r.cursor_row == (if (cur.0 as u16) >= ws {
        (cur.0 as u16) - ws
    } else {
        0
    }) as u16
    &&& r.cursor_col == cur.1 + 1
    &&& !r.scrolled
}

/// What the one-row input area shows (see `input_single_row`).
pub open spec fn is_single_row_view(
    r: InputAreaView,
    input: Seq<char>,
    mask: Seq<bool>,
    pos: int,
    width: int,
) -> bool {
    let v = single_row_view(input, mask, pos, width);
    &&& r.lines@.len() == 1
    &&& r.lines@[0]@ == v.0
    &&& r.cursor_row == 0
    &&& r.cursor_col == v.1
    &&& r.scrolled == v.2
}

/// The input area taller than one row: the input is cut into rows (see
/// `rows`), the area grows with them when `auto_expand` is set, and the
/// window of rows shown follows the cursor. Every line of the area is
/// given, empty below the last row shown.
pub fn input_area_rows(
    input: &str,
    pos: usize,
    width: u16,
    input_height: u16,
    auto_expand: bool,
    mask: &[bool],
) -> (r: InputAreaView)
    requires
        mask@.len() == input@.len(),
        3 * input@.len() <= usize::MAX,
        width as int + 4 <= u16::MAX,
    ensures
        is_rows_view(r, input@, mask@, pos as int, width as int, input_height as int, auto_expand),
{
    let w: usize = if width < 1 {
        1
    } else {
        width as usize
    };
    let cs = chars_of(input);
    let ranges = char_row_ranges(&cs, mask, w);
    let (crow, ccol) = cursor_row_col_masked(input, pos, width, mask);
    let ghost rows = char_rows(input@, mask@, width as int);
    proof {
        lemma_rows_in_bounds(cs@, mask@, w as int, 0);
        lemma_rows_nonempty(cs@, mask@, w as int, 0);
        lemma_cursor_in_row(input@, mask@, pos as int, width as int);
        let cur = spec_cursor(input@, mask@, pos as int, width as int);
        lemma_row_width(input@, mask@, w as int, cur.0);
    }
    let height = desired_height(ranges.len(), input_height, auto_expand);
    let window = visible_rows(ranges.len(), crow as usize, height);
    let cursor_row: u16 = if crow as usize >= window.start {
        (crow as usize - window.start) as u16
    } else {
        0
    };
    let cursor_col: u16 = ccol + 1;
    let mut lines: Vec<String> = Vec::new();
    let mut o: u16 = 0;
    while o < height
        invariant
            cs@ == input@,
            pairs(ranges@) == rows,
            forall|k: int|
                0 <= k < rows.len() ==> 0 <= (#[trigger] rows[k]).0 <= rows[k].1 <= input@.len(),
            window.start == spec_visible_start(rows.len() as int, crow as int, height as int),
            window.end == spec_visible_end(rows.len() as int, crow as int, height as int),
            window.end <= rows.len(),
            o <= height,
            lines@.len() == o,
            forall|q: int|
                0 <= q < o ==> (#[trigger] lines@[q])@ == if window.start + q < window.end {
                    input@.subrange(rows[window.start + q].0, rows[window.start + q].1)
                } else {
                    Seq::<char>::empty()
                },
        decreases height - o,
    {
        let i = window.start + o as usize;
        if i < window.end {
            assert(rows[i as int] == (ranges@[i as int].0 as int, ranges@[i as int].1 as int));
            let (a, b) = ranges[i];
            lines.push(string_of_range(cs.as_slice(), a, b));
        } else {
            lines.push(String::new());
        }
        o += 1;
    }
    InputAreaView { lines, cursor_row, cursor_col, scrolled: false }
}

/// The elements of `v` from `from` on.
pub(crate) fn tail<T: Copy>(v: &[T], from: usize) -> (r: Vec<T>)
    requires
        from <= v@.len(),
    ensures
        r@ == v@.subrange(from as int, v@.len() as int),
{
    let mut out: Vec<T> = Vec::new();
    let mut i: usize = from;
    while i < v.len()
        invariant
            from <= i <= v@.len(),
            out@ == v@.subrange(from as int, i as int),
        decreases v@.len() - i,
    {
        out.push(v[i]);
        assert(v@.subrange(from as int, i + 1) =~= v@.subrange(from as int, i as int).push(
            v@[i as int],
        ));
        i += 1;
    }
    out
}

/// The first `n` elements of `v`.
pub(crate) fn head<T: Copy>(v: &[T], n: usize) -> (r: Vec<T>)
    requires
        n <= v@.len(),
    ensures
        r@ == v@.take(n as int),
{
    let mut out: Vec<T> = Vec::new();
    let mut i: usize = 0;
    while i < n
        invariant
            i <= n <= v@.len(),
            out@ == v@.take(i as int),
        decreases n - i,
    {
        out.push(v[i]);
        assert(v@.take(i + 1) =~= v@.take(i as int).push(v@[i as int]));
        i += 1;
    }
    out
}

/// The columns of a text split at `e`: those before it and those of the
/// rest.
proof fn lemma_width_split(s: Seq<char>, m: Seq<bool>, e: int, n: int)
    requires
        0 <= e <= n <= s.len(),
        m.len() == s.len(),
    ensures
        width_upto(s, m, n) == width_upto(s, m, e) + width_upto(
            s.subrange(e, s.len() as int),
            m.subrange(e, m.len() as int),
            n - e,
        ),
    decreases n - e,
{
    if n > e {
        lemma_width_split(s, m, e, n - 1);
    }
}

/// When no printed character is wider than the area, the first one always
/// fits, so a nonempty text keeps at least one character.
proof fn lemma_fit_end_moves(s: Seq<char>, m: Seq<bool>, target: int)
    requires
        s.len() > 0,
        m.len() == s.len(),
        target >= 0,
        glyphs_fit(s, m, target),
    ensures
        fit_end(s, m, target, 0) >= 1,
{
    assert(width_upto(s, m, 1) == width_upto(s, m, 0) + if m[0] {
        columns(s[0])
    } else {
        0
    });
    if m[0] {
        assert(columns(s[0]) <= target);
    }
    lemma_fit_end(s, m, target, 1);
}

/// No printed character of `s` is wider than `width` columns.
pub open spec fn glyphs_fit(s: Seq<char>, m: Seq<bool>, width: int) -> bool {
    forall|i: int| 0 <= i < s.len() && #[trigger] m[i] ==> columns(s[i]) <= width
}

/// The sideways scrolling of the single-row input: while what is left is
/// at least `width` columns wide and the cursor (`c` columns in) lies at
/// or past the edge, the screenful that fits is dropped from the front; a
/// cut that would leave nothing drops everything. Gives what is left, its
/// printable mask, the cursor's column in it and whether anything was
/// dropped.
pub open spec fn hscroll(rest: Seq<char>, mrest: Seq<bool>, width: int, c: int, wrapped: bool) -> (
    Seq<char>,
    Seq<bool>,
    int,
    bool,
)
    decreases rest.len(),
{
    if display_width_of(rest, mrest) >= width && c >= width {
        let e = fit_end(rest, mrest, width, 0);
        if e >= rest.len() {
            (Seq::empty(), Seq::empty(), 0, true)
        } else if e > 0 {
            hscroll(
                rest.subrange(e, rest.len() as int),
                mrest.subrange(e, mrest.len() as int),
                width,
                c - width_upto(rest, mrest, e),
                true,
            )
        } else {
            (rest, mrest, c, wrapped)
        }
    } else {
        (rest, mrest, c, wrapped)
    }
}

/// What the single-row input shows: after scrolling sideways, the part
/// that fits (one column less when a `>` marks the scrolling), and the
/// cursor's 1-based column.
pub open spec fn single_row_view(text: Seq<char>, mask: Seq<bool>, pos: int, width: int) -> (
    Seq<char>,
    int,
    bool,
) {
    let cur = if pos < text.len() {
        pos
    } else {
        text.len() as int
    };
    let (r, m, c, wrapped) = hscroll(text, mask, width, width_upto(text, mask, cur) as int, false);
    let eff = if wrapped {
        width - 1
    } else {
        width
    };
    let shown = if display_width_of(r, m) >= eff {
        r.take(fit_end(r, m, eff, 0))
    } else {
        r
    };
    (shown, c + if wrapped {
        2int
    } else {
        1int
    }, wrapped)
}

/// Scrolls `cs` sideways as `hscroll` says, the cursor `c` columns in.
pub(crate) fn scroll_to_cursor(cs: &[char], mask: &[bool], w: usize, c: usize) -> (r: (
    Vec<char>,
    Vec<bool>,
    usize,
    bool,
))
    requires
        mask@.len() == cs@.len(),
        3 * cs@.len() <= usize::MAX,
        1 <= w,
        glyphs_fit(cs@, mask@, w as int),
        c <= display_width_of(cs@, mask@),
    ensures
        (r.0@, r.1@, r.2 as int, r.3) == hscroll(cs@, mask@, w as int, c as int, false),
        r.2 < w,
        r.0@.len() == r.1@.len(),
        r.0@.len() <= cs@.len(),
{
    let mut c = c;
    let mut rest: Vec<char> = tail(cs, 0);
    let mut mrest: Vec<bool> = tail(mask, 0);
    let mut wrapped = false;
    proof {
        assert(rest@ =~= cs@);
        assert(mrest@ =~= mask@);
    }
    let ghost goal = hscroll(cs@, mask@, w as int, c as int, false);
    while width_of_chars(rest.as_slice(), mrest.as_slice()) >= w && c >= w
        invariant
            rest@.len() == mrest@.len(),
            rest@.len() <= cs@.len(),
            3 * cs@.len() <= usize::MAX,
            1 <= w,
            glyphs_fit(rest@, mrest@, w as int),
            c <= display_width_of(rest@, mrest@),
            hscroll(rest@, mrest@, w as int, c as int, wrapped) == goal,
        decreases rest@.len(),
    {
        wrapped = true;
        let (e, skipped) = fit_index(rest.as_slice(), mrest.as_slice(), w);
        proof {
            lemma_fit_end_moves(rest@, mrest@, w as int);
        }
        if e < rest.len() {
            proof {
                lemma_width_split(rest@, mrest@, e as int, rest@.len() as int);
            }
            let ghost (r0, m0) = (rest@, mrest@);
            rest = tail(rest.as_slice(), e);
            mrest = tail(mrest.as_slice(), e);
            c = c - skipped;
            assert forall|k: int| 0 <= k < rest@.len() && #[trigger] mrest@[k] implies columns(
                rest@[k],
            ) <= w by {
                assert(mrest@[k] == m0[k + e]);
                assert(rest@[k] == r0[k + e]);
            }
        } else {
            rest = Vec::new();
            mrest = Vec::new();
            c = 0;
            assert(display_width_of(rest@, mrest@) == 0);
        }
    }
    (rest, mrest, c, wrapped)
}

/// The one-row input area: the input scrolls sideways behind a `>` when
/// the cursor passes the right edge, instead of wrapping. Cutting only
/// ever happens just before a printed character, where a terminal parser
/// is at rest, so the printable mask of the whole input holds of every
/// piece of it. (A glyph wider than the area could never be scrolled
/// past, so the area must hold every glyph.)
pub(crate) fn input_single_row(input: &str, pos: usize, width: u16, mask: &[bool]) -> (r: InputAreaView)
    requires
        mask@.len() == input@.len(),
        3 * input@.len() <= usize::MAX,
        1 <= width,
        glyphs_fit(input@, mask@, width as int),
        width as int + 4 <= u16::MAX,
    ensures
        is_single_row_view(r, input@, mask@, pos as int, width as int),
{
    let cs = chars_of(input);
    let cur: usize = if pos < cs.len() {
        pos
    } else {
        cs.len()
    };
    let mut c: usize = 0;
    let mut i: usize = 0;
    while i < cur
        invariant
            cs@ == input@,
            mask@.len() == input@.len(),
            3 * input@.len() <= usize::MAX,
            cur <= cs@.len(),
            i <= cur,
            c == width_upto(input@, mask@, i as int),
            c <= 3 * i,
        decreases cur - i,
    {
        if mask[i] {
            c = c + crate::display::char_columns(cs[i]);
        }
        i += 1;
    }
    let w: usize = width as usize;
    proof {
        lemma_width_upto_monotone(input@, mask@, cur as int, input@.len() as int);
    }
    let (rest, mrest, c, wrapped) = scroll_to_cursor(cs.as_slice(), mask, w, c);
    let eff: usize = if wrapped {
        w - 1
    } else {
        w
    };
    let shown: Vec<char> = if width_of_chars(rest.as_slice(), mrest.as_slice()) >= eff {
        let (e, _) = fit_index(rest.as_slice(), mrest.as_slice(), eff);
        head(rest.as_slice(), e)
    } else {
        tail(rest.as_slice(), 0)
    };
    assert(rest@.subrange(0, rest@.len() as int) =~= rest@);
    let offset: u16 = if wrapped {
        2
    } else {
        1
    };
    let mut lines: Vec<String> = Vec::new();
    lines.push(string_of(shown.as_slice()));
    InputAreaView { lines, cursor_row: 0, cursor_col: c as u16 + offset, scrolled: wrapped }
}

/// The input area: rows that wrap when it is taller than one row, else
/// the one row that scrolls sideways.
pub(crate) fn input_area_masked(
    input: &str,
    pos: usize,
    width: u16,
    input_height: u16,
    auto_expand: bool,
    mask: &[bool],
) -> (r: InputAreaView)
    requires
        mask@.len() == input@.len(),
        3 * input@.len() <= usize::MAX,
        width as int + 4 <= u16::MAX,
        input_height <= INPUT_HEIGHT_MIN ==> 1 <= width && glyphs_fit(input@, mask@, width as int),
    ensures
        input_height > INPUT_HEIGHT_MIN ==> is_rows_view(
            r,
            input@,
            mask@,
            pos as int,
            width as int,
            input_height as int,
            auto_expand,
        ),
        input_height <= INPUT_HEIGHT_MIN ==> is_single_row_view(
            r,
            input@,
            mask@,
            pos as int,
            width as int,
        ),
{
    if input_height > INPUT_HEIGHT_MIN {
        input_area_rows(input, pos, width, input_height, auto_expand, mask)
    } else {
        input_single_row(input, pos, width, mask)
    }
}

/// Whether every printed character of `cs` fits in `width` columns.
pub(crate) fn glyphs_fit_check(cs: &[char], mask: &[bool], width: u16) -> (r: bool)
    requires
        mask@.len() == cs@.len(),
    ensures
        r == glyphs_fit(cs@, mask@, width as int),
{
    let mut i: usize = 0;
    while i < cs.len()
        invariant
            i <= cs@.len(),
            mask@.len() == cs@.len(),
            forall|j: int| 0 <= j < i && #[trigger] mask@[j] ==> columns(cs@[j]) <= width,
        decreases cs@.len() - i,
    {
        if mask[i] && char_columns(cs[i]) > width as usize {
            return false;
        }
        i += 1;
    }
    true
}

/// The input area's view of `input` with the cursor `pos` characters in,
/// on `width` columns and `input_height` rows (see `is_rows_view` and
/// `is_single_row_view`), measured over what the terminal prints of the
/// input. A single-row area narrower than a character of the input cannot
/// show it: then there is no view.
pub fn input_area(
    input: &str,
    pos: usize,
    width: u16,
    input_height: u16,
    auto_expand: bool,
) -> (r: Option<InputAreaView>)
    requires
        3 * input@.len() <= usize::MAX,
        width as int + 4 <= u16::MAX,
    ensures
        ({
            let mask = printable_mask_of(input@);
            &&& r is None <==> (input_height <= INPUT_HEIGHT_MIN && !(1 <= width && glyphs_fit(
                input@,
                mask,
                width as int,
            )))
            &&& r matches Some(v) ==> {
                &&& input_height > INPUT_HEIGHT_MIN ==> is_rows_view(
                    v,
                    input@,
                    mask,
                    pos as int,
                    width as int,
                    input_height as int,
                    auto_expand,
                )
                &&& input_height <= INPUT_HEIGHT_MIN ==> is_single_row_view(
                    v,
                    input@,
                    mask,
                    pos as int,
                    width as int,
                )
            }
        }),
{
    let mask = printable_mask(input);
    if input_height <= INPUT_HEIGHT_MIN {
        let cs = chars_of(input);
        if width < 1 || !glyphs_fit_check(cs.as_slice(), mask.as_slice(), width) {
            return None;
        }
    }
    Some(input_area_masked(input, pos, width, input_height, auto_expand, mask.as_slice()))
}

} // verus!
