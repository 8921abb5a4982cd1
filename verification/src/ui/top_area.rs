//! The rows above the output area: an ordered, addressable list with two
//! built-in rows (the tab indicator and the host status bar).
use vstd::prelude::*;
use crate::text::{lemma_decimal_injective, push_decimal, spec_decimal, str_eq, string_of};
use vstd::set_lib::{lemma_int_range, lemma_len_subset, set_int_range};

verus! {

/// Name of the built-in tab indicator row.
pub const TAB_INDICATOR: &'static str = "tab_indicator";

/// Name of the built-in host status row.
pub const HOST_STATUS: &'static str = "host_status";

/// Visual style applied to a row's prefix.
#[derive(Debug, Clone, Copy, PartialEq, Eq, Structural)]
pub enum TopPrefixStyle {
    /// Plain green text between bar characters.
    Plain,
    /// Bold text framed by bar segments.
    Brand,
}

/// Optional decorative leader on a row.
#[derive(Debug, PartialEq, Eq)]
pub struct TopPrefix {
    pub text: String,
    pub style: TopPrefixStyle,
}

impl Clone for TopPrefix {
    fn clone(&self) -> (r: Self)
        ensures
            r == *self,
    {
        TopPrefix { text: self.text.clone(), style: self.style }
    }
}

/// The content slot of a row.
#[derive(Debug, PartialEq, Eq)]
pub enum TopRowBody {
    /// Literal user-supplied text.
    Text(String),
    /// The active connection's `host:port` and tags.
    HostTags,
    /// The tabs segment.
    TabIndicator,
    /// An unbroken bar.
    Empty,
}

impl Clone for TopRowBody {
    fn clone(&self) -> (r: Self)
        ensures
            r == *self,
    {
        match self {
            TopRowBody::Text(s) => TopRowBody::Text(s.clone()),
            TopRowBody::HostTags => TopRowBody::HostTags,
            TopRowBody::TabIndicator => TopRowBody::TabIndicator,
            TopRowBody::Empty => TopRowBody::Empty,
        }
    }
}

/// A single addressable row in the top area.
#[derive(Debug)]
pub struct TopRow {
    /// Unique name used for addressing.
    pub name: String,
    pub bar_char: char,
    pub prefix: Option<TopPrefix>,
    pub body: TopRowBody,
    /// Hidden rows take no terminal line.
    pub visible: bool,
}

impl Clone for TopRow {
    fn clone(&self) -> (r: Self)
        ensures
            r == *self,
    {
        TopRow {
            name: self.name.clone(),
            bar_char: self.bar_char,
            prefix: match &self.prefix {
                Some(p) => Some(p.clone()),
                None => None,
            },
            body: self.body.clone(),
            visible: self.visible,
        }
    }
}

/// How a row is addressed: by zero-based index (hidden rows counted) or by
/// name.
#[derive(Debug, PartialEq, Eq)]
pub enum TopRowSelector {
    Index(usize),
    Name(String),
}

/// Partial update to a row's fields; `None` leaves a field unchanged.
/// `prefix: Some(None)` removes the prefix.
#[derive(Debug, PartialEq, Eq)]
pub struct TopRowOpts {
    pub name: Option<String>,
    pub bar_char: Option<char>,
    pub prefix: Option<Option<TopPrefix>>,
    pub body: Option<TopRowBody>,
    pub visible: Option<bool>,
}

impl Default for TopRowOpts {
    fn default() -> (r: Self)
        ensures
            r.name is None && r.bar_char is None && r.prefix is None && r.body is None
                && r.visible is None,
    {
        TopRowOpts { name: None, bar_char: None, prefix: None, body: None, visible: None }
    }
}

/// Number of visible rows among `rows`.
pub open spec fn count_visible(rows: Seq<TopRow>) -> int
    decreases rows.len(),
{
    if rows.len() == 0 {
        0
    } else {
        count_visible(rows.drop_last()) + if rows.last().visible {
            1int
        } else {
            0
        }
    }
}

/// Whether a row of this name is one of the built-in rows.
pub open spec fn is_builtin_name(name: Seq<char>) -> bool {
    name == TAB_INDICATOR@ || name == HOST_STATUS@
}

/// The name given to the `i`-th automatically named row.
pub open spec fn custom_name(i: nat) -> Seq<char> {
    seq!['c', 'u', 's', 't', 'o', 'm', '_'] + spec_decimal(i)
}

/// The row `opts` turns `row` into.
pub open spec fn patched(row: TopRow, opts: TopRowOpts) -> TopRow {
    TopRow {
        name: match opts.name {
            Some(n) => n,
            None => row.name,
        },
        bar_char: match opts.bar_char {
            Some(c) => c,
            None => row.bar_char,
        },
        prefix: match opts.prefix {
            Some(p) => p,
            None => row.prefix,
        },
        body: match opts.body {
            Some(b) => b,
            None => row.body,
        },
        visible: match opts.visible {
            Some(v) => v,
            None => row.visible,
        },
    }
}

/// Index of the first row named `name`, if any.
pub open spec fn first_named(rows: Seq<TopRow>, name: Seq<char>) -> Option<int> {
    if exists|i: int| 0 <= i < rows.len() && (#[trigger] rows[i]).name@ == name {
        Some(choose|i: int| 0 <= i < rows.len() && (#[trigger] rows[i]).name@ == name && forall|j: int| 0 <= j < i ==> (#[trigger] rows[j]).name@ != name)
    } else {
        None
    }
}

#[derive(Debug)]
pub struct TopArea {
    rows: Vec<TopRow>,
}

impl TopArea {
    /// The rows, in order.
    pub closed spec fn spec_rows(&self) -> Seq<TopRow> {
        self.rows@
    }

    /// The default layout: the tab indicator row (hidden until there are
    /// tabs) and then the host status row.
    pub fn new_default() -> (r: TopArea)
        ensures
            r.spec_rows().len() == 2,
            r.spec_rows()[0].name@ == TAB_INDICATOR@,
            r.spec_rows()[0].body == TopRowBody::TabIndicator,
            !r.spec_rows()[0].visible,
            r.spec_rows()[0].bar_char == '═',
            r.spec_rows()[0].prefix matches Some(p) && p.style == TopPrefixStyle::Brand && p.text@
                == " Blightmud "@,
            r.spec_rows()[1].name@ == HOST_STATUS@,
            r.spec_rows()[1].body == TopRowBody::HostTags,
            r.spec_rows()[1].visible,
            r.spec_rows()[1].bar_char == '═',
            r.spec_rows()[1].prefix is None,
    {
        let mut rows: Vec<TopRow> = Vec::new();
        rows.push(
            TopRow {
                name: TAB_INDICATOR.to_owned(),
                bar_char: '═',
                prefix: Some(
                    TopPrefix { text: " Blightmud ".to_owned(), style: TopPrefixStyle::Brand },
                ),
                body: TopRowBody::TabIndicator,
                visible: false,
            },
        );
        rows.push(
            TopRow {
                name: HOST_STATUS.to_owned(),
                bar_char: '═',
                prefix: None,
                body: TopRowBody::HostTags,
                visible: true,
            },
        );
        TopArea { rows }
    }

    /// The rows, in order.
    pub fn rows(&self) -> (r: &[TopRow])
        ensures
            r@ == self.spec_rows(),
    {
        self.rows.as_slice()
    }

    /// Replaces the row at `idx`.
    pub fn set_row(&mut self, idx: usize, row: TopRow)
        requires
            idx < old(self).spec_rows().len(),
        ensures
            final(self).spec_rows() == old(self).spec_rows().update(idx as int, row),
    {
        self.rows.set(idx, row);
    }

    /// Index of the first row named `name`.
    pub fn find(&self, name: &str) -> (r: Option<usize>)
        ensures
            match r {
                Some(i) => i < self.spec_rows().len() && self.spec_rows()[i as int].name@ == name@
                    && forall|j: int| 0 <= j < i ==> (#[trigger] self.spec_rows()[j]).name@ != name@,
                None => forall|j: int|
                    0 <= j < self.spec_rows().len() ==> (#[trigger] self.spec_rows()[j]).name@
                        != name@,
            },
    {
        let mut i: usize = 0;
        while i < self.rows.len()
            invariant
                i <= self.rows@.len(),
                forall|j: int| 0 <= j < i ==> (#[trigger] self.rows@[j]).name@ != name@,
            decreases self.rows@.len() - i,
        {
            if str_eq(self.rows[i].name.as_str(), name) {
                return Some(i);
            }
            i += 1;
        }
        None
    }

    /// The row at `idx`, if any.
    pub fn get(&self, idx: usize) -> (r: Option<&TopRow>)
        ensures
            match r {
                Some(row) => idx < self.spec_rows().len() && *row == self.spec_rows()[idx as int],
                None => idx >= self.spec_rows().len(),
            },
    {
        if idx < self.rows.len() {
            Some(&self.rows[idx])
        } else {
            None
        }
    }

    /// Number of visible rows, as a row count (wrapping at `u16::MAX`).
    pub fn visible_row_count(&self) -> (r: u16)
        ensures
            r == (count_visible(self.spec_rows()) as u16),
    {
        let mut count: usize = 0;
        let mut i: usize = 0;
        while i < self.rows.len()
            invariant
                i <= self.rows@.len(),
                count == count_visible(self.rows@.take(i as int)),
                count <= i,
            decreases self.rows@.len() - i,
        {
            assert(self.rows@.take(i + 1).drop_last() =~= self.rows@.take(i as int));
            if self.rows[i].visible {
                count += 1;
            }
            i += 1;
        }
        assert(self.rows@.take(self.rows@.len() as int) =~= self.rows@);
        count as u16
    }

    /// Resolves a selector to a row index.
    pub fn resolve(&self, sel: &TopRowSelector) -> (r: Option<usize>)
        ensures
            match sel {
                TopRowSelector::Index(i) => r == if *i < self.spec_rows().len() {
                    Some(*i)
                } else {
                    None
                },
                TopRowSelector::Name(name) => match r {
                    Some(i) => i < self.spec_rows().len() && self.spec_rows()[i as int].name@
                        == name@ && forall|j: int|
                        0 <= j < i ==> (#[trigger] self.spec_rows()[j]).name@ != name@,
                    None => forall|j: int|
                        0 <= j < self.spec_rows().len() ==> (#[trigger] self.spec_rows()[j]).name@
                            != name@,
                },
            },
    {
        match sel {
            TopRowSelector::Index(i) => {
                if *i < self.rows.len() {
                    Some(*i)
                } else {
                    None
                }
            },
            TopRowSelector::Name(name) => self.find(name.as_str()),
        }
    }

    /// Applies `opts` to the row at `idx`; returns whether the row's
    /// visibility changed. Nothing happens when there is no such row.
    pub fn apply_opts(&mut self, idx: usize, opts: TopRowOpts) -> (r: bool)
        ensures
            idx < old(self).spec_rows().len() ==> {
                &&& final(self).spec_rows() == old(self).spec_rows().update(
                    idx as int,
                    patched(old(self).spec_rows()[idx as int], opts),
                )
                &&& r == (opts.visible matches Some(v) && v != old(
                    self,
                ).spec_rows()[idx as int].visible)
            },
            idx >= old(self).spec_rows().len() ==> !r && final(self).spec_rows() == old(
                self,
            ).spec_rows(),
    {
        if idx >= self.rows.len() {
            return false;
        }
        let mut row = self.rows[idx].clone();
        let mut visibility_changed = false;
        let TopRowOpts { name, bar_char, prefix, body, visible } = opts;
        if let Some(n) = name {
            row.name = n;
        }
        if let Some(c) = bar_char {
            row.bar_char = c;
        }
        if let Some(p) = prefix {
            row.prefix = p;
        }
        if let Some(b) = body {
            row.body = b;
        }
        if let Some(v) = visible {
            if row.visible != v {
                visibility_changed = true;
            }
            row.visible = v;
        }
        self.rows.set(idx, row);
        visibility_changed
    }
}


impl TopArea {
    /// The rows, for editing in place.
    pub fn rows_mut(&mut self) -> (r: &mut Vec<TopRow>)
        ensures
            r@ == old(self).spec_rows(),
            final(self).spec_rows() == final(r)@,
    {
        &mut self.rows
    }

    /// The row at `idx`, for editing in place.
    pub fn get_mut(&mut self, idx: usize) -> (r: Option<&mut TopRow>)
        ensures
            match r {
                Some(row) => {
                    &&& idx < old(self).spec_rows().len()
                    &&& *row == old(self).spec_rows()[idx as int]
                    &&& final(self).spec_rows() == old(self).spec_rows().update(
                        idx as int,
                        *final(row),
                    )
                },
                None => idx >= old(self).spec_rows().len() && final(self).spec_rows() == old(
                    self,
                ).spec_rows(),
            },
    {
        if idx < self.rows.len() {
            Some(&mut self.rows[idx])
        } else {
            None
        }
    }

    /// Restores a built-in row's body to its dynamic default; other rows are
    /// left alone.
    pub fn reset_body(&mut self, idx: usize)
        ensures
            idx < old(self).spec_rows().len() ==> final(self).spec_rows() == if old(
                self,
            ).spec_rows()[idx as int].name@ == TAB_INDICATOR@ {
                old(self).spec_rows().update(
                    idx as int,
                    TopRow { body: TopRowBody::TabIndicator, ..old(self).spec_rows()[idx as int] },
                )
            } else if old(self).spec_rows()[idx as int].name@ == HOST_STATUS@ {
                old(self).spec_rows().update(
                    idx as int,
                    TopRow { body: TopRowBody::HostTags, ..old(self).spec_rows()[idx as int] },
                )
            } else {
                old(self).spec_rows()
            },
            idx >= old(self).spec_rows().len() ==> final(self).spec_rows() == old(
                self,
            ).spec_rows(),
    {
        if idx >= self.rows.len() {
            return;
        }
        let mut row = self.rows[idx].clone();
        if str_eq(row.name.as_str(), TAB_INDICATOR) {
            row.body = TopRowBody::TabIndicator;
            self.rows.set(idx, row);
        } else if str_eq(row.name.as_str(), HOST_STATUS) {
            row.body = TopRowBody::HostTags;
            self.rows.set(idx, row);
        }
    }

    /// Removes the row at `idx` unless it is one of the built-in rows;
    /// returns whether a row was removed.
    pub fn remove_row(&mut self, idx: usize) -> (r: bool)
        ensures
            r == (idx < old(self).spec_rows().len() && !is_builtin_name(
                old(self).spec_rows()[idx as int].name@,
            )),
            final(self).spec_rows() == if r {
                old(self).spec_rows().remove(idx as int)
            } else {
                old(self).spec_rows()
            },
    {
        if idx >= self.rows.len() {
            return false;
        }
        if str_eq(self.rows[idx].name.as_str(), TAB_INDICATOR) || str_eq(
            self.rows[idx].name.as_str(),
            HOST_STATUS,
        ) {
            return false;
        }
        self.rows.remove(idx);
        true
    }

    /// The 1-based screen line of row `idx`, counting visible rows from
    /// `start_line`; 0 for a hidden or missing row.
    pub fn screen_line(&self, idx: usize, start_line: u16) -> (r: u16)
        requires
            start_line + count_visible(self.spec_rows()) <= u16::MAX,
        ensures
            r == if idx >= self.spec_rows().len() || !self.spec_rows()[idx as int].visible {
                0
            } else {
                start_line + count_visible(self.spec_rows().take(idx as int))
            },
    {
        if idx >= self.rows.len() || !self.rows[idx].visible {
            return 0;
        }
        proof {
            lemma_count_visible_prefix(self.rows@, idx as int);
        }
        let mut line = start_line;
        let mut i: usize = 0;
        while i < idx
            invariant
                i <= idx < self.rows@.len(),
                line == start_line + count_visible(self.rows@.take(i as int)),
                start_line + count_visible(self.rows@.take(idx as int)) <= u16::MAX,
            decreases idx - i,
        {
            assert(self.rows@.take(i + 1).drop_last() =~= self.rows@.take(i as int));
            proof {
                lemma_count_visible_prefix(self.rows@.take(idx as int), i + 1);
                assert(self.rows@.take(idx as int).take(i + 1) =~= self.rows@.take(i + 1));
            }
            if self.rows[i].visible {
                line += 1;
            }
            i += 1;
        }
        line
    }
}

/// Every automatic name `custom_{m}` with `lo <= m < hi` is already taken by
/// some row.
pub open spec fn custom_names_taken(rows: Seq<TopRow>, lo: nat, hi: nat) -> bool {
    forall|m: nat|
        #![trigger custom_name(m)]
        lo <= m < hi ==> exists|j: int| 0 <= j < rows.len() && (#[trigger] rows[j]).name@ == custom_name(m)
}

/// Whether no row is named `name`.
pub open spec fn name_unused(rows: Seq<TopRow>, name: Seq<char>) -> bool {
    forall|j: int| 0 <= j < rows.len() ==> (#[trigger] rows[j]).name@ != name
}

/// The name `add_row` gives a row when none is supplied: the first
/// `custom_{i}`, counting from the number of rows, that no row has yet.
pub open spec fn is_fresh_custom_name(rows: Seq<TopRow>, name: Seq<char>) -> bool {
    exists|k: nat|
        #![trigger custom_name(k)]
        {
            &&& rows.len() <= k
            &&& name == custom_name(k)
            &&& name_unused(rows, name)
            &&& custom_names_taken(rows, rows.len(), k)
        }
}

/// The row `add_row` appends for `opts`, given its name.
pub open spec fn new_row(opts: TopRowOpts, name: String) -> TopRow {
    TopRow {
        name,
        bar_char: match opts.bar_char {
            Some(c) => c,
            None => '═',
        },
        prefix: match opts.prefix {
            Some(p) => p,
            None => None,
        },
        body: match opts.body {
            Some(b) => b,
            None => TopRowBody::Empty,
        },
        visible: match opts.visible {
            Some(v) => v,
            None => true,
        },
    }
}

/// Two automatic names are equal only for the same number.
pub proof fn lemma_custom_name_injective(a: nat, b: nat)
    requires
        custom_name(a) == custom_name(b),
    ensures
        a == b,
{
    assert(custom_name(a).skip(7) =~= spec_decimal(a));
    assert(custom_name(b).skip(7) =~= spec_decimal(b));
    lemma_decimal_injective(a, b);
}

impl TopArea {
    /// Appends a row built from `opts` and returns its index. A row without a
    /// name is given the first `custom_{i}`, counting from the number of
    /// rows, that is not taken.
    pub fn add_row(&mut self, opts: TopRowOpts) -> (r: usize)
        requires
            old(self).spec_rows().len() < usize::MAX / 2,
        ensures
            r == old(self).spec_rows().len(),
            final(self).spec_rows().len() == old(self).spec_rows().len() + 1,
            final(self).spec_rows().drop_last() == old(self).spec_rows(),
            ({
                let row = final(self).spec_rows().last();
                &&& row == new_row(opts, row.name)
                &&& match opts.name {
                    Some(n) => row.name == n,
                    None => is_fresh_custom_name(old(self).spec_rows(), row.name@),
                }
            }),
    {
        let TopRowOpts { name, bar_char, prefix, body, visible } = opts;
        let mut row = TopRow {
            name: String::new(),
            bar_char: '═',
            prefix: None,
            body: TopRowBody::Empty,
            visible: true,
        };
        if let Some(n) = name {
            row.name = n;
        } else {
            row.name = self.fresh_name();
        }
        if let Some(c) = bar_char {
            row.bar_char = c;
        }
        if let Some(p) = prefix {
            row.prefix = p;
        }
        if let Some(b) = body {
            row.body = b;
        }
        if let Some(v) = visible {
            row.visible = v;
        }
        let idx = self.push_row(row);
        assert(self.spec_rows().drop_last() =~= old(self).spec_rows());
        idx
    }

    fn push_row(&mut self, row: TopRow) -> (r: usize)
        requires
            old(self).spec_rows().len() < usize::MAX / 2,
        ensures
            final(self).spec_rows() == old(self).spec_rows().push(row),
            r == old(self).spec_rows().len(),
    {
        let idx = self.rows.len();
        self.rows.push(row);
        idx
    }

    fn fresh_name(&self) -> (r: String)
        requires
            self.spec_rows().len() < usize::MAX / 2,
        ensures
            is_fresh_custom_name(self.spec_rows(), r@),
    {
        let n = self.rows.len();
        let mut i: usize = n;
        let ghost mut taken: Set<int> = Set::empty();
        loop
            invariant
                n == self.rows@.len(),
                n <= i <= 2 * n,
                n < usize::MAX / 2,
                taken.finite(),
                taken.len() == i - n,
                forall|k: int| #[trigger] taken.contains(k) ==> 0 <= k < n && exists|m: nat|
                    n <= m < i && self.rows@[k].name@ == custom_name(m),
                custom_names_taken(self.rows@, n as nat, i as nat),
            decreases 2 * n + 1 - i,
        {
            let mut cs: Vec<char> = Vec::new();
            cs.push('c');
            cs.push('u');
            cs.push('s');
            cs.push('t');
            cs.push('o');
            cs.push('m');
            cs.push('_');
            push_decimal(&mut cs, i as u64);
            assert(cs@ =~= custom_name(i as nat));
            let candidate = string_of(cs.as_slice());
            match self.find(candidate.as_str()) {
                None => {
                    assert(is_fresh_custom_name(self.rows@, candidate@)) by {
                        let k = i as nat;
                        assert(custom_name(k) == candidate@);
                        assert(name_unused(self.rows@, candidate@));
                        assert(custom_names_taken(self.rows@, self.rows@.len(), k));
                    }
                    return candidate;
                },
                Some(k) => {
                    proof {
                        if taken.contains(k as int) {
                            let m = choose|m: nat|
                                n <= m < i && self.rows@[k as int].name@ == custom_name(m);
                            lemma_custom_name_injective(m, i as nat);
                            assert(false);
                        }
                        let old_taken = taken;
                        taken = taken.insert(k as int);
                        assert forall|kk: int| #[trigger] taken.contains(kk) implies 0 <= kk < n
                            && exists|m: nat| n <= m < i + 1 && self.rows@[kk].name@ == custom_name(
                            m,
                        ) by {
                            if kk == k {
                                assert(self.rows@[kk].name@ == custom_name(i as nat));
                            } else {
                                assert(old_taken.contains(kk));
                            }
                        }
                        assert(taken.subset_of(set_int_range(0, n as int)));
                        lemma_int_range(0, n as int);
                        lemma_len_subset(taken, set_int_range(0, n as int));
                        assert forall|m: nat| #![trigger custom_name(m)] n <= m < i + 1 implies exists|j: int|
                            0 <= j < n && (#[trigger] self.rows@[j]).name@ == custom_name(m) by {
                            if m == i {
                                assert(self.rows@[k as int].name@ == custom_name(m));
                            } else {
                                assert(n <= m < i);
                            }
                        }
                        assert(custom_names_taken(self.rows@, n as nat, (i + 1) as nat));
                    }
                    i = i + 1;
                },
            }
        }
    }
}

/// Visible rows among a prefix never outnumber those of the whole list.
pub proof fn lemma_count_visible_prefix(rows: Seq<TopRow>, n: int)
    requires
        0 <= n <= rows.len(),
    ensures
        0 <= count_visible(rows.take(n)) <= count_visible(rows),
        count_visible(rows) <= rows.len(),
    decreases rows.len(),
{
    if rows.len() > 0 {
        if n == rows.len() {
            assert(rows.take(n) =~= rows);
            lemma_count_visible_prefix(rows.drop_last(), n - 1);
        } else {
            lemma_count_visible_prefix(rows.drop_last(), n);
            assert(rows.drop_last().take(n) =~= rows.take(n));
        }
    }
}
} // verus!
