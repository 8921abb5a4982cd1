//! The set of tabs: creation, filters, routing of output lines, and the
//! two-step protocol that swaps the scrollback the screen shows.
use vstd::prelude::*;
use crate::model::{clean_text, regex_compiles, regex_error_text, Line, Pattern};
use crate::tabs::tab::{
    is_new_tab, tab_matches, Tab, TabError, TabInfo, TabOpts, MAIN_TAB,
};
use crate::text::{chars_of, str_eq};
use crate::ui::history::{drained, History};

verus! {

/// What routing one line decided.
#[derive(Debug, PartialEq, Eq, Structural)]
pub struct RouteResult {
    /// The tab on screen takes the line, so the screen shows it.
    pub render_to_screen: bool,
    /// A tab not on screen took the line; the tab indicator is stale.
    pub indicator_dirty: bool,
}

/// All tabs, which one is on screen, and the destination of a switch in
/// progress.
pub struct TabSet {
    tabs: Vec<Tab>,
    active: usize,
    pending_dest: Option<usize>,
}

/// Whether a history is fit to take more lines.
pub open spec fn history_ok(h: History) -> bool {
    h.wf() && h.spec_drain_length() <= h.spec_capacity()
}

/// `u` plus one, stopping at the largest `u32`.
pub open spec fn sat_inc(u: u32) -> u32 {
    if u < u32::MAX {
        (u + 1) as u32
    } else {
        u
    }
}

/// `after` is `before` with `line` added: its scrollback (if it holds one)
/// gains the line and its unread count goes up.
pub open spec fn took_line(before: Tab, after: Tab, line: Line) -> bool {
    &&& after.name == before.name
    &&& after.label == before.label
    &&& after.shortcut == before.shortcut
    &&& after.gag_main == before.gag_main
    &&& after.filters == before.filters
    &&& after.excludes == before.excludes
    &&& after.unread == sat_inc(before.unread)
    &&& match before.history {
        None => after.history is None,
        Some(h) => after.history matches Some(h2) && {
            &&& history_ok(h2)
            &&& h2.all_lines() == drained(
                h.all_lines().push(line),
                h.spec_capacity(),
                h.spec_drain_length(),
            )
            &&& h2.mask() == h.mask()
            &&& h2.spec_capacity() == h.spec_capacity()
            &&& h2.spec_drain_length() == h.spec_drain_length()
        }
    }
}

/// Index of the tab named `name`, if any.
pub open spec fn index_of(tabs: Seq<Tab>, name: Seq<char>) -> Option<int> {
    if exists|i: int| 0 <= i < tabs.len() && (#[trigger] tabs[i]).name@ == name {
        Some(choose|i: int| 0 <= i < tabs.len() && (#[trigger] tabs[i]).name@ == name)
    } else {
        None
    }
}

/// Whether some tab other than `main` that takes `text` hides it from
/// `main`.
pub open spec fn gags_main(tabs: Seq<Tab>, text: Seq<char>) -> bool {
    exists|i: int|
        1 <= i < tabs.len() && tab_matches(#[trigger] tabs[i], text) && tabs[i].gag_main
}

/// Whether tab `i`, not on screen, takes a line of text `text`: `main`
/// takes every line no tab hides from it, another tab the lines it matches.
pub open spec fn takes_line(tabs: Seq<Tab>, active: int, text: Seq<char>, i: int) -> bool {
    &&& i != active
    &&& if i == 0 {
        !gags_main(tabs, text)
    } else {
        tab_matches(tabs[i], text)
    }
}

/// Every tab that takes the line got it; the others are unchanged.
pub open spec fn routed(
    before: Seq<Tab>,
    after: Seq<Tab>,
    active: int,
    text: Seq<char>,
    line: Line,
) -> bool {
    forall|i: int|
        0 <= i < before.len() ==> if takes_line(before, active, text, i) {
            took_line(before[i], #[trigger] after[i], line)
        } else {
            after[i] == before[i]
        }
}

/// Whether the tab on screen takes a line of text `text`.
pub open spec fn shown_on_screen(tabs: Seq<Tab>, active: int, text: Seq<char>) -> bool {
    if active == 0 {
        !gags_main(tabs, text)
    } else {
        tab_matches(tabs[active], text)
    }
}

/// With unique names, the tab found by a name is the one bearing it.
proof fn lemma_index_of_unique(tabs: Seq<Tab>, name: Seq<char>, i: int)
    requires
        0 <= i < tabs.len(),
        tabs[i].name@ == name,
        forall|x: int, y: int|
            0 <= x < y < tabs.len() ==> (#[trigger] tabs[x]).name@ != (#[trigger] tabs[y]).name@,
    ensures
        index_of(tabs, name) == Some(i),
{
    let j = choose|j: int| 0 <= j < tabs.len() && (#[trigger] tabs[j]).name@ == name;
    if j < i {
        assert(tabs[j].name@ != tabs[i].name@);
    } else if j > i {
        assert(tabs[i].name@ != tabs[j].name@);
    }
}

/// The first step of a switch to the tab named `dest` took `before` to
/// `after` and answered `r` (see `TabSet::take_for_switch`).
pub open spec fn switch_taken(
    before: TabSet,
    after: TabSet,
    dest: Seq<char>,
    r: Result<Option<History>, TabError>,
) -> bool {
    &&& after.spec_tabs().len() == before.spec_tabs().len()
    &&& after.spec_active() == before.spec_active()
    &&& match index_of(before.spec_tabs(), dest) {
        None => r matches Err(TabError::Missing(n)) && n@ == dest && after.spec_tabs()
            == before.spec_tabs() && after.spec_pending() == before.spec_pending(),
        Some(i) => if i == before.spec_active() {
            r matches Ok(None) && after.spec_tabs() == before.spec_tabs()
                && after.spec_pending() == before.spec_pending()
        } else {
            &&& r matches Ok(Some(h)) && before.spec_tabs()[i].history == Some(h)
            &&& after.spec_tabs()[i] == Tab {
                history: None,
                unread: 0,
                ..before.spec_tabs()[i]
            }
            &&& forall|j: int|
                0 <= j < before.spec_tabs().len() && j != i ==> (#[trigger] after.spec_tabs()[j])
                    == before.spec_tabs()[j]
            &&& after.spec_pending() matches Some(p) && p as int == i
        },
    }
}

/// The second step of a switch, handing back the screen's scrollback
/// `old_hist`, took `before` to `after` and answered `r` (see
/// `TabSet::complete_switch`).
pub open spec fn switch_completed(
    before: TabSet,
    after: TabSet,
    old_hist: History,
    r: Result<(), TabError>,
) -> bool {
    &&& after.spec_tabs().len() == before.spec_tabs().len()
    &&& after.spec_pending() is None
    &&& match before.spec_pending() {
        None => r matches Err(TabError::Missing(n)) && n@ == "no pending switch"@
            && after.spec_tabs() == before.spec_tabs() && after.spec_active()
            == before.spec_active(),
        Some(d) => {
            let a = before.spec_active();
            &&& r is Ok
            &&& after.spec_active() == d
            &&& after.spec_tabs() == before.spec_tabs().update(
                a,
                Tab { history: Some(old_hist), ..before.spec_tabs()[a] },
            )
        },
    }
}

/// Switching from the tab on screen to another one and back is a round
/// trip: the destination's scrollback is handed out for the screen, the
/// screen's scrollback is kept for the tab that was on screen, and
/// switching back hands that same scrollback out again and puts the first
/// tab back on screen.
pub proof fn lemma_switch_round_trip(
    s0: TabSet,
    s1: TabSet,
    s2: TabSet,
    s3: TabSet,
    s4: TabSet,
    dest: Seq<char>,
    back: Seq<char>,
    screen: History,
    shown: History,
    r1: Result<Option<History>, TabError>,
    r2: Result<(), TabError>,
    r3: Result<Option<History>, TabError>,
    r4: Result<(), TabError>,
)
    requires
        s0.wf(),
        s0.spec_pending() is None,
        index_of(s0.spec_tabs(), dest) matches Some(d) && d != s0.spec_active(),
        back == s0.spec_tabs()[s0.spec_active()].name@,
        switch_taken(s0, s1, dest, r1),
        s1.wf(),
        switch_completed(s1, s2, screen, r2),
        s2.wf(),
        switch_taken(s2, s3, back, r3),
        s3.wf(),
        switch_completed(s3, s4, shown, r4),
    ensures
        r1 matches Ok(Some(h)) && s0.spec_tabs()[index_of(s0.spec_tabs(), dest).unwrap()].history
            == Some(h),
        r2 is Ok,
        s2.spec_active() == index_of(s0.spec_tabs(), dest).unwrap(),
        r3 == Ok::<Option<History>, TabError>(Some(screen)),
        r4 is Ok,
        s4.spec_active() == s0.spec_active(),
        s4.spec_tabs().len() == s0.spec_tabs().len(),
{
    let d = index_of(s0.spec_tabs(), dest).unwrap();
    let a = s0.spec_active();
    assert(s1.spec_tabs()[a] == s0.spec_tabs()[a]);
    assert(s2.spec_tabs()[a].name == s0.spec_tabs()[a].name);
    assert forall|i: int| 0 <= i < s2.spec_tabs().len() implies (#[trigger] s2.spec_tabs()[i]).name
        == s0.spec_tabs()[i].name by {
        if i != d {
            assert(s1.spec_tabs()[i] == s0.spec_tabs()[i]);
        }
    }
    lemma_index_of_unique(s2.spec_tabs(), back, a);
}

impl TabSet {
    /// The tabs, in order of creation; `main` first.
    pub closed spec fn spec_tabs(&self) -> Seq<Tab> {
        self.tabs@
    }

    /// Index of the tab on screen.
    pub closed spec fn spec_active(&self) -> int {
        self.active as int
    }

    /// Destination of a switch that was started and not completed.
    pub closed spec fn spec_pending(&self) -> Option<usize> {
        self.pending_dest
    }

    /// `main` comes first and no other tab bears its name; names are
    /// unique; the indices in use are in range; every held scrollback can
    /// take lines.
    pub closed spec fn wf(&self) -> bool {
        &&& self.tabs@.len() >= 1
        &&& self.tabs@[0].name@ == MAIN_TAB@
        &&& forall|i: int, j: int|
            0 <= i < j < self.tabs@.len() ==> (#[trigger] self.tabs@[i]).name@ != (
            #[trigger] self.tabs@[j]).name@
        &&& self.active < self.tabs@.len()
        &&& self.pending_dest matches Some(d) ==> d < self.tabs@.len()
        &&& forall|i: int|
            0 <= i < self.tabs@.len() ==> ((#[trigger] self.tabs@[i]).history matches Some(h)
                ==> history_ok(h))
    }

    /// Only `main`, on screen, with its scrollback in the screen.
    pub fn new() -> (r: TabSet)
        ensures
            r.wf(),
            r.spec_tabs().len() == 1,
            r.spec_tabs()[0].name@ == MAIN_TAB@,
            r.spec_tabs()[0].label@ == MAIN_TAB@,
            r.spec_tabs()[0].history is None,
            r.spec_tabs()[0].unread == 0,
            !r.spec_tabs()[0].gag_main,
            r.spec_active() == 0,
            r.spec_pending() is None,
    {
        let mut main = Tab::new_main();
        main.history = None;
        let mut tabs: Vec<Tab> = Vec::new();
        tabs.push(main);
        TabSet { tabs, active: 0, pending_dest: None }
    }

    fn idx_of(&self, name: &str) -> (r: Option<usize>)
        requires
            self.wf(),
        ensures
            r matches Some(i) ==> i < self.spec_tabs().len() && self.spec_tabs()[i as int].name@
                == name@,
            r is None ==> forall|i: int|
                0 <= i < self.spec_tabs().len() ==> (#[trigger] self.spec_tabs()[i]).name@
                    != name@,
            r == match index_of(self.spec_tabs(), name@) {
                Some(i) => Some(i as usize),
                None => None::<usize>,
            },
    {
        let mut i: usize = 0;
        while i < self.tabs.len()
            invariant
                self.wf(),
                i <= self.tabs@.len(),
                forall|j: int| 0 <= j < i ==> (#[trigger] self.tabs@[j]).name@ != name@,
            decreases self.tabs@.len() - i,
        {
            if str_eq(self.tabs[i].name.as_str(), name) {
                proof {
                    let k = choose|k: int|
                        0 <= k < self.tabs@.len() && (#[trigger] self.tabs@[k]).name@ == name@;
                    if k != i {
                        if k < i {
                            assert(self.tabs@[k].name@ != name@);
                        } else {
                            assert(self.tabs@[i as int].name@ != self.tabs@[k].name@);
                        }
                    }
                }
                return Some(i);
            }
            i += 1;
        }
        None
    }

    /// Creates a tab named `name`. `main` is reserved, and names are unique.
    pub fn create(&mut self, name: &str, opts: TabOpts) -> (r: Result<(), TabError>)
        requires
            old(self).wf(),
        ensures
            final(self).wf(),
            name@ == MAIN_TAB@ ==> (r matches Err(TabError::Reserved(n)) && n@ == name@),
            name@ != MAIN_TAB@ && index_of(old(self).spec_tabs(), name@) is Some ==> (r matches Err(
                TabError::AlreadyExists(n),
            ) && n@ == name@),
            r is Err ==> final(self).spec_tabs() == old(self).spec_tabs(),
            r is Ok <==> name@ != MAIN_TAB@ && index_of(old(self).spec_tabs(), name@) is None,
            r is Ok ==> final(self).spec_tabs().len() == old(self).spec_tabs().len() + 1
                && final(self).spec_tabs().drop_last() == old(self).spec_tabs() && is_new_tab(
                final(self).spec_tabs().last(),
                name@,
                opts,
            ),
            final(self).spec_active() == old(self).spec_active(),
            final(self).spec_pending() == old(self).spec_pending(),
    {
        if str_eq(name, MAIN_TAB) {
            return Err(TabError::Reserved(name.to_owned()));
        }
        if self.idx_of(name).is_some() {
            return Err(TabError::AlreadyExists(name.to_owned()));
        }
        let tab = Tab::new(name, opts);
        let ghost t = tab;
        self.tabs.push(tab);
        proof {
            assert(self.tabs@.drop_last() =~= old(self).tabs@);
            assert forall|i: int, j: int|
                0 <= i < j < self.tabs@.len() implies (#[trigger] self.tabs@[i]).name@ != (
            #[trigger] self.tabs@[j]).name@ by {
                if j == self.tabs@.len() - 1 {
                    assert(old(self).tabs@[i].name@ != name@);
                } else {
                    assert(self.tabs@[i] == old(self).tabs@[i]);
                    assert(self.tabs@[j] == old(self).tabs@[j]);
                }
            }
        }
        Ok(())
    }

    /// Adds a routing pattern to the tab named `name`.
    pub fn add_filter(&mut self, name: &str, pattern: &str) -> (r: Result<(), TabError>)
        requires
            old(self).wf(),
        ensures
            final(self).wf(),
            final(self).spec_active() == old(self).spec_active(),
            final(self).spec_pending() == old(self).spec_pending(),
            match index_of(old(self).spec_tabs(), name@) {
                None => r matches Err(TabError::Missing(n)) && n@ == name@ && final(self).spec_tabs() == old(self).spec_tabs(),
                Some(i) => if regex_compiles(pattern@) {
                    r is Ok && final(self).spec_tabs().len() == old(self).spec_tabs().len()
                        && forall|j: int|
                        0 <= j < old(self).spec_tabs().len() && j != i ==> (#[trigger] final(self).spec_tabs()[j]) == old(self).spec_tabs()[j] && {
                        let (a, b) = (old(self).spec_tabs()[i], final(self).spec_tabs()[i]);
                        &&& b.filters@.len() == a.filters@.len() + 1
                        &&& b.filters@.drop_last() == a.filters@
                        &&& b.filters@.last()@ == pattern@
                        &&& b == Tab { filters: b.filters, ..a }
                    }
                } else {
                    r matches Err(TabError::BadRegex { name: n, err }) && n@ == name@ && err@
                        == regex_error_text(pattern@) && final(self).spec_tabs() == old(self).spec_tabs()
                },
            },
    {
        let idx = match self.idx_of(name) {
            Some(i) => i,
            None => {
                return Err(TabError::Missing(name.to_owned()));
            },
        };
        let re = match Pattern::new(pattern) {
            Ok(re) => re,
            Err(e) => {
                return Err(TabError::BadRegex { name: name.to_owned(), err: e.message });
            },
        };
        let ghost before = self.tabs@[idx as int];
        self.tabs[idx].filters.push(re);
        proof {
            assert(self.tabs@[idx as int].filters@.drop_last() =~= before.filters@);
            assert forall|i: int, j: int|
                0 <= i < j < self.tabs@.len() implies (#[trigger] self.tabs@[i]).name@ != (
            #[trigger] self.tabs@[j]).name@ by {
                assert(self.tabs@[i].name == old(self).tabs@[i].name);
                assert(self.tabs@[j].name == old(self).tabs@[j].name);
            }
        }
        Ok(())
    }

    /// Sets the label of the tab named `name`.
    pub fn set_label(&mut self, name: &str, label: &str) -> (r: Result<(), TabError>)
        requires
            old(self).wf(),
        ensures
            final(self).wf(),
            final(self).spec_active() == old(self).spec_active(),
            final(self).spec_pending() == old(self).spec_pending(),
            match index_of(old(self).spec_tabs(), name@) {
                None => r matches Err(TabError::Missing(n)) && n@ == name@ && final(self).spec_tabs() == old(self).spec_tabs(),
                Some(i) => r is Ok && final(self).spec_tabs().len() == old(self).spec_tabs().len()
                    && forall|j: int|
                    0 <= j < old(self).spec_tabs().len() && j != i ==> (#[trigger] final(self).spec_tabs()[j]) == old(self).spec_tabs()[j] && final(self).spec_tabs()[i].label@
                    == label@ && final(self).spec_tabs()[i] == Tab {
                    label: final(self).spec_tabs()[i].label,
                    ..old(self).spec_tabs()[i]
                },
            },
    {
        let idx = match self.idx_of(name) {
            Some(i) => i,
            None => {
                return Err(TabError::Missing(name.to_owned()));
            },
        };
        self.tabs[idx].label = label.to_owned();
        proof {
            assert forall|i: int, j: int|
                0 <= i < j < self.tabs@.len() implies (#[trigger] self.tabs@[i]).name@ != (
            #[trigger] self.tabs@[j]).name@ by {
                assert(self.tabs@[i].name == old(self).tabs@[i].name);
                assert(self.tabs@[j].name == old(self).tabs@[j].name);
            }
        }
        Ok(())
    }

    /// Name of the tab on screen.
    pub fn active_name(&self) -> (r: &str)
        requires
            self.wf(),
        ensures
            r@ == self.spec_tabs()[self.spec_active()].name@,
    {
        self.tabs[self.active].name.as_str()
    }

    /// A snapshot of every tab, in order.
    pub fn list(&self) -> (r: Vec<TabInfo>)
        requires
            self.wf(),
        ensures
            r@.len() == self.spec_tabs().len(),
            forall|i: int|
                0 <= i < r@.len() ==> {
                    let t = self.spec_tabs()[i];
                    &&& (#[trigger] r@[i]).name == t.name
                    &&& r@[i].label == t.label
                    &&& r@[i].shortcut == t.shortcut
                    &&& r@[i].unread == t.unread
                    &&& r@[i].active == (i == self.spec_active())
                },
    {
        let mut out: Vec<TabInfo> = Vec::new();
        let mut i: usize = 0;
        while i < self.tabs.len()
            invariant
                i <= self.tabs@.len(),
                out@.len() == i,
                forall|k: int|
                    0 <= k < i ==> {
                        let t = self.tabs@[k];
                        &&& (#[trigger] out@[k]).name == t.name
                        &&& out@[k].label == t.label
                        &&& out@[k].shortcut == t.shortcut
                        &&& out@[k].unread == t.unread
                        &&& out@[k].active == (k == self.active)
                    },
            decreases self.tabs@.len() - i,
        {
            let t = &self.tabs[i];
            out.push(
                TabInfo {
                    name: t.name.clone(),
                    label: t.label.clone(),
                    shortcut: match &t.shortcut {
                        Some(s) => Some(s.clone()),
                        None => None,
                    },
                    unread: t.unread,
                    active: i == self.active,
                },
            );
            i += 1;
        }
        out
    }

    /// Adds `line` to tab `i`, which is not on screen.
    fn deliver(&mut self, i: usize, line: &Line)
        requires
            old(self).wf(),
            i < old(self).spec_tabs().len(),
        ensures
            final(self).wf(),
            final(self).spec_tabs().len() == old(self).spec_tabs().len(),
            took_line(old(self).spec_tabs()[i as int], final(self).spec_tabs()[i as int], *line),
            forall|j: int|
                0 <= j < old(self).spec_tabs().len() && j != i ==> (#[trigger] final(self).spec_tabs()[j]) == old(self).spec_tabs()[j],
            final(self).spec_active() == old(self).spec_active(),
            final(self).spec_pending() == old(self).spec_pending(),
    {
        let ghost before = self.tabs@[i as int];
        assert(before.history matches Some(h) ==> history_ok(h));
        if let Some(h) = &mut self.tabs[i].history {
            h.append_line(line.clone());
        }
        self.tabs[i].unread = self.tabs[i].unread.saturating_add(1);
        proof {
            assert forall|a: int, b: int|
                0 <= a < b < self.tabs@.len() implies (#[trigger] self.tabs@[a]).name@ != (
            #[trigger] self.tabs@[b]).name@ by {
                assert(self.tabs@[a].name == old(self).tabs@[a].name);
                assert(self.tabs@[b].name == old(self).tabs@[b].name);
            }
        }
    }

    /// Routes a line of output: every tab off screen that takes it gets it
    /// in its scrollback, with its unread count raised. `main` takes every
    /// line that no matching tab hides from it. The screen shows the line
    /// when the tab on screen takes it.
    #[verifier::spinoff_prover]
    pub fn route(&mut self, line: &Line) -> (r: RouteResult)
        requires
            old(self).wf(),
        ensures
            final(self).wf(),
            final(self).spec_tabs().len() == old(self).spec_tabs().len(),
            final(self).spec_active() == old(self).spec_active(),
            final(self).spec_pending() == old(self).spec_pending(),
            routed(
                old(self).spec_tabs(),
                final(self).spec_tabs(),
                old(self).spec_active(),
                clean_text(line.text()),
                *line,
            ),
            r.render_to_screen == shown_on_screen(
                old(self).spec_tabs(),
                old(self).spec_active(),
                clean_text(line.text()),
            ),
            r.indicator_dirty == exists|i: int|
                0 <= i < old(self).spec_tabs().len() && #[trigger] takes_line(
                    old(self).spec_tabs(),
                    old(self).spec_active(),
                    clean_text(line.text()),
                    i,
                ),
    {
        let clean = line.clean_line();
        let ghost text = clean@;
        let ghost tabs0 = self.tabs@;
        let mut any_gag_main = false;
        let mut active_matches = false;
        let mut selected: Vec<bool> = Vec::new();
        let mut i: usize = 0;
        while i < self.tabs.len()
            invariant
                self.wf(),
                self.tabs@ == tabs0,
                text == clean@,
                i <= tabs0.len(),
                any_gag_main == exists|k: int|
                    1 <= k < i && tab_matches(#[trigger] tabs0[k], text) && tabs0[k].gag_main,
                active_matches == (1 <= self.active < i && tab_matches(
                    tabs0[self.active as int],
                    text,
                )),
                selected@.len() == i,
                forall|k: int|
                    0 <= k < i ==> #[trigger] selected@[k] == (1 <= k && k != self.active
                        && tab_matches(tabs0[k], text)),
            decreases tabs0.len() - i,
        {
            let mut take = false;
            if !str_eq(self.tabs[i].name.as_str(), MAIN_TAB) {
                assert(i != 0);
                if self.tabs[i].matches(clean.as_str()) {
                    if self.tabs[i].gag_main {
                        any_gag_main = true;
                    }
                    if i == self.active {
                        active_matches = true;
                    } else {
                        take = true;
                    }
                }
            } else {
                proof {
                    if i != 0 {
                        assert(tabs0[0].name@ != tabs0[i as int].name@);
                    }
                }
            }
            selected.push(take);
            i += 1;
        }
        let main_receives = !any_gag_main;
        let mut indicator_dirty = false;
        let mut j: usize = 0;
        while j < selected.len()
            invariant
                self.wf(),
                self.tabs@.len() == tabs0.len(),
                selected@.len() == tabs0.len(),
                self.active == old(self).active,
                self.pending_dest == old(self).pending_dest,
                tabs0 == old(self).tabs@,
                j <= tabs0.len(),
                forall|k: int|
                    0 <= k < tabs0.len() ==> if k < j && selected@[k] {
                        took_line(tabs0[k], #[trigger] self.tabs@[k], *line)
                    } else {
                        self.tabs@[k] == tabs0[k]
                    },
                indicator_dirty == exists|k: int| 0 <= k < j && #[trigger] selected@[k],
            decreases tabs0.len() - j,
        {
            if selected[j] {
                self.deliver(j, line);
                indicator_dirty = true;
            }
            j += 1;
        }
        if main_receives && self.active != 0 {
            assert(!selected@[0]);
            self.deliver(0, line);
            indicator_dirty = true;
        }
        let render_to_screen = if self.active == 0 {
            main_receives
        } else {
            active_matches
        };
        proof {
            let active = old(self).active as int;
            assert forall|k: int| 0 <= k < tabs0.len() implies #[trigger] takes_line(
                tabs0,
                active,
                text,
                k,
            ) == (selected@[k] || (k == 0 && main_receives && active != 0)) by {}
            assert forall|k: int| 0 <= k < tabs0.len() implies if takes_line(
                tabs0,
                active,
                text,
                k,
            ) {
                took_line(tabs0[k], #[trigger] self.tabs@[k], *line)
            } else {
                self.tabs@[k] == tabs0[k]
            } by {
                assert(takes_line(tabs0, active, text, k) == (selected@[k] || (k == 0
                    && main_receives && active != 0)));
            }
            assert(routed(tabs0, self.tabs@, active, text, *line));
            assert(render_to_screen == shown_on_screen(tabs0, active, text));
            if indicator_dirty {
                if main_receives && active != 0 {
                    assert(takes_line(tabs0, active, text, 0));
                } else {
                    let k = choose|k: int| 0 <= k < tabs0.len() && #[trigger] selected@[k];
                    assert(takes_line(tabs0, active, text, k));
                }
            } else {
                assert forall|k: int| 0 <= k < tabs0.len() implies !#[trigger] takes_line(
                    tabs0,
                    active,
                    text,
                    k,
                ) by {
                    assert(takes_line(tabs0, active, text, k) == (selected@[k] || (k == 0
                        && main_receives && active != 0)));
                }
            }
            assert(old(self).spec_tabs() == tabs0);
            assert(old(self).spec_active() == active);
            assert(text == clean_text(line.text()));
            assert(indicator_dirty == exists|i: int|
                0 <= i < tabs0.len() && #[trigger] takes_line(tabs0, active, text, i));
        }
        RouteResult { render_to_screen, indicator_dirty }
    }

    /// Adds `line` to the tab named `name` whatever its filters say. Returns
    /// whether that tab is on screen, in which case the screen shows the
    /// line and the tab set keeps nothing.
    pub fn output_to(&mut self, name: &str, line: &Line) -> (r: Result<bool, TabError>)
        requires
            old(self).wf(),
        ensures
            final(self).wf(),
            final(self).spec_tabs().len() == old(self).spec_tabs().len(),
            final(self).spec_active() == old(self).spec_active(),
            final(self).spec_pending() == old(self).spec_pending(),
            match index_of(old(self).spec_tabs(), name@) {
                None => r matches Err(TabError::Missing(n)) && n@ == name@ && final(self).spec_tabs() == old(self).spec_tabs(),
                Some(i) => if i == old(self).spec_active() {
                    r == Ok::<bool, TabError>(true) && final(self).spec_tabs() == old(self).spec_tabs()
                } else {
                    r == Ok::<bool, TabError>(false) && took_line(
                        old(self).spec_tabs()[i],
                        final(self).spec_tabs()[i],
                        *line,
                    ) && forall|j: int|
                        0 <= j < old(self).spec_tabs().len() && j != i ==> (#[trigger] final(self).spec_tabs()[j]) == old(self).spec_tabs()[j]
                },
            },
    {
        let idx = match self.idx_of(name) {
            Some(i) => i,
            None => {
                return Err(TabError::Missing(name.to_owned()));
            },
        };
        if idx == self.active {
            return Ok(true);
        }
        self.deliver(idx, line);
        Ok(false)
    }

    /// First step of a switch to the tab named `dest`: hands out its
    /// scrollback for the screen and clears its unread count. `None` when
    /// `dest` is already on screen.
    pub fn take_for_switch(&mut self, dest: &str) -> (r: Result<Option<History>, TabError>)
        requires
            old(self).wf(),
            forall|i: int|
                0 <= i < old(self).spec_tabs().len() && (#[trigger] old(self).spec_tabs()[i]).name@
                    == dest@ && i != old(self).spec_active() ==> old(self).spec_tabs()[i].history is Some,
        ensures
            final(self).wf(),
            switch_taken(*old(self), *final(self), dest@, r),
    {
        let idx = match self.idx_of(dest) {
            Some(i) => i,
            None => {
                return Err(TabError::Missing(dest.to_owned()));
            },
        };
        if idx == self.active {
            return Ok(None);
        }
        let taken = self.tabs[idx].history.take();
        let new_hist = match taken {
            Some(h) => h,
            None => {
                proof {
                    assert(false);
                }
                return Ok(None);
            },
        };
        self.tabs[idx].unread = 0;
        self.pending_dest = Some(idx);
        proof {
            assert forall|a: int, b: int|
                0 <= a < b < self.tabs@.len() implies (#[trigger] self.tabs@[a]).name@ != (
            #[trigger] self.tabs@[b]).name@ by {
                assert(self.tabs@[a].name == old(self).tabs@[a].name);
                assert(self.tabs@[b].name == old(self).tabs@[b].name);
            }
        }
        Ok(Some(new_hist))
    }

    /// Second step of a switch: the screen's previous scrollback goes back
    /// to the tab that was on screen, and the destination becomes the tab
    /// on screen. Fails when no switch was started.
    pub fn complete_switch(&mut self, old_hist: History) -> (r: Result<(), TabError>)
        requires
            old(self).wf(),
            history_ok(old_hist),
        ensures
            final(self).wf(),
            switch_completed(*old(self), *final(self), old_hist, r),
    {
        let dest_idx = match self.pending_dest.take() {
            Some(d) => d,
            None => {
                return Err(TabError::Missing("no pending switch".to_owned()));
            },
        };
        let a = self.active;
        self.tabs[a].history = Some(old_hist);
        self.active = dest_idx;
        proof {
            assert(self.tabs@ =~= old(self).tabs@.update(
                a as int,
                Tab { history: Some(old_hist), ..old(self).tabs@[a as int] },
            ));
            assert forall|x: int, y: int|
                0 <= x < y < self.tabs@.len() implies (#[trigger] self.tabs@[x]).name@ != (
            #[trigger] self.tabs@[y]).name@ by {
                assert(self.tabs@[x].name == old(self).tabs@[x].name);
                assert(self.tabs@[y].name == old(self).tabs@[y].name);
            }
        }
        Ok(())
    }
}

/// A well-formed tab set always holds the main tab, first; no two tabs
/// share a name; the tab on screen and a pending switch's destination are
/// tabs of the set.
pub proof fn lemma_main_tab_exists(t: TabSet)
    requires
        t.wf(),
    ensures
        t.spec_tabs().len() >= 1,
        t.spec_tabs()[0].name@ == MAIN_TAB@,
        forall|i: int, j: int|
            0 <= i < j < t.spec_tabs().len() ==> (#[trigger] t.spec_tabs()[i]).name@ != (
            #[trigger] t.spec_tabs()[j]).name@,
        0 <= t.spec_active() < t.spec_tabs().len(),
        t.spec_pending() matches Some(d) ==> d < t.spec_tabs().len(),
{
}

} // verus!
