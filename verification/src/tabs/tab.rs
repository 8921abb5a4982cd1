//! A single tab, its options, and the errors of tab operations.
use vstd::prelude::*;
use crate::model::{regex_matches, Pattern};
use crate::text::{push_str, string_of};
use crate::ui::history::History;

verus! {

/// Reserved name of the tab that always exists and mirrors the output.
pub const MAIN_TAB: &'static str = "main";

/// Options a script gives when creating a tab.
#[derive(Debug, PartialEq, Eq)]
pub struct TabOpts {
    /// Label on the tab indicator; the tab's name when `None`.
    pub label: Option<String>,
    /// Keyboard hint shown on the tab indicator.
    pub shortcut: Option<String>,
    /// Lines this tab takes are not mirrored to `main`.
    pub gag_main: bool,
    /// Approximate scrollback depth in lines.
    pub history_lines: Option<usize>,
}

impl Default for TabOpts {
    fn default() -> (r: Self)
        ensures
            r.label is None,
            r.shortcut is None,
            !r.gag_main,
            r.history_lines is None,
    {
        TabOpts { label: None, shortcut: None, gag_main: false, history_lines: None }
    }
}

/// Why a tab operation was refused.
#[derive(Debug, PartialEq, Eq)]
pub enum TabError {
    /// A tab of this name exists already.
    AlreadyExists(String),
    /// No tab has this name.
    Missing(String),
    /// The name is reserved.
    Reserved(String),
    /// A filter pattern did not compile.
    BadRegex { name: String, err: String },
}

/// The text of a tab error.
pub open spec fn tab_error_text(e: TabError) -> Seq<char> {
    match e {
        TabError::AlreadyExists(name) => "tab already exists: "@ + name@,
        TabError::Missing(name) => "no such tab: "@ + name@,
        TabError::Reserved(name) => "tab name is reserved: "@ + name@,
        TabError::BadRegex { name, err } => "bad regex for tab `"@ + name@ + "`: "@ + err@,
    }
}

impl TabError {
    /// The message shown for this error.
    pub fn message(&self) -> (r: String)
        ensures
            r@ == tab_error_text(*self),
    {
        let mut cs: Vec<char> = Vec::new();
        match self {
            TabError::AlreadyExists(name) => {
                push_str(&mut cs, "tab already exists: ");
                push_str(&mut cs, name.as_str());
            },
            TabError::Missing(name) => {
                push_str(&mut cs, "no such tab: ");
                push_str(&mut cs, name.as_str());
            },
            TabError::Reserved(name) => {
                push_str(&mut cs, "tab name is reserved: ");
                push_str(&mut cs, name.as_str());
            },
            TabError::BadRegex { name, err } => {
                push_str(&mut cs, "bad regex for tab `");
                push_str(&mut cs, name.as_str());
                push_str(&mut cs, "`: ");
                push_str(&mut cs, err.as_str());
            },
        }
        string_of(cs.as_slice())
    }
}

/// What the tab indicator and scripts see of a tab.
#[derive(Debug, PartialEq, Eq)]
pub struct TabInfo {
    pub name: String,
    pub label: String,
    pub shortcut: Option<String>,
    pub unread: u32,
    pub active: bool,
}

impl Clone for TabInfo {
    fn clone(&self) -> (r: Self)
        ensures
            r == *self,
    {
        TabInfo {
            name: self.name.clone(),
            label: self.label.clone(),
            shortcut: match &self.shortcut {
                Some(s) => Some(s.clone()),
                None => None,
            },
            unread: self.unread,
            active: self.active,
        }
    }
}

/// A named tab: its display data, the patterns that route output to it,
/// and its scrollback while it is not the one on screen.
pub struct Tab {
    pub name: String,
    pub label: String,
    pub shortcut: Option<String>,
    pub gag_main: bool,
    /// A line matching one of these goes to the tab...
    pub filters: Vec<Pattern>,
    /// ...unless it matches one of these.
    pub excludes: Vec<Pattern>,
    /// `None` while the screen holds this tab's scrollback.
    pub history: Option<History>,
    pub unread: u32,
}

/// The drain length a tab's history gets for a requested depth: one
/// thirty-second of the lines, at least one; 1024 by default.
pub open spec fn tab_drain_length(history_lines: Option<usize>) -> int {
    match history_lines {
        Some(n) => if n / 32 >= 1 {
            (n / 32) as int
        } else {
            1
        },
        None => 1024,
    }
}

/// Whether some pattern of `patterns` matches `text`.
pub open spec fn any_match(patterns: Seq<Pattern>, text: Seq<char>) -> bool {
    exists|i: int| 0 <= i < patterns.len() && regex_matches((#[trigger] patterns[i])@, text)
}

/// Whether a line of text `text` belongs to `tab`: a filter matches and no
/// exclusion does.
pub open spec fn tab_matches(tab: Tab, text: Seq<char>) -> bool {
    any_match(tab.filters@, text) && !any_match(tab.excludes@, text)
}

/// The tab `Tab::new` builds, but for its fresh history.
pub open spec fn is_new_tab(t: Tab, name: Seq<char>, opts: TabOpts) -> bool {
    &&& t.name@ == name
    &&& t.label@ == match opts.label {
        Some(l) => l@,
        None => name,
    }
    &&& t.shortcut == opts.shortcut
    &&& t.gag_main == opts.gag_main
    &&& t.filters@.len() == 0
    &&& t.excludes@.len() == 0
    &&& t.unread == 0
    &&& t.history matches Some(h) && {
        &&& h.wf()
        &&& h.all_lines().len() == 0
        &&& h.mask().key is None
        &&& h.spec_drain_length() == tab_drain_length(opts.history_lines)
        &&& h.spec_capacity() == 32 * tab_drain_length(opts.history_lines)
    }
}

/// Whether some pattern of `patterns` matches `text`.
fn matches_any(patterns: &Vec<Pattern>, text: &str) -> (r: bool)
    ensures
        r == any_match(patterns@, text@),
{
    let mut i: usize = 0;
    while i < patterns.len()
        invariant
            i <= patterns@.len(),
            forall|j: int| 0 <= j < i ==> !regex_matches((#[trigger] patterns@[j])@, text@),
        decreases patterns@.len() - i,
    {
        if patterns[i].is_match(text) {
            return true;
        }
        i += 1;
    }
    false
}

impl Tab {
    /// A tab with no filters and an empty scrollback of the requested depth.
    pub fn new(name: &str, opts: TabOpts) -> (r: Tab)
        ensures
            is_new_tab(r, name@, opts),
    {
        let ghost o = opts;
        let TabOpts { label, shortcut, gag_main, history_lines } = opts;
        let mut lbl = name.to_owned();
        if let Some(l) = label {
            lbl = l;
        }
        let mut drain: usize = 1024;
        if let Some(n) = history_lines {
            drain = n / 32;
            if drain < 1 {
                drain = 1;
            }
        }
        assert(drain == tab_drain_length(o.history_lines));
        Tab {
            name: name.to_owned(),
            label: lbl,
            shortcut,
            gag_main,
            filters: Vec::new(),
            excludes: Vec::new(),
            history: Some(History::for_tab(drain)),
            unread: 0,
        }
    }

    /// The implicit `main` tab.
    pub fn new_main() -> (r: Tab)
        ensures
            is_new_tab(
                r,
                MAIN_TAB@,
                TabOpts { label: Some(r.label), shortcut: None, gag_main: false, history_lines: None },
            ),
            r.label@ == MAIN_TAB@,
    {
        Tab::new(
            MAIN_TAB,
            TabOpts {
                label: Some(MAIN_TAB.to_owned()),
                shortcut: None,
                gag_main: false,
                history_lines: None,
            },
        )
    }

    /// Whether the (cleaned) line of output belongs to this tab.
    pub fn matches(&self, clean_line: &str) -> (r: bool)
        ensures
            r == tab_matches(*self, clean_line@),
    {
        if matches_any(&self.excludes, clean_line) {
            return false;
        }
        matches_any(&self.filters, clean_line)
    }
}

} // verus!
