use blightmud::model::{Line, Pattern};
use blightmud::tabs::tab::Tab;
use blightmud::tabs::{TabError, TabOpts, TabSet, MAIN_TAB};
use blightmud::ui::history::History;

fn line(s: &str) -> Line {
    Line::from_str(s)
}

fn fresh() -> TabSet {
    TabSet::new()
}

#[test]
fn tab_error_display_messages() {
    assert_eq!(TabError::AlreadyExists("chat".into()).message(), "tab already exists: chat");
    assert_eq!(TabError::Missing("x".into()).message(), "no such tab: x");
    assert_eq!(TabError::Reserved("main".into()).message(), "tab name is reserved: main");
    assert_eq!(
        TabError::BadRegex { name: "chat".into(), err: "oops".into() }.message(),
        "bad regex for tab `chat`: oops"
    );
}

#[test]
fn new_tab_label_falls_back_to_name() {
    let plain = Tab::new("chat", TabOpts::default());
    assert_eq!(plain.label, "chat");
    assert!(plain.history.is_some());
    assert_eq!(plain.unread, 0);
    assert!(plain.shortcut.is_none());

    let labeled = Tab::new(
        "chat",
        TabOpts {
            label: Some("Chat".into()),
            shortcut: Some("F2".into()),
            gag_main: true,
            history_lines: None,
        },
    );
    assert_eq!(labeled.label, "Chat");
    assert_eq!(labeled.shortcut, Some("F2".into()));
    assert!(labeled.gag_main);
}

#[test]
fn main_tab_defaults() {
    let main = Tab::new_main();
    assert_eq!(main.name, MAIN_TAB);
    assert_eq!(main.label, MAIN_TAB);
    assert!(!main.gag_main);
}

#[test]
fn matches_respects_filters_and_excludes() {
    let mut tab = Tab::new("chat", TabOpts::default());
    assert!(!tab.matches("Bob tells you: hi"));
    tab.filters.push(Pattern::new("tells you").unwrap());
    assert!(tab.matches("Bob tells you: hi"));
    assert!(!tab.matches("nothing here"));
    tab.excludes.push(Pattern::new("^Bob").unwrap());
    assert!(!tab.matches("Bob tells you: hi"));
}

#[test]
fn history_lines_maps_to_capacity() {
    let tab = Tab::new("chat", TabOpts { history_lines: Some(2000), ..Default::default() });
    let h = tab.history.as_ref().expect("inactive tab has a history");
    assert_eq!(h.drain_length, 62);
    assert_eq!(h.capacity, 1984);
}

#[test]
fn default_tab_keeps_main_depth() {
    let tab = Tab::new("chat", TabOpts::default());
    let h = tab.history.as_ref().expect("inactive tab has a history");
    assert_eq!(h.drain_length, 1024);
    assert_eq!(h.capacity, 32 * 1024);
}

#[test]
fn tiny_history_lines_clamps_to_one_drain() {
    let tab = Tab::new("chat", TabOpts { history_lines: Some(5), ..Default::default() });
    let h = tab.history.as_ref().unwrap();
    assert_eq!(h.drain_length, 1);
    assert_eq!(h.capacity, 32);
}

#[test]
fn main_exists_and_is_active() {
    let ts = fresh();
    assert_eq!(ts.active_name(), MAIN_TAB);
    let info = ts.list();
    assert_eq!(info.len(), 1);
    assert_eq!(info[0].name, MAIN_TAB);
    assert!(info[0].active);
}

#[test]
fn cannot_create_main() {
    let mut ts = fresh();
    assert!(matches!(ts.create(MAIN_TAB, TabOpts::default()), Err(TabError::Reserved(_))));
}

#[test]
fn create_chat_and_filter() {
    let mut ts = fresh();
    ts.create("chat", TabOpts::default()).unwrap();
    ts.add_filter("chat", "tells you").unwrap();
    let res = ts.route(&line("Bob tells you: hi"));
    assert!(res.render_to_screen, "main should still render the mirror");
    assert!(res.indicator_dirty, "chat got an unread bump");
    let info = ts.list();
    let chat = info.iter().find(|t| t.name == "chat").unwrap();
    assert_eq!(chat.unread, 1);
}

#[test]
fn gag_main_suppresses_screen_when_active_main() {
    let mut ts = fresh();
    ts.create("spam", TabOpts { gag_main: true, ..Default::default() }).unwrap();
    ts.add_filter("spam", "boring").unwrap();
    let res = ts.route(&line("this is boring text"));
    assert!(!res.render_to_screen, "gag_main hides line from main view");
}

#[test]
fn no_match_does_not_dirty_indicator() {
    let mut ts = fresh();
    ts.create("chat", TabOpts::default()).unwrap();
    ts.add_filter("chat", "tells you").unwrap();
    let res = ts.route(&line("a stormtrooper attacks you"));
    assert!(res.render_to_screen);
    assert!(!res.indicator_dirty);
}

#[test]
fn switching_protocol_round_trip() {
    let mut ts = fresh();
    ts.create("chat", TabOpts::default()).unwrap();
    ts.add_filter("chat", "tells you").unwrap();
    ts.route(&line("Alice tells you: hello"));

    let fake_screen_history = History::new();
    let dest_history = ts.take_for_switch("chat").unwrap().unwrap();
    assert!(!dest_history.is_empty());

    ts.complete_switch(fake_screen_history).unwrap();
    assert_eq!(ts.active_name(), "chat");
    let main_hist = ts.take_for_switch(MAIN_TAB).unwrap().unwrap();
    ts.complete_switch(main_hist).unwrap();
    assert_eq!(ts.active_name(), MAIN_TAB);
}

#[test]
fn switch_to_already_active_is_noop() {
    let mut ts = fresh();
    let result = ts.take_for_switch(MAIN_TAB).unwrap();
    assert!(result.is_none(), "switching to active tab returns None");
    assert_eq!(ts.active_name(), MAIN_TAB);
}

#[test]
fn creating_a_tab_twice_is_refused() {
    let mut ts = fresh();
    ts.create("chat", TabOpts::default()).unwrap();
    assert_eq!(
        ts.create("chat", TabOpts::default()),
        Err(TabError::AlreadyExists("chat".to_string()))
    );
}

#[test]
fn filter_for_a_missing_tab_is_refused() {
    let mut ts = fresh();
    assert_eq!(ts.add_filter("nope", "x"), Err(TabError::Missing("nope".to_string())));
}

#[test]
fn bad_filter_pattern_is_reported() {
    let mut ts = fresh();
    ts.create("chat", TabOpts::default()).unwrap();
    match ts.add_filter("chat", "(") {
        Err(TabError::BadRegex { name, err }) => {
            assert_eq!(name, "chat");
            assert!(!err.is_empty());
        }
        other => panic!("unexpected {:?}", other),
    }
}

#[test]
fn switching_there_and_back_returns_the_screen_scrollback() {
    let mut ts = fresh();
    ts.create("chat", TabOpts::default()).unwrap();
    let mut screen = History::new();
    screen.append("on main's screen");
    let chat_history = ts.take_for_switch("chat").unwrap().unwrap();
    ts.complete_switch(screen).unwrap();
    let back = ts.take_for_switch(MAIN_TAB).unwrap().unwrap();
    assert_eq!(back.len(), 1);
    assert_eq!(back.get(0).line(), "on main's screen");
    ts.complete_switch(chat_history).unwrap();
    assert_eq!(ts.active_name(), MAIN_TAB);
}
