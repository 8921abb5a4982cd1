use blightmud::model::Pattern;
use blightmud::ui::history::History;
use blightmud::ui::scroll_data::{ScrollData, ScrollError, ScrollSettings};

#[test]
fn test_general_user() {
    let mut scroll = ScrollData::new(&ScrollSettings::unset());

    assert!(scroll.lock(true).is_ok());
    assert!(scroll.not_scrolled_or_split());
    scroll.active = true;
    scroll.pos = 1000;
    assert!(!scroll.not_scrolled_or_split());

    let history = History::new();
    assert!(scroll.reset(&history, Ok(ScrollSettings::unset())).is_ok());
    assert!(scroll.not_scrolled_or_split());
}

#[test]
fn confirm_clamp() {
    let mut scroll = ScrollData::new(&ScrollSettings::unset());
    scroll.active = true;
    scroll.pos = 1200;

    let mut history = History::new();
    for _ in 0..1024 {
        history.append("test")
    }
    assert!(scroll.pos > history.len());
    scroll.clamp(&history);
    assert_eq!(scroll.pos, 1200 - history.drain_length);
}

#[test]
fn test_scroll_data_new_defaults() {
    let scroll = ScrollData::new(&ScrollSettings::unset());
    assert!(!scroll.active);
    assert!(!scroll.split);
    assert_eq!(scroll.pos, 0);
    assert!(!scroll.scroll_lock);
    assert!(scroll.hilite.is_none());
}

#[test]
fn test_scroll_lock_disables_when_not_allowed() {
    let mut scroll = ScrollData::new(&ScrollSettings::unset());
    scroll.allow_scroll_lock = false;
    assert!(scroll.lock(true).is_ok());
    assert!(!scroll.scroll_lock);
}

#[test]
fn test_scroll_lock_enables_when_allowed() {
    let mut scroll = ScrollData::new(&ScrollSettings::unset());
    scroll.allow_scroll_lock = true;
    assert!(scroll.lock(true).is_ok());
    assert!(scroll.scroll_lock);
}

#[test]
fn test_not_scrolled_or_split_when_split() {
    let mut scroll = ScrollData::new(&ScrollSettings::unset());
    scroll.active = true;
    scroll.split = true;
    assert!(scroll.not_scrolled_or_split());
}

#[test]
fn test_not_scrolled_or_split_when_not_active() {
    let scroll = ScrollData::new(&ScrollSettings::unset());
    assert!(scroll.not_scrolled_or_split());
}

#[test]
fn test_clamp_when_not_active() {
    let mut scroll = ScrollData::new(&ScrollSettings::unset());
    scroll.active = false;
    scroll.pos = 1200;

    let mut history = History::new();
    for _ in 0..1024 {
        history.append("test")
    }
    scroll.clamp(&history);
    assert_eq!(scroll.pos, 1200);
}

#[test]
fn test_reset_with_non_empty_history() {
    let mut scroll = ScrollData::new(&ScrollSettings::unset());
    scroll.active = true;
    scroll.split = true;
    scroll.pos = 500;
    scroll.hilite = Some(Pattern::new("test").unwrap());

    let mut history = History::new();
    for _ in 0..100 {
        history.append("line");
    }

    assert!(scroll.reset(&history, Ok(ScrollSettings::unset())).is_ok());
    assert!(!scroll.active);
    assert!(!scroll.split);
    assert!(scroll.hilite.is_none());
    assert_eq!(scroll.pos, history.len() - 1);
}

#[test]
fn test_reset_with_empty_history() {
    let mut scroll = ScrollData::new(&ScrollSettings::unset());
    scroll.pos = 500;

    let history = History::new();
    assert!(scroll.reset(&history, Ok(ScrollSettings::unset())).is_ok());
    assert_eq!(scroll.pos, 0);
}

#[test]
fn clamp_leaves_a_position_inside_the_history() {
    let mut scroll = ScrollData::new(&ScrollSettings::unset());
    scroll.active = true;
    scroll.pos = 10;
    let mut history = History::new();
    for _ in 0..20 {
        history.append("x");
    }
    scroll.clamp(&history);
    assert_eq!(scroll.pos, 10);
}

#[test]
fn saved_settings_set_the_allowances() {
    let saved = ScrollSettings { split: Some(false), scroll_lock: None };
    let scroll = ScrollData::new(&saved);
    assert!(!scroll.allow_split);
    assert!(scroll.allow_scroll_lock);
}

#[test]
fn reset_reloads_the_allowances() {
    let mut scroll = ScrollData::new(&ScrollSettings::unset());
    let history = History::new();
    let saved = ScrollSettings { split: Some(false), scroll_lock: Some(false) };
    assert!(scroll.reset(&history, Ok(saved)).is_ok());
    assert!(!scroll.allow_split && !scroll.allow_scroll_lock);
    scroll.active = true;
    assert!(scroll.reset(&history, Err(ScrollError)).is_err());
    assert!(!scroll.active);
    assert!(!scroll.allow_split && !scroll.allow_scroll_lock);
}
