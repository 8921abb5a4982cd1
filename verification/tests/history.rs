use blightmud::model::{Line, Pattern, TagMask};
use blightmud::ui::history::History;

fn combat_mask() -> TagMask {
    TagMask { key: Some("combat".to_string()) }
}

#[test]
fn test_basic() {
    let mut history = History::new();
    assert!(history.is_empty());
    history.append("test");
    assert!(!history.is_empty());
    assert_eq!(history.len(), 1);
}

#[test]
fn test_remove_last() {
    let mut history = History::new();
    history.append("a nice line");
    history.append("a complete line");
    history.append("a par");

    assert_eq!(history.len(), 3);
    history.remove_last_if_prefix("a fancy prompt");
    assert_eq!(history.len(), 3);
    history.remove_last_if_prefix("a partial line");
    assert_eq!(history.len(), 2);
}

#[test]
fn confirm_drain() {
    let mut history = History::new();
    for _ in 0..31 * 1024 {
        history.append("test");
    }
    assert_eq!(history.len(), 31 * 1024);
    for _ in 0..1024 {
        history.append("test");
    }
    assert_eq!(history.len(), 31 * 1024);
}

#[test]
fn test_find() {
    let mut history = History::new();
    for i in 0..12000 {
        if i % 1000 == 0 {
            history.append("something");
        } else {
            history.append("nothing");
        }
    }
    let mut index = history.len();
    let mut goal = 11000;
    let pattern = Pattern::new("^something$").unwrap();
    while index > 0 && goal > 0 {
        index = if let Some(i) = history.find_backward(&pattern, index) { i } else { 0 };
        assert_eq!(index, goal);
        goal -= 1000;
    }
    goal += 1000;
    while index < history.len() && goal <= 11000 {
        index = if let Some(i) = history.find_forward(&pattern, index) { i } else { 0 };
        assert_eq!(index, goal);
        goal += 1000;
        index += 1;
    }
}

#[test]
fn test_append_line() {
    let mut history = History::new();
    let mut line = Line::from_str("hello world");
    line.tag.color = "\x1b[31m".to_string();
    history.append_line(line);
    assert_eq!(history.len(), 1);
    assert_eq!(history.stored(0).clean_line(), "hello world");
    assert_eq!(history.stored(0).tag.color, "\x1b[31m");
}

#[test]
fn test_tag_mask_filters_visible() {
    let mut history = History::new();
    let mut masked = Line::from_str("combat line");
    masked.tag.key = "combat".to_string();
    let unmasked = Line::from_str("normal line");

    history.append_line(masked);
    history.append_line(unmasked);
    assert_eq!(history.len(), 2);

    history.set_tag_mask(combat_mask());

    assert_eq!(history.len(), 1);
    assert_eq!(history.get(0).clean_line(), "normal line");
}

#[test]
fn test_tag_mask_inner_preserved() {
    let mut history = History::new();
    let mut masked = Line::from_str("combat line");
    masked.tag.key = "combat".to_string();
    history.append_line(masked);

    history.set_tag_mask(combat_mask());

    assert_eq!(history.len(), 0);
    assert_eq!(history.stored_len(), 1);
}

#[test]
fn test_tag_mask_reset_restores_visible() {
    let mut history = History::new();
    let mut masked = Line::from_str("combat line");
    masked.tag.key = "combat".to_string();
    history.append_line(masked);
    history.append_line(Line::from_str("normal line"));

    history.set_tag_mask(combat_mask());
    assert_eq!(history.len(), 1);

    history.set_tag_mask(TagMask::default());
    assert_eq!(history.len(), 2);
}

#[test]
fn test_append_line_with_active_mask() {
    let mut history = History::new();
    history.set_tag_mask(combat_mask());

    let mut masked = Line::from_str("combat line");
    masked.tag.key = "combat".to_string();
    history.append_line(masked);
    history.append_line(Line::from_str("normal line"));

    assert_eq!(history.len(), 1);
    assert_eq!(history.get(0).clean_line(), "normal line");
    assert_eq!(history.stored_len(), 2);
}

#[test]
fn test_remove_last_if_prefix_masked() {
    let mut history = History::new();
    history.set_tag_mask(combat_mask());

    history.append_line(Line::from_str("normal line"));
    let mut masked = Line::from_str("combat prompt");
    masked.tag.key = "combat".to_string();
    history.append_line(masked);

    assert_eq!(history.len(), 1);
    history.remove_last_if_prefix("combat prompt extended");
    assert_eq!(history.len(), 1);
    assert_eq!(history.stored_len(), 1);
}

#[test]
fn appending_a_blank_text_stores_one_empty_line() {
    let mut history = History::new();
    history.append("  \t ");
    assert_eq!(history.len(), 1);
    assert_eq!(history.get(0).line(), "");
}

#[test]
fn find_backward_without_a_match_is_none() {
    let mut history = History::new();
    history.append("alpha");
    let pattern = Pattern::new("beta").unwrap();
    assert_eq!(history.find_backward(&pattern, history.len()), None);
    assert_eq!(history.find_forward(&pattern, 0), None);
}

#[test]
fn lifting_a_mask_shows_every_line_again() {
    let mut history = History::new();
    let mut tagged = Line::from_str("tagged");
    tagged.tag.key = "combat".to_string();
    history.append_line(tagged);
    history.append("plain");
    history.set_tag_mask(combat_mask());
    assert_eq!(history.len(), 1);
    history.set_tag_mask(TagMask { key: None });
    assert_eq!(history.len(), history.stored_len());
}
