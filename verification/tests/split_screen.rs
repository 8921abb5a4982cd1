use blightmud::model::{Line, Pattern, TagMask};
use blightmud::ui::history::History;
use blightmud::ui::layout::{ScreenLayout, INPUT_HEIGHT_MIN};
use blightmud::ui::split_screen::{input_area, InputAreaView};

/// The input area of a 24-row screen `width` columns wide whose input area
/// was asked to be `input_height` rows, as drawn for `input` with the
/// cursor at `pos`.
fn draw_input(width: u16, input_height: u16, input: &str, pos: usize) -> (InputAreaView, u16) {
    let layout = ScreenLayout::compute(24, 2, 1, input_height).unwrap();
    let view = input_area(input, pos, width, layout.input_height, false).unwrap();
    (view, layout.input_height)
}

fn rendered(view: &InputAreaView) -> String {
    let mut out = String::new();
    if view.scrolled {
        out.push('>');
    }
    for line in &view.lines {
        out.push_str(line);
    }
    out
}

#[test]
fn split_screen_test_append_history() {
    let line = "a nice line\n\nwith a blank line\nand lines\nc\ntest\n";

    let mut history = History::new();
    history.append(line);
    let content: Vec<&str> = history.lines().iter().map(|l| l.line()).collect();
    assert_eq!(content, vec!["a nice line", "", "with a blank line", "and lines", "c", "test",]);
}

#[test]
fn test_search_history() {
    let line = "a nice line\n\nwith a blank line\nand lines\nc\ntest\n";

    let mut history = History::new();
    history.append(line);
    let re = Pattern::new("and lines").unwrap();
    assert_eq!(history.find_forward(&re, 0), Some(3));
    assert_eq!(history.find_forward(&re, 4), None);
    assert_eq!(history.find_backward(&re, 4), Some(3));
    assert_eq!(history.find_backward(&re, 2), None);
}

#[test]
fn test_drain_history() {
    let mut history = History::new();
    history.capacity = 20;
    history.drain_length = 10;
    assert!(history.is_empty());
    for _ in 0..19 {
        history.append("test");
    }
    assert_eq!(history.len(), 19);
    history.append("test");
    assert_eq!(history.len(), 10);
    for _ in 0..9 {
        history.append("test");
    }
    assert_eq!(history.len(), 19);
    history.append("test");
    assert_eq!(history.len(), 10);
}

#[test]
fn test_print_line_masked_stored_in_inner_not_visible() {
    let mut history = History::new();
    history.set_tag_mask(TagMask { key: Some("combat".to_string()) });

    let mut masked = Line::from_str("combat hit");
    masked.tag.key = "combat".to_string();
    history.append_line(masked);
    history.append_line(Line::from_str("normal line"));

    assert_eq!(history.len(), 1);
    assert_eq!(history.get(0).clean_line(), "normal line");
}

#[test]
fn test_print_line_unmasked_line_visible() {
    let mut history = History::new();
    history.set_tag_mask(TagMask { key: Some("combat".to_string()) });

    history.append_line(Line::from_str("system message"));
    assert_eq!(history.len(), 1);
    assert_eq!(history.get(0).clean_line(), "system message");
}

#[test]
fn test_set_tag_mask_retroactive() {
    let mut history = History::new();

    let mut combat = Line::from_str("combat hit");
    combat.tag.key = "combat".to_string();
    history.append_line(combat);
    history.append_line(Line::from_str("normal line"));
    assert_eq!(history.len(), 2);

    history.set_tag_mask(TagMask { key: Some("combat".to_string()) });
    assert_eq!(history.len(), 1);
    assert_eq!(history.get(0).clean_line(), "normal line");
}

#[test]
fn test_clear_tag_mask_restores_all_lines() {
    let mut history = History::new();
    let mut combat = Line::from_str("combat hit");
    combat.tag.key = "combat".to_string();
    history.append_line(combat);
    history.append_line(Line::from_str("normal line"));

    history.set_tag_mask(TagMask { key: Some("combat".to_string()) });
    assert_eq!(history.len(), 1);

    history.set_tag_mask(TagMask::default());
    assert_eq!(history.len(), 2);
}

#[test]
fn single_row_input_keeps_the_horizontal_scroll_path() {
    let input = "abcdefghijklmnopqrstuvwxyz";
    let (view, height) = draw_input(20, 1, input, input.chars().count());
    assert_eq!(height, INPUT_HEIGHT_MIN);

    let out = rendered(&view);
    assert!(out.contains('>'), "expected the scroll indicator in {out:?}");
    assert_eq!(view.cursor_row, 0);
    assert_eq!(view.lines.len(), 1);
}

#[test]
fn multi_row_input_wraps_instead_of_scrolling() {
    let input = "abcdefghijklmno";
    let (view, _) = draw_input(10, 3, input, input.chars().count());

    let out = rendered(&view);
    assert!(!out.contains('>'), "row path must not scroll sideways");
    assert!(out.contains("abcdefghij"));
    assert!(out.contains("klmno"));
    assert_eq!(view.cursor_row, 1);
    assert_eq!(view.cursor_col, 6);
}

#[test]
fn multi_row_input_renders_logical_rows() {
    let (view, _) = draw_input(20, 3, "one\ntwo", 7);

    let out = rendered(&view);
    assert!(out.contains("one"));
    assert!(out.contains("two"));
    assert_eq!(view.cursor_row, 1);
    assert_eq!(view.cursor_col, 4);
}

#[test]
fn every_input_row_is_erased_even_when_content_shrinks() {
    let (before, _) = draw_input(20, 3, "a\nb\nc", 5);
    assert_eq!(before.lines, vec!["a", "b", "c"]);
    let (after, _) = draw_input(20, 3, "a", 1);
    assert_eq!(after.lines.len(), 3, "each of the three rows must be drawn");
    assert_eq!(after.lines, vec!["a", "", ""]);
}

#[test]
fn content_taller_than_the_area_scrolls_within_it() {
    let input = "r0\nr1\nr2\nr3";
    let (view, height) = draw_input(20, 2, input, input.chars().count());

    let out = rendered(&view);
    assert!(out.contains("r2") && out.contains("r3"));
    assert!(!out.contains("r0"), "row 0 has scrolled out of the area");
    assert!(view.cursor_row < height);
}

#[test]
fn goto_prompt_targets_the_cursor_row() {
    let (view, _) = draw_input(20, 3, "a\nb\nc", 5);
    assert_eq!(view.cursor_row, 2);
    assert_eq!(view.cursor_col, 2);
}

#[test]
fn single_row_input_that_fits_is_shown_whole() {
    let (view, _) = draw_input(20, 1, "hello", 2);
    assert_eq!(view.lines, vec!["hello"]);
    assert!(!view.scrolled);
    assert_eq!(view.cursor_col, 3);
}

#[test]
fn single_row_input_scrolls_by_a_screenful() {
    let input = "abcdefghijklmnopqrstuvwxyz";
    let (view, _) = draw_input(10, 1, input, 26);
    assert!(view.scrolled);
    assert_eq!(view.lines, vec!["uvwxyz"]);
    assert_eq!(view.cursor_col, 8);
}
