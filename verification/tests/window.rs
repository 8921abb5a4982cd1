use blightmud::model::Line;
use blightmud::ui::window::{wrap_line, History, WindowState};

#[test]
fn window_test_wrap_line() {
    let line: &'static str =
        "\x1b[34mSomething \x1b[0mthat's pretty \x1b[32mlong and annoying\x1b[0m";
    let lines = wrap_line(&line, 11);
    let mut iter = lines.iter();
    assert_eq!(iter.next().map(|s| s.as_str()), Some("\u{1b}[34mSomething"));
    assert_eq!(iter.next().map(|s| s.as_str()), Some("\u{1b}[0mthat's"));
    assert_eq!(iter.next().map(|s| s.as_str()), Some("pretty"));
    assert_eq!(iter.next().map(|s| s.as_str()), Some("\u{1b}[32mlong and"));
    assert_eq!(iter.next().map(|s| s.as_str()), Some("annoying\u{1b}[0m"));
}

#[test]
fn window_test_long_line_no_space() {
    let mut line = String::new();
    for _ in 0..1000 {
        for i in 0..10 {
            let num = format!("{}", i);
            line = format!("{}{}", line, std::iter::repeat(num).take(15).collect::<String>());
        }
    }
    let lines = wrap_line(&line, 15);
    assert_eq!(lines.len(), 1000 * 10);
    for (i, line) in lines.iter().enumerate() {
        let num = format!("{}", i % 10);
        assert_eq!(line, &format!("{}", std::iter::repeat(num).take(15).collect::<String>()));
    }
}

#[test]
fn window_test_append_history() {
    let line = "a nice line\n\nwith a blank line\nand lines\nc\ntest\n";

    let mut history = History::new();
    history.append(line);
    let stored: Vec<&str> = (0..history.len()).map(|i| history.get(i).unwrap()).collect();
    assert_eq!(
        stored,
        vec!["a nice line", "", "with a blank line", "and lines", "c", "test",]
    );
}

#[test]
fn window_history_keeps_one_empty_line_for_blank_text() {
    let mut history = History::new();
    history.append("   ");
    assert_eq!(history.len(), 1);
    assert_eq!(history.get(0), Some(""));
    assert_eq!(history.get(1), None);
}

#[test]
fn window_history_drops_oldest_at_capacity() {
    let mut history = History::new();
    for i in 0..32768 {
        history.append(&format!("line {}", i));
    }
    assert_eq!(history.len(), 32767);
    assert_eq!(history.get(0), Some("line 1"));
}

#[test]
fn window_scrolls_back_and_forward_by_five() {
    let mut w = WindowState::new(10);
    for i in 0..30 {
        w.print_line(&format!("{}", i));
    }
    assert_eq!(w.top(), 20);
    w.scroll_up();
    assert!(w.is_scrolled());
    assert_eq!(w.top(), 15);
    let shown = w.shown_lines();
    assert_eq!(shown.len(), 10);
    assert_eq!(shown[0], "15");
    w.scroll_down();
    assert!(!w.is_scrolled());
    assert_eq!(w.top(), 20);
}

#[test]
fn window_does_not_scroll_when_everything_fits() {
    let mut w = WindowState::new(10);
    w.print_line("only");
    w.scroll_up();
    assert!(!w.is_scrolled());
    let shown = w.shown_lines();
    assert_eq!(shown[0], "only");
    assert_eq!(shown[1], "");
}

#[test]
fn window_prompt_is_drawn_only_when_not_scrolled() {
    let mut w = WindowState::new(2);
    assert_eq!(w.print_prompt(&Line::from_str("> ")), Some("> ".to_string()));
    for _ in 0..5 {
        w.print_line("x");
    }
    w.scroll_up();
    assert_eq!(w.print_prompt(&Line::from_str("> ")), None);
}

#[test]
fn window_output_is_wrapped() {
    let mut w = WindowState::new(5);
    w.print_output(&Line::from_str("aaaa bbbb"), 5);
    assert_eq!(w.shown_lines()[0], "aaaa ");
    assert_eq!(w.shown_lines()[1], "bbbb");
}
