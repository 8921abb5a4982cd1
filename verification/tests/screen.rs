use blightmud::screen::{wrap_line, Redraw, Screen, ScrollDown};

#[test]
fn screen_test_wrap_line() {
    let line: &'static str =
        "\x1b[34mSomething \x1b[0mthat's pretty \x1b[32mlong and annoying\x1b[0m";
    let lines = wrap_line(&line, 11);
    let mut iter = lines.iter();
    assert_eq!(iter.next().map(|s| s.as_str()), Some("\u{1b}[34mSomething"));
    assert_eq!(iter.next().map(|s| s.as_str()), Some("\u{1b}[0mthat's"));
    assert_eq!(iter.next().map(|s| s.as_str()), Some("pretty"));
    assert_eq!(iter.next().map(|s| s.as_str()), Some("\u{1b}[32mlong and"));
    assert_eq!(iter.next().map(|s| s.as_str()), Some("annoying\u{1b}[0m"));
}

#[test]
fn screen_test_long_line_no_space() {
    let mut line = String::new();
    for _ in 0..1000 {
        for i in 0..10 {
            let num = format!("{}", i);
            line = format!("{}{}", line, std::iter::repeat(num).take(15).collect::<String>());
        }
    }
    let lines = wrap_line(&line, 15);
    assert_eq!(lines.len(), 1000 * 10);
    for (i, line) in lines.iter().enumerate() {
        let num = format!("{}", i % 10);
        assert_eq!(line, &format!("{}", std::iter::repeat(num).take(15).collect::<String>()));
    }
}

#[test]
fn screen_wrap_keeps_blank_lines() {
    let lines = wrap_line("one\n\ntwo", 80);
    assert_eq!(lines, vec!["one", "", "two"]);
}

fn lines_of(screen: &Screen) -> Vec<String> {
    (0..screen.history_len()).map(|i| screen.history_line(i).unwrap().to_string()).collect()
}

#[test]
fn classic_screen_new_layout() {
    let screen = Screen::new(80, 24);
    assert_eq!(screen.output_line(), 22);
    assert_eq!(screen.prompt_line(), 24);
    assert_eq!(screen.cursor_prompt_pos(), 1);
    assert!(!screen.is_scrolled());
    assert_eq!(screen.history_len(), 0);
}

#[test]
fn classic_screen_setup_refuses_empty_size() {
    let mut screen = Screen::new(80, 24);
    let err = screen.setup(0, 30).unwrap_err();
    assert_eq!(err.message(), "Failed to retrieve valid dimsensions for terminal");
    assert_eq!(screen.output_line(), 22);
    assert!(screen.setup(100, 40).is_ok());
    assert_eq!(screen.output_line(), 38);
    assert_eq!(screen.prompt_line(), 40);
}

#[test]
fn classic_screen_top_bar() {
    let screen = Screen::new(20, 24);
    assert_eq!(screen.redraw_top_bar("", 0), "═".repeat(20));
    assert_eq!(screen.redraw_top_bar("host", 4000), format!("═ host:4000 ═{}", "═".repeat(7)));
    let narrow = Screen::new(5, 24);
    assert_eq!(narrow.redraw_top_bar("example.org", 23), "═ example.org:23 ═");
}

#[test]
fn classic_screen_bottom_bar() {
    let mut screen = Screen::new(12, 6);
    assert_eq!(screen.redraw_bottom_bar(), "━".repeat(12));
    for i in 0..10 {
        screen.print_output(&format!("line {}", i));
    }
    assert!(screen.scroll_up());
    assert_eq!(screen.redraw_bottom_bar(), "━ (more) ━━━");
}

#[test]
fn classic_screen_prompt_trimmed_and_split() {
    let mut screen = Screen::new(80, 24);
    assert_eq!(screen.print_prompt("hp: 10 >  \t"), Some("hp: 10 >".to_string()));
    assert_eq!(screen.print_prompt("a\r\nb"), Some("a\r\nb".to_string()));
    assert_eq!(lines_of(&screen), vec!["hp: 10 >  \t", "a", "b"]);
}

#[test]
fn classic_screen_prompt_input_tail() {
    let mut screen = Screen::new(5, 24);
    assert_eq!(screen.print_prompt_input("abc", 3), "abc");
    assert_eq!(screen.cursor_prompt_pos(), 4);
    assert_eq!(screen.print_prompt_input("abcdefghijkl", 12), "kl");
    assert_eq!(screen.print_prompt_input("abcdefghij", 10), "");
    assert_eq!(screen.cursor_prompt_pos(), 11);
}

#[test]
fn classic_screen_print_output_wraps_and_stores() {
    let mut screen = Screen::new(11, 24);
    let drawn = screen.print_output("Something that's pretty long");
    assert_eq!(drawn, vec!["Something", "that's", "pretty", "long"]);
    assert_eq!(lines_of(&screen), vec!["Something", "that's", "pretty", "long"]);
    let blank = screen.print_output("   ");
    assert_eq!(blank, vec!["   "]);
    assert_eq!(screen.history_len(), 5);
}

#[test]
fn classic_screen_print_info() {
    let mut screen = Screen::new(80, 24);
    assert_eq!(screen.print_info("Connected"), vec!["[**] Connected"]);
    assert_eq!(lines_of(&screen), vec!["[**] Connected"]);
}

#[test]
fn classic_screen_history_capacity() {
    let mut screen = Screen::new(80, 24);
    for i in 0..1100 {
        screen.print_output(&format!("line {}", i));
    }
    assert_eq!(screen.history_len(), 1023);
    assert_eq!(screen.history_line(0), Some("line 77"));
    assert_eq!(screen.history_line(1022), Some("line 1099"));
}

#[test]
fn classic_screen_scroll_round() {
    // A region of rows 2 to 6 shows five lines.
    let mut screen = Screen::new(20, 8);
    assert!(!screen.scroll_up());
    for i in 0..20 {
        screen.print_output(&format!("line {}", i));
    }
    assert!(screen.scroll_up());
    assert!(screen.is_scrolled());
    assert!(screen.rows_in_range());
    assert_eq!(screen.scroll_rows(), vec!["line 11", "line 12", "line 13", "line 14", "line 15"]);
    assert!(screen.print_output("line 20").is_empty());
    assert!(screen.scroll_up());
    assert_eq!(screen.scroll_rows()[0], "line 6");
    assert!(matches!(screen.scroll_down(), ScrollDown::Moved));
    assert_eq!(screen.scroll_rows()[0], "line 11");
    assert!(matches!(screen.scroll_down(), ScrollDown::Moved));
    assert_eq!(screen.scroll_rows()[0], "line 16");
    match screen.scroll_down() {
        ScrollDown::Ended(Redraw::Rows(rows)) => {
            assert_eq!(rows, vec!["line 16", "line 17", "line 18", "line 19", "line 20"])
        }
        _ => panic!("scrolling should have ended"),
    }
    assert!(!screen.is_scrolled());
    assert!(matches!(screen.scroll_down(), ScrollDown::Unchanged));
}

#[test]
fn classic_screen_reset_with_few_lines() {
    let mut screen = Screen::new(20, 24);
    screen.print_output("one");
    screen.print_output("two");
    match screen.reset_scroll() {
        Redraw::ScrollIn(lines) => assert_eq!(lines, vec!["one", "two"]),
        Redraw::Rows(_) => panic!("too few lines for a full region"),
    }
}

#[test]
fn non_ascii_lines_are_sliced_at_byte_positions() {
    // Positions count characters but slice bytes: "ab cdéf" is cut at
    // bytes 2 and 7, which both start characters; the one-byte remainder
    // is dropped.
    assert_eq!(wrap_line("ab cdéf", 4), vec!["ab", "cdé"]);
    assert_eq!(wrap_line("ab cd é", 80), vec!["ab cd é"]);
    let mut screen = Screen::new(4, 24);
    assert!(screen.can_print("ab cdéf"));
    assert_eq!(screen.print_output("ab cdéf"), vec!["ab", "cdé"]);
    // At four columns "éééééé" is cut at byte 4, where a character starts.
    assert!(screen.can_print("éééééé"));
    assert!(screen.can_print("   "));
    assert!(screen.can_print_info("ok"));
    // At three columns the cut at byte 3 falls inside the second character.
    let narrow = Screen::new(3, 24);
    assert!(!narrow.can_print("éééééé"));
}
