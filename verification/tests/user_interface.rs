use blightmud::ui::user_interface::{wrap_line, TerminalSizeError, UiError};

/// Wraps as the screen does: each line of the text is parsed on its own.
fn wrap(line: &str, width: usize, padding: usize) -> Vec<String> {
    wrap_line(line, width, padding)
}

#[test]
fn user_interface_test_wrap_line() {
    let line: &'static str =
        "\x1b[34mSomething \x1b[0mthat's pretty \x1b[32mlong and annoying\x1b[0m";
    let lines = wrap(line, 11, 0);
    let mut iter = lines.iter().map(|s| s.as_str());
    assert_eq!(iter.next(), Some("\u{1b}[34mSomething"));
    assert_eq!(iter.next(), Some("\u{1b}[0mthat's"));
    assert_eq!(iter.next(), Some("pretty"));
    assert_eq!(iter.next(), Some("\u{1b}[32mlong and"));
    assert_eq!(iter.next(), Some("annoying\u{1b}[0m"));
}

#[test]
fn test_wrap_line_with_padding() {
    let line = "hello world!!";
    let lines = wrap(line, 14, 0);
    assert_eq!(lines.len(), 1);
    let lines = wrap(line, 14, 2);
    assert_eq!(lines.len(), 2);
    assert_eq!(lines[0], "hello");
    assert_eq!(lines[1], "world!!");
}

#[test]
fn user_interface_test_long_line_no_space() {
    let mut line = String::new();
    for _ in 0..1000 {
        for i in 0..10 {
            let num = format!("{}", i);
            line = format!("{}{}", line, num.repeat(15));
        }
    }
    let lines = wrap(&line, 15, 0);
    assert_eq!(lines.len(), 1000 * 10);
    for (i, line) in lines.iter().enumerate() {
        let num = format!("{}", i % 10);
        assert_eq!(line, &num.repeat(15).to_string());
    }
}

#[test]
fn test_wrap_line_with_osc8_hyperlink() {
    let line =
        "Visit \x1b]8;;https://example.com\x1b\\\x1b[34mhttps://example.com\x1b[0m\x1b]8;;\x1b\\ for info";
    let lines = wrap(line, 80, 0);
    assert_eq!(lines.len(), 1);
    assert_eq!(lines[0], line);
}

#[test]
fn test_wrap_line_csi_non_sgr() {
    let line = "\x1b[Hsome text\x1b[K";
    let lines = wrap(line, 80, 0);
    assert_eq!(lines.len(), 1);
    assert_eq!(lines[0], line);
}

#[test]
fn test_wrap_line_charset_designation() {
    let line = "\x1b(Bhello \x1b)0world\x1b*A!\x1b+C\x1b%@";
    let lines = wrap(line, 80, 0);
    assert_eq!(lines.len(), 1);
    assert_eq!(lines[0], line);
}

#[test]
fn test_wrap_line_charset_designation_wrap() {
    let line = "\x1b(Babcde\x1b)0fghij";
    let lines = wrap(line, 5, 0);
    assert_eq!(lines.len(), 2);
}

#[test]
fn wrap_keeps_blank_lines_and_drops_a_blank_rest() {
    assert_eq!(wrap("one\n\ntwo", 80, 0), vec!["one", "", "two"]);
    assert_eq!(wrap("ab   ", 2, 0), vec!["ab", "  "]);
}

#[test]
fn error_messages() {
    assert_eq!(TerminalSizeError.message(), "Failed to retrieve valid dimensions for terminal");
    let e = UiError { message: "nope".to_string() };
    assert_eq!(e.message(), "nope");
}


#[test]
fn test_wrap_line_tabs() {
    // "hello" (5) + tab (to col 8) + "world" (5) = 13 columns.
    let line = "hello\tworld";
    let lines = wrap_line(line, 10, 0);
    assert_eq!(lines.len(), 2);
    assert_eq!(lines[0], "hello\t");
    assert_eq!(lines[1], "world");

    let lines = wrap_line(line, 15, 0);
    assert_eq!(lines.len(), 1);
    assert_eq!(lines[0], "hello\tworld");

    let line = "\tstart";
    let lines = wrap_line(line, 10, 0);
    assert_eq!(lines.len(), 2);
    assert_eq!(lines[0], "\t");
    assert_eq!(lines[1], "start");

    let line = "a\tb\tc";
    let lines = wrap_line(line, 10, 0);
    assert_eq!(lines.len(), 2);
    assert_eq!(lines[0], "a\tb");
    assert_eq!(lines[1], "\tc");
}

#[test]
fn a_tab_is_a_break_and_one_that_does_not_fit_starts_the_next_row() {
    // The row ends after a tab that fits.
    let lines = wrap_line("abcdefg\tXYZ", 10, 0);
    assert_eq!(lines, vec!["abcdefg\t", "XYZ"]);
    // A tab that does not fit starts the next row at column 8, so only two
    // more columns fit there.
    let lines = wrap_line("abcdefghi\tXYZ", 10, 0);
    assert_eq!(lines, vec!["abcdefghi", "\tXY", "Z"]);
}

#[test]
fn the_character_that_forces_a_break_is_counted_on_the_new_row() {
    assert_eq!(wrap_line("ab cdefgh", 5, 0), vec!["ab", "cdefg", "h"]);
    for width in 1..12usize {
        for row in wrap_line("the quick brown fox jumps over the lazy dog", width, 0) {
            assert!(row.chars().count() <= width, "{row:?} at {width}");
        }
    }
}
