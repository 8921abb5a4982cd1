use blightmud::display::{byte_index_at_display_width, display_width};

const ANSI_RED: &str = "\x1b[30m";
const ANSI_OFF: &str = "\x1b[0m";

fn width(s: &str) -> usize {
    display_width(s)
}

fn index_at(s: &str, target: usize) -> (usize, usize) {
    byte_index_at_display_width(s, target)
}

#[test]
fn test_display_width() {
    assert_eq!(width("hello"), 5);
    assert_eq!(width("中文"), 4);
    assert_eq!(width("中文test"), 8);
    let ansi_str = format!("{}hello{}", ANSI_RED, ANSI_OFF);
    assert_eq!(width(ansi_str.as_str()), 5);
    let ansi_wide = format!("{}中文{}", ANSI_RED, ANSI_OFF);
    assert_eq!(width(ansi_wide.as_str()), 4);
}

#[test]
fn test_byte_index_at_display_width() {
    let (idx, w) = index_at("hello", 3);
    assert_eq!(idx, 3);
    assert_eq!(w, 3);

    let input = "中文test";
    let (idx, w) = index_at(input, 4);
    assert_eq!(idx, 6);
    assert_eq!(w, 4);

    let (idx, w) = index_at(input, 3);
    assert_eq!(idx, 3);
    assert_eq!(w, 2);

    let (idx, w) = index_at(input, 6);
    assert_eq!(idx, 8);
    assert_eq!(w, 6);
}

#[test]
fn everything_fits_gives_the_whole_text() {
    assert_eq!(index_at("abc", 10), (3, 3));
    assert_eq!(index_at("", 0), (0, 0));
}

#[test]
fn escapes_take_no_columns_but_their_bytes_count() {
    let s = format!("{}ab", ANSI_RED);
    assert_eq!(index_at(s.as_str(), 1), (6, 1));
}

#[test]
fn control_characters_take_no_columns() {
    assert_eq!(display_width("a\u{7}b"), 2);
}
