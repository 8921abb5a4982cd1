use blightmud::display::display_width;
use blightmud::ui::input_layout::{cursor_row_col, desired_height, rows, visible_rows};
use blightmud::ui::layout::{INPUT_HEIGHT_MAX, INPUT_HEIGHT_MIN};
use std::ops::Range;

fn rows_of(input: &str, width: u16) -> Vec<Range<usize>> {
    rows(input, width)
}

fn cursor(input: &str, pos: usize, width: u16) -> (u16, u16) {
    cursor_row_col(input, pos, width)
}

fn row_strs(input: &str, width: u16) -> Vec<&str> {
    rows_of(input, width).into_iter().map(|r| &input[r]).collect::<Vec<_>>()
}

#[test]
fn plain_line_shorter_than_width_is_one_row() {
    assert_eq!(row_strs("hello", 20), vec!["hello"]);
}

#[test]
fn empty_input_is_one_empty_row() {
    assert_eq!(row_strs("", 20), vec![""]);
}

#[test]
fn newlines_start_new_rows_and_are_not_content() {
    assert_eq!(row_strs("a\nb\nc", 20), vec!["a", "b", "c"]);
    assert_eq!(row_strs("a\n", 20), vec!["a", ""]);
    assert_eq!(row_strs("a\n\nb", 20), vec!["a", "", "b"]);
}

#[test]
fn long_line_wraps_losslessly() {
    assert_eq!(row_strs("abcdefgh", 3), vec!["abc", "def", "gh"]);
}

#[test]
fn exact_multiple_of_width_gets_a_trailing_empty_row() {
    assert_eq!(row_strs("abc", 3), vec!["abc", ""]);
    assert_eq!(row_strs("abcdef", 3), vec!["abc", "def", ""]);
    assert_eq!(row_strs("abcd", 3), vec!["abc", "d"]);
    assert_eq!(row_strs("", 3), vec![""]);
}

#[test]
fn wide_characters_wrap_by_display_width_not_char_count() {
    assert_eq!(row_strs("中文中文", 5), vec!["中文", "中文"]);
}

#[test]
fn glyph_wider_than_area_terminates() {
    assert_eq!(row_strs("中文", 1), vec!["中", "文", ""]);
    assert_eq!(cursor("中文", 2, 1), (2, 0));
}

#[test]
fn escapes_consume_no_columns() {
    let input = "\x1b[31mabcde\x1b[0m";
    assert_eq!(rows_of(input, 5).len(), 2);
    assert_eq!(&input[rows_of(input, 5)[0].clone()], input);
}

#[test]
fn rows_partition_the_input() {
    for input in [
        "",
        "a",
        "hello world",
        "a\nb",
        "a\n\nb\n",
        "\n\n\n",
        "中文test中文",
        "\x1b[31mred\x1b[0m text",
        "trailing   ",
    ] {
        for width in 1..=12u16 {
            let rows = rows_of(input, width);
            assert!(!rows.is_empty(), "{input:?} @ {width} produced no rows");

            let mut expected = 0usize;
            for row in &rows {
                assert!(row.start >= expected, "rows out of order in {input:?}");
                assert!(row.end >= row.start);
                assert!(row.end <= input.len());
                if row.start > expected {
                    assert_eq!(&input[expected..row.start], "\n", "unexpected gap in {input:?} @ {width}");
                }
                expected = row.end;
            }

            let joined: String = rows.iter().map(|r| &input[r.clone()]).collect();
            assert_eq!(joined, input.replace('\n', ""), "lost content in {input:?} @ {width}");
        }
    }
}

#[test]
fn cursor_is_always_inside_a_real_row() {
    for input in [
        "",
        "a",
        "hello world",
        "a\nb\nc",
        "a\n\nb\n",
        "中文test中文",
        "\x1b[31mred\x1b[0m text",
        "abc",
        "abcdef",
    ] {
        for width in 1..=12u16 {
            let rows = rows_of(input, width);
            for pos in 0..=input.chars().count() {
                let (row, col) = cursor(input, pos, width);

                assert!(
                    (row as usize) < rows.len(),
                    "cursor row {row} out of range for {input:?} @ {width} pos {pos}"
                );

                let text = &input[rows[row as usize].clone()];
                assert!(
                    col as usize <= display_width(text),
                    "cursor col {col} past end of row {row} ({text:?}) for {input:?} @ {width} pos {pos}"
                );
            }
        }
    }
}

#[test]
fn cursor_at_start_is_row_zero_column_zero() {
    assert_eq!(cursor("hello", 0, 20), (0, 0));
    assert_eq!(cursor("", 0, 20), (0, 0));
}

#[test]
fn cursor_tracks_logical_rows() {
    let input = "ab\ncd";
    assert_eq!(cursor(input, 2, 20), (0, 2));
    assert_eq!(cursor(input, 3, 20), (1, 0));
    assert_eq!(cursor(input, 5, 20), (1, 2));
}

#[test]
fn cursor_wraps_onto_the_trailing_empty_row() {
    assert_eq!(cursor("abc", 3, 3), (1, 0));
    assert_eq!(cursor("abc", 2, 3), (0, 2));
}

#[test]
fn cursor_column_counts_display_width() {
    assert_eq!(cursor("中文test", 2, 20), (0, 4));
}

#[test]
fn cursor_past_end_clamps() {
    let (row, col) = cursor("abc", 99, 20);
    assert_eq!((row, col), (0, 3));
}

#[test]
fn desired_height_is_the_configured_value_when_not_expanding() {
    assert_eq!(desired_height(1, 3, false), 3);
    assert_eq!(desired_height(9, 3, false), 3);
    assert_eq!(desired_height(1, 1, false), 1);
}

#[test]
fn desired_height_grows_and_shrinks_when_expanding() {
    assert_eq!(desired_height(1, 1, true), 1);
    assert_eq!(desired_height(4, 1, true), 4);
    assert_eq!(desired_height(1, 3, true), 3);
    assert_eq!(desired_height(500, 1, true), INPUT_HEIGHT_MAX);
    assert_eq!(desired_height(usize::MAX, 1, true), INPUT_HEIGHT_MAX);
}

#[test]
fn desired_height_clamps_a_nonsense_configuration() {
    assert_eq!(desired_height(1, 0, false), INPUT_HEIGHT_MIN);
    assert_eq!(desired_height(1, 500, false), INPUT_HEIGHT_MAX);
}

#[test]
fn all_rows_visible_when_they_fit() {
    assert_eq!(visible_rows(3, 0, 5), 0..3);
    assert_eq!(visible_rows(3, 2, 3), 0..3);
    assert_eq!(visible_rows(0, 0, 3), 0..0);
}

#[test]
fn visible_window_follows_the_cursor() {
    assert_eq!(visible_rows(10, 0, 3), 0..3);
    assert_eq!(visible_rows(10, 2, 3), 0..3);
    assert_eq!(visible_rows(10, 3, 3), 1..4);
    assert_eq!(visible_rows(10, 9, 3), 7..10);
}

#[test]
fn visible_window_always_contains_the_cursor() {
    for row_count in 1..30usize {
        for height in 1..12u16 {
            for cursor in 0..row_count {
                let window = visible_rows(row_count, cursor, height);
                assert!(
                    window.contains(&cursor),
                    "cursor {cursor} outside {window:?} (rows {row_count}, height {height})"
                );
                assert!(window.end <= row_count);
                assert!(window.len() <= height as usize);
            }
        }
    }
}
