use blightmud::ui::layout::{ScreenLayout, INPUT_HEIGHT_MAX, INPUT_HEIGHT_MIN, MIN_OUTPUT_ROWS};

#[test]
fn single_row_input_layout_boundaries() {
    for height in [24_u16, 40, 50, 80] {
        for top_rows in [1_u16, 2] {
            for status in [0_u16, 1, 3, 5] {
                let layout = ScreenLayout::compute(height, top_rows, status, 1).unwrap();
                assert_eq!(layout.output_start_line, top_rows + 1);
                assert_eq!(layout.output_line, height - status - 2);
                assert_eq!(layout.mud_prompt_line, height - status - 1);
                assert_eq!(layout.input_start_line, height);
                assert_eq!(layout.status_height, status);
            }
        }
    }
}

#[test]
fn short_terminal_does_not_underflow() {
    assert!(ScreenLayout::compute(3, 1, 1, 1).is_none());
    assert!(ScreenLayout::compute(2, 1, 0, 1).is_none());
    assert!(ScreenLayout::compute(1, 1, 0, 1).is_none());
    assert!(ScreenLayout::compute(0, 0, 0, 1).is_none());
}

#[test]
fn status_height_five_on_six_row_terminal_leaves_output() {
    let layout = ScreenLayout::compute(6, 1, 5, 1).unwrap();
    assert!(layout.is_scroll_region_valid());
    assert!(layout.output_rows() >= MIN_OUTPUT_ROWS);
    assert!(layout.status_height < 5);
}

#[test]
fn input_height_squeezes_before_status_starves() {
    let layout = ScreenLayout::compute(12, 1, 3, 5).unwrap();
    assert_eq!(layout.input_height, 5);
    assert_eq!(layout.status_height, 3);

    let layout = ScreenLayout::compute(11, 1, 3, 5).unwrap();
    assert_eq!(layout.input_height, 4);
    assert_eq!(layout.status_height, 3);

    let layout = ScreenLayout::compute(8, 1, 3, 5).unwrap();
    assert_eq!(layout.input_height, INPUT_HEIGHT_MIN);
    assert_eq!(layout.status_height, 3);

    let layout = ScreenLayout::compute(7, 1, 3, 5).unwrap();
    assert_eq!(layout.input_height, INPUT_HEIGHT_MIN);
    assert_eq!(layout.status_height, 2);
}

#[test]
fn regions_tile_the_terminal_exactly() {
    for height in 0_u16..64 {
        for top_rows in 0_u16..4 {
            for status in 0_u16..6 {
                for input in 1_u16..12 {
                    let Some(layout) = ScreenLayout::compute(height, top_rows, status, input) else {
                        continue;
                    };

                    assert_eq!(layout.output_start_line, top_rows + 1);
                    assert_eq!(layout.mud_prompt_line, layout.output_line + 1);
                    assert_eq!(
                        layout.input_start_line,
                        layout.mud_prompt_line + layout.status_height + 1
                    );
                    assert_eq!(layout.input_start_line + layout.input_height - 1, height);

                    assert!(layout.input_height >= INPUT_HEIGHT_MIN);
                    assert!(layout.input_height <= input.max(INPUT_HEIGHT_MIN));
                    assert!(layout.status_height <= status);
                }
            }
        }
    }
}

#[test]
fn scroll_region_is_never_emitted_with_bottom_le_top() {
    for height in 0_u16..64 {
        for top_rows in 0_u16..4 {
            for status in 0_u16..6 {
                for input in 1_u16..12 {
                    if let Some(layout) = ScreenLayout::compute(height, top_rows, status, input) {
                        assert!(
                            layout.is_scroll_region_valid(),
                            "invalid scroll region {}..{} from ({height}, {top_rows}, {status}, {input})",
                            layout.output_start_line,
                            layout.output_line,
                        );
                        assert!(layout.output_rows() >= MIN_OUTPUT_ROWS);
                    }
                }
            }
        }
    }
}

#[test]
fn input_height_clamps_to_max() {
    let layout = ScreenLayout::compute(80, 1, 1, 500).unwrap();
    assert_eq!(layout.input_height, INPUT_HEIGHT_MAX);
}

#[test]
fn input_height_zero_is_raised_to_minimum() {
    let layout = ScreenLayout::compute(80, 1, 1, 0).unwrap();
    assert_eq!(layout.input_height, INPUT_HEIGHT_MIN);
}

#[test]
fn minimal_terminal_fits_exactly() {
    let layout = ScreenLayout::compute(5, 1, 0, 1).unwrap();
    assert_eq!(layout.output_start_line, 2);
    assert_eq!(layout.output_line, 3);
    assert_eq!(layout.input_start_line, 5);
}
