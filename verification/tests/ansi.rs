use blightmud::ui::ansi::{DisableOriginMode, ResetScrollRegion, ScrollRegion};

#[test]
fn test_scroll_region_display() {
    let region = ScrollRegion(5, 20);
    assert_eq!(region.render(), "\x1b[5;20r");
}

#[test]
fn test_scroll_region_display_different_values() {
    let region = ScrollRegion(1, 100);
    assert_eq!(region.render(), "\x1b[1;100r");
}

#[test]
fn test_reset_scroll_region_display() {
    let reset = ResetScrollRegion;
    assert_eq!(reset.render(), "\x1b[r");
}

#[test]
fn test_disable_origin_mode_display() {
    let disable = DisableOriginMode;
    assert_eq!(disable.render(), "\x1b[?6l");
}

#[test]
fn scroll_region_renders_zero_and_largest_rows() {
    assert_eq!(ScrollRegion(0, 65535).render(), "\x1b[0;65535r");
}
