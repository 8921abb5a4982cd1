use blightmud::tabs::TabOpts;
use blightmud::tabs::TabSet;
use blightmud::ui::split_screen::{configure_top_area, set_tab_indicator, setup_layout, TopBarSettings};
use blightmud::tabs::TabInfo;
use blightmud::ui::top_area::{
    TopArea, TopPrefix, TopPrefixStyle, TopRow, TopRowBody, TopRowOpts, HOST_STATUS, TAB_INDICATOR,
};
use blightmud::ui::top_render::{draw_bar, render_row, render_top_area, Piece, TopRenderContext};

#[test]
fn default_layout_has_two_rows() {
    let area = TopArea::new_default();
    assert_eq!(area.rows().len(), 2);
    assert_eq!(area.rows()[0].name, TAB_INDICATOR);
    assert_eq!(area.rows()[1].name, HOST_STATUS);
    assert!(matches!(area.rows()[0].body, TopRowBody::TabIndicator));
    assert!(matches!(area.rows()[1].body, TopRowBody::HostTags));
}

#[test]
fn visible_row_count_skips_hidden() {
    let mut area = TopArea::new_default();
    assert_eq!(area.visible_row_count(), 1);
    area.rows_mut()[0].visible = true;
    assert_eq!(area.visible_row_count(), 2);
}

#[test]
fn screen_line_skips_hidden() {
    let mut area = TopArea::new_default();
    assert_eq!(area.screen_line(0, 1), 0);
    assert_eq!(area.screen_line(1, 1), 1);
    area.rows_mut()[0].visible = true;
    assert_eq!(area.screen_line(0, 1), 1);
    assert_eq!(area.screen_line(1, 1), 2);
}

#[test]
fn find_returns_row_index() {
    let area = TopArea::new_default();
    assert_eq!(area.find(TAB_INDICATOR), Some(0));
    assert_eq!(area.find(HOST_STATUS), Some(1));
    assert_eq!(area.find("nonexistent"), None);
}

#[test]
fn added_row_goes_last_and_can_be_removed() {
    let mut area = TopArea::new_default();
    let idx = area.add_row(TopRowOpts {
        name: Some("hp".to_string()),
        body: Some(TopRowBody::Text("HP".to_string())),
        visible: Some(true),
        ..Default::default()
    });
    assert_eq!(idx, 2);
    assert_eq!(area.find("hp"), Some(2));
    assert_eq!(area.visible_row_count(), 2);
    assert!(area.remove_row(2));
    assert_eq!(area.find("hp"), None);
}

fn settings(hide_topbar: bool, inline_tabs: bool) -> TopBarSettings {
    TopBarSettings { hide_topbar, brand: true, inline_tabs, indicator_visible: true }
}

#[test]
fn indicator_shows_with_several_tabs() {
    let mut area = TopArea::new_default();
    configure_top_area(&mut area, &settings(false, false), 2);
    assert!(area.rows()[0].visible);
    assert!(area.rows()[1].visible);
    assert_eq!(area.rows()[0].prefix.as_ref().unwrap().text, " Blightmud ");
    configure_top_area(&mut area, &settings(false, false), 1);
    assert!(!area.rows()[0].visible);
}

#[test]
fn inline_tabs_hide_the_indicator_row() {
    let mut area = TopArea::new_default();
    configure_top_area(&mut area, &settings(false, true), 3);
    assert!(!area.rows()[0].visible);
    configure_top_area(&mut area, &settings(true, true), 3);
    assert!(area.rows()[0].visible);
    assert!(!area.rows()[1].visible);
}

#[test]
fn setup_layout_counts_visible_top_rows() {
    let mut area = TopArea::new_default();
    let layout = setup_layout(&mut area, &settings(false, false), 2, 80, 24, 1).unwrap();
    assert_eq!(layout.output_start_line, 3);
    assert!(setup_layout(&mut area, &settings(false, false), 2, 0, 24, 1).is_err());
    assert!(setup_layout(&mut area, &settings(false, false), 2, 80, 3, 1).is_err());
}

#[test]
fn tab_set_has_one_tab_to_start() {
    let mut ts = TabSet::new();
    assert_eq!(ts.list().len(), 1);
    ts.create("chat", TabOpts::default()).unwrap();
    assert_eq!(ts.list().len(), 2);
}

#[test]
fn tab_indicator_row_follows_tab_count() {
    let mut top = TopArea::new_default();
    assert_eq!(top.visible_row_count(), 1);
    assert!(set_tab_indicator(&mut top, 2, false));
    assert!(top.get(0).unwrap().visible);
    assert_eq!(top.visible_row_count(), 2);
    assert!(!set_tab_indicator(&mut top, 3, false));
    assert!(set_tab_indicator(&mut top, 1, false));
    assert!(!top.get(0).unwrap().visible);
}

#[test]
fn tab_indicator_inline_on_visible_host_row() {
    let mut top = TopArea::new_default();
    assert!(!set_tab_indicator(&mut top, 2, true));
    assert!(!top.get(0).unwrap().visible);
    let host = top.find(HOST_STATUS).unwrap();
    top.get_mut(host).unwrap().visible = false;
    assert!(set_tab_indicator(&mut top, 2, true));
    assert!(top.get(top.find(TAB_INDICATOR).unwrap()).unwrap().visible);
}

/// The text the pieces print, colour switches left out.
fn plain(pieces: &[Piece]) -> String {
    pieces
        .iter()
        .map(|p| match p {
            Piece::Text(t) => t.as_str(),
            Piece::Style(_) => "",
        })
        .collect()
}

fn ctx(width: u16, connection: Option<&str>, tags: &[&str], tabs: Vec<TabInfo>) -> TopRenderContext {
    TopRenderContext {
        width,
        connection: connection.map(|c| c.to_string()),
        tags: tags.iter().map(|t| t.to_string()).collect(),
        tabs,
        inline_tabs_active: false,
    }
}

fn render_to_string(row: &TopRow, ctx: &TopRenderContext) -> String {
    plain(&render_row(row, ctx))
}

fn host_row(body: TopRowBody) -> TopRow {
    TopRow { name: HOST_STATUS.to_string(), bar_char: '═', prefix: None, body, visible: true }
}

fn two_tabs(unread: u32) -> Vec<TabInfo> {
    vec![
        TabInfo {
            name: "main".to_string(),
            label: "main".to_string(),
            active: true,
            unread: 0,
            shortcut: None,
        },
        TabInfo {
            name: "chat".to_string(),
            label: "chat".to_string(),
            active: false,
            unread,
            shortcut: None,
        },
    ]
}

#[test]
fn text_body_pads_to_width() {
    let row = host_row(TopRowBody::Text("test".to_string()));
    let out = render_to_string(&row, &ctx(10, None, &[], vec![]));
    assert_eq!(out, "═ test ═══");
}

#[test]
fn empty_body_is_unbroken_bar() {
    let row = host_row(TopRowBody::Empty);
    let out = render_to_string(&row, &ctx(10, None, &[], vec![]));
    assert_eq!(out, "══════════");
}

#[test]
fn long_text_body_is_truncated() {
    let row = host_row(TopRowBody::Text("this text is too long".to_string()));
    let out = render_to_string(&row, &ctx(10, None, &[], vec![]));
    assert_eq!(out, "═ this t ═");
}

#[test]
fn host_tags_body_renders_connection() {
    let row = host_row(TopRowBody::HostTags);
    let out = render_to_string(&row, &ctx(40, Some("swmud.org:7777"), &["tag1"], vec![]));
    assert!(out.starts_with("═ swmud.org:7777 [tag1] "));
    assert_eq!(out.chars().count(), 40);
}

#[test]
fn tab_indicator_body_renders_tabs() {
    let row = TopRow {
        name: TAB_INDICATOR.to_string(),
        bar_char: '═',
        prefix: Some(TopPrefix { text: " Blightmud ".to_string(), style: TopPrefixStyle::Brand }),
        body: TopRowBody::TabIndicator,
        visible: true,
    };
    let out = render_to_string(&row, &ctx(60, None, &[], two_tabs(3)));
    assert!(out.contains("Blightmud"));
    assert!(out.contains("[main]"));
    assert!(out.contains("(chat·3)"));
    assert_eq!(out.chars().count(), 60);
}

#[test]
fn host_tags_with_inline_tabs_composes() {
    let row = host_row(TopRowBody::HostTags);
    let mut c = ctx(50, Some("swmud.org:7777"), &[], two_tabs(0));
    c.inline_tabs_active = true;
    let out = render_to_string(&row, &c);
    assert!(out.contains("swmud.org:7777"));
    assert!(out.contains("[main]"));
    assert!(out.contains("(chat)"));
    assert_eq!(out.chars().count(), 50);
}

#[test]
fn text_body_with_inline_tabs_composes() {
    let row = host_row(TopRowBody::Text("HP 80/100".to_string()));
    let mut c = ctx(50, None, &[], two_tabs(0));
    c.inline_tabs_active = true;
    let out = render_to_string(&row, &c);
    assert!(out.contains("HP 80/100"));
    assert!(out.contains("[main]"));
    assert_eq!(out.chars().count(), 50);
}

#[test]
fn host_tags_are_sorted() {
    let row = host_row(TopRowBody::HostTags);
    let out = render_to_string(&row, &ctx(40, Some("mud:23"), &["zeta", "alpha", "ab"], vec![]));
    assert!(out.starts_with("═ mud:23 [ab][alpha][zeta] "));
}

#[test]
fn tab_shortcut_and_separator() {
    let mut tabs = two_tabs(0);
    tabs[1].shortcut = Some("F2".to_string());
    let row = TopRow {
        name: TAB_INDICATOR.to_string(),
        bar_char: '═',
        prefix: None,
        body: TopRowBody::TabIndicator,
        visible: true,
    };
    let out = render_to_string(&row, &ctx(30, None, &[], tabs));
    assert_eq!(out, "═ [main] │ (F2 - chat) ═══════");
}

#[test]
fn test_draw_bar_pads_to_length_ignoring_escape_sequences() {
    let info = "test";
    assert_eq!(plain(&draw_bar('━', 10, info).unwrap()), "━ test ━━━");
}

#[test]
fn test_draw_bar_is_unbroken_for_empty_string() {
    assert_eq!(plain(&draw_bar('━', 10, "").unwrap()), "━━━━━━━━━━");
}

#[test]
fn test_draw_bar_truncates_long_text() {
    let info = "this text is too long";
    assert_eq!(plain(&draw_bar('━', 10, info).unwrap()), "━ this t ━");
}

#[test]
fn draw_bar_trims_and_keeps_escapes() {
    let info = "  \x1b[31mred\x1b[0m  ";
    let pieces = draw_bar('━', 12, info).unwrap();
    assert_eq!(plain(&pieces), "━ \x1b[31mred\x1b[0m ━━━━━━");
}

#[test]
fn draw_bar_needs_room() {
    assert!(draw_bar('━', 3, "x").is_none());
    assert!(draw_bar('━', 3, "  ").is_some());
}

#[test]
fn the_top_area_draws_shown_rows_on_consecutive_lines() {
    let mut area = TopArea::new_default();
    area.add_row(TopRowOpts {
        name: Some("hp".to_string()),
        body: Some(TopRowBody::Text("HP".to_string())),
        visible: Some(true),
        ..Default::default()
    });
    let c = ctx(40, Some("host:23"), &[], vec![]);
    let drawn = render_top_area(area.rows(), 3, &c);
    // The tab indicator row is hidden: the host row and the added row show.
    assert_eq!(drawn.len(), 2);
    assert_eq!(drawn[0].0, 3);
    assert_eq!(drawn[1].0, 4);
    assert_eq!(plain(&drawn[0].1), render_to_string(&area.rows()[1], &c));
    assert_eq!(plain(&drawn[1].1), render_to_string(&area.rows()[2], &c));
}
