use blightmud::model::Pattern;
use blightmud::ui::history::History;
use blightmud::ui::scroll_data::{ScrollData, ScrollSettings};
use blightmud::ui::scroll_view::{
    find_down, find_up, init_scroll, output_range, reset_scroll, scroll_down, scroll_range,
    scroll_rows, scroll_to, scroll_top, scroll_up, ScrollAction, ScrollStart,
};
use blightmud::ui::status_area::{StatusArea, StatusRow};

fn history(n: usize) -> History {
    let mut h = History::new();
    for i in 0..n {
        h.append(&format!("line {}", i));
    }
    h
}

#[test]
fn ranges_of_the_output_region() {
    assert_eq!(output_range(3, 22), 20);
    assert_eq!(scroll_range(3, 22, true), 10);
    assert_eq!(scroll_range(3, 22, false), 20);
    assert_eq!(scroll_range(3, 10, true), 8);
}

#[test]
fn scrolling_starts_split_when_there_is_room() {
    let mut sd = ScrollData::new(&ScrollSettings::unset());
    assert_eq!(init_scroll(&mut sd, 3, 22), ScrollStart::Split { divider_line: 13 });
    assert!(sd.active && sd.split);
    let mut sd = ScrollData::new(&ScrollSettings::unset());
    sd.allow_split = false;
    assert_eq!(init_scroll(&mut sd, 3, 22), ScrollStart::Marker);
    assert!(sd.active && !sd.split);
}

#[test]
fn scroll_up_then_down_to_the_end() {
    let h = history(40);
    let mut sd = ScrollData::new(&ScrollSettings::unset());
    assert_eq!(
        scroll_up(&mut sd, &h, 3, 22),
        ScrollAction::Draw(Some(ScrollStart::Split { divider_line: 13 }))
    );
    assert_eq!(sd.pos, 25);
    assert_eq!(scroll_up(&mut sd, &h, 3, 22), ScrollAction::Draw(None));
    assert_eq!(sd.pos, 20);
    assert_eq!(scroll_down(&mut sd, &h, 3, 22), ScrollAction::Draw(None));
    assert_eq!(sd.pos, 25);
    assert_eq!(scroll_down(&mut sd, &h, 3, 22), ScrollAction::Reset);
}

#[test]
fn nothing_scrolls_while_the_history_fits() {
    let h = history(5);
    let mut sd = ScrollData::new(&ScrollSettings::unset());
    assert_eq!(scroll_up(&mut sd, &h, 3, 22), ScrollAction::Nothing);
    assert!(!sd.active);
    assert_eq!(scroll_down(&mut sd, &h, 3, 22), ScrollAction::Nothing);
    assert_eq!(scroll_to(&mut sd, &h, 3, 22, 0), ScrollAction::Nothing);
    assert_eq!(scroll_top(&mut sd, &h, 3, 22), ScrollAction::Nothing);
}

#[test]
fn scroll_to_and_top() {
    let h = history(40);
    let mut sd = ScrollData::new(&ScrollSettings::unset());
    assert!(matches!(scroll_to(&mut sd, &h, 3, 22, 7), ScrollAction::Draw(Some(_))));
    assert_eq!(sd.pos, 7);
    assert_eq!(scroll_to(&mut sd, &h, 3, 22, 35), ScrollAction::Reset);
    assert!(matches!(scroll_top(&mut sd, &h, 3, 22), ScrollAction::Draw(Some(_))));
    assert_eq!(sd.pos, 0);
}

#[test]
fn searching_scrolls_to_the_match() {
    let h = history(40);
    let mut sd = ScrollData::new(&ScrollSettings::unset());
    let p = Pattern::new("^line 3$").unwrap();
    let (found, action) = find_up(&mut sd, &h, 3, 22, &p);
    assert_eq!(found, Some(3));
    assert!(matches!(action, ScrollAction::Draw(Some(_))));
    assert_eq!(sd.pos, 3);
    assert!(sd.hilite.is_some());
    let p = Pattern::new("^line 9$").unwrap();
    let (found, _) = find_down(&mut sd, &h, 3, 22, &p);
    assert_eq!(found, Some(9));
    assert_eq!(sd.pos, 9);
    let p = Pattern::new("nope").unwrap();
    assert_eq!(find_down(&mut sd, &h, 3, 22, &p), (None, ScrollAction::Nothing));
}

#[test]
fn scroll_rows_stop_at_the_end_of_the_history() {
    let h = history(12);
    let mut sd = ScrollData::new(&ScrollSettings::unset());
    sd.active = true;
    sd.pos = 8;
    assert_eq!(scroll_rows(&sd, &h, 3, 22), vec![(3, 8), (4, 9), (5, 10), (6, 11)]);
}

#[test]
fn resetting_redraws_the_last_screenful() {
    let h = history(30);
    let mut sd = ScrollData::new(&ScrollSettings::unset());
    scroll_up(&mut sd, &h, 3, 22);
    let plan = reset_scroll(&mut sd, &h, 3, 22, Ok(ScrollSettings::unset())).unwrap();
    assert!(plan.reset_region);
    assert!(!plan.clear_marker);
    assert!(!plan.replay_all);
    assert_eq!(plan.rows.len(), 20);
    assert_eq!(plan.rows[0], (3, 10));
    assert!(!sd.active);
    let short = history(4);
    let plan = reset_scroll(&mut sd, &short, 3, 22, Ok(ScrollSettings::unset())).unwrap();
    assert!(plan.replay_all);
}

#[test]
fn status_area_lines() {
    let mut area = StatusArea::new(9, 20, 80);
    assert_eq!(area.height(), 5);
    area.set_status_line(1, "HP 100".to_string());
    area.set_status_line(99, "last".to_string());
    assert_eq!(area.row(1), StatusRow { line: 21, text: "HP 100".to_string(), bar: false });
    assert_eq!(area.row(4), StatusRow { line: 24, text: "last".to_string(), bar: true });
    area.set_scroll_marker(true);
    assert_eq!(area.row(0).text, "(more) ");
    area.set_status_line(0, "top".to_string());
    assert_eq!(area.row(0).text, "(more) ━ top ");
    area.set_status_line(0, "   ".to_string());
    area.set_scroll_marker(false);
    assert_eq!(area.row(0).text, "");
    area.set_height(2, 30);
    assert_eq!(area.height(), 2);
    assert_eq!(area.row(1).line, 31);
    assert_eq!(area.row(1).text, "");
}

#[test]
fn resetting_without_settings_redraws_nothing() {
    let h = history(30);
    let mut sd = ScrollData::new(&ScrollSettings::unset());
    scroll_up(&mut sd, &h, 3, 22);
    assert!(reset_scroll(&mut sd, &h, 3, 22, Err(blightmud::ui::scroll_data::ScrollError)).is_err());
    assert!(!sd.active);
}
