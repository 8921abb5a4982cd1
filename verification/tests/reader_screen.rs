use blightmud::ui::reader_screen::{ReaderInputAction, ReaderPrompt};

fn test_screen() -> ReaderPrompt {
    ReaderPrompt::new(40)
}

fn draw(screen: &mut ReaderPrompt, input: &str, pos: usize) -> ReaderInputAction {
    screen.print_prompt_input(input, pos).unwrap()
}

fn rendered(action: &ReaderInputAction) -> String {
    match action {
        ReaderInputAction::Redraw { text, .. } => text.clone(),
        ReaderInputAction::Append { text, .. } => text.clone(),
        ReaderInputAction::Trim { .. } => String::new(),
    }
}

#[test]
fn row_breaks_are_substituted_not_dropped() {
    let mut screen = test_screen();
    let out = rendered(&draw(&mut screen, "one\ntwo", 7));
    assert!(out.contains("one two"), "row break was dropped, giving {out:?}");
    assert!(!out.contains("onetwo"));
}

#[test]
fn row_break_does_not_shift_the_cursor_column() {
    let mut screen = test_screen();
    draw(&mut screen, "one\ntwo", 7);
    let (_, with_break) = screen.last_input().clone().unwrap();

    let mut screen = test_screen();
    draw(&mut screen, "one two", 7);
    let (_, without_break) = screen.last_input().clone().unwrap();

    assert_eq!(with_break, without_break);
}

#[test]
fn input_height_is_always_one() {
    let mut screen = test_screen();
    assert_eq!(screen.input_height(), 1);
    screen.set_input_height(5).unwrap();
    assert_eq!(screen.input_height(), 1);
}

#[test]
fn typing_at_the_end_only_draws_the_new_text() {
    let mut screen = test_screen();
    draw(&mut screen, "look", 4);
    assert_eq!(
        draw(&mut screen, "look at", 7),
        ReaderInputAction::Append { text: " at".to_string(), start: 4, end: 7 }
    );
}

#[test]
fn deleting_at_the_end_trims_the_row() {
    let mut screen = test_screen();
    draw(&mut screen, "look at", 7);
    assert_eq!(draw(&mut screen, "look", 4), ReaderInputAction::Trim { pos: 4 });
}

#[test]
fn escapes_are_not_drawn() {
    let mut screen = test_screen();
    assert_eq!(
        draw(&mut screen, "\x1b[31mred", 8),
        ReaderInputAction::Redraw { text: "red".to_string(), cursor_col: 4 }
    );
}
