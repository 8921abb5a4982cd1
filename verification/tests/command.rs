use blightmud::ui::command::{human_key, CommandBuffer};

fn push_string(buffer: &mut CommandBuffer, msg: &str) {
    msg.chars().for_each(|c| buffer.push_key(c));
}

fn get_command() -> CommandBuffer {
    CommandBuffer::new()
}

#[test]
fn test_editing() {
    let mut buffer = get_command();

    push_string(&mut buffer, "test is test");
    assert_eq!(buffer.get_buffer(), "test is test");
    assert_eq!(buffer.get_pos(), 12);
    buffer.step_left();
    buffer.step_left();
    buffer.step_left();
    buffer.step_left();
    buffer.remove();
    buffer.remove();
    buffer.remove();
    buffer.remove();
    assert_eq!(buffer.get_buffer(), "testtest");
    assert_eq!(buffer.get_pos(), 4);
    push_string(&mut buffer, " confirm ");
    assert_eq!(buffer.get_buffer(), "test confirm test");
    assert_eq!(buffer.get_pos(), 13);
}

#[test]
fn test_no_zero_index_remove_crash() {
    let mut buffer = get_command();
    buffer.push_key('t');
    buffer.step_left();
    assert_eq!(buffer.get_pos(), 0);
    buffer.remove();
    assert_eq!(buffer.get_pos(), 0);
}

#[test]
fn test_input_navigation() {
    let mut buffer = get_command();
    push_string(&mut buffer, "some random words");
    buffer.step_word_left();
    assert_eq!(buffer.get_pos(), 12);
    buffer.step_word_left();
    assert_eq!(buffer.get_pos(), 5);
    buffer.step_word_left();
    assert_eq!(buffer.get_pos(), 0);
    buffer.step_word_left();
    assert_eq!(buffer.get_pos(), 0);
    buffer.step_word_right();
    assert_eq!(buffer.get_pos(), 4);
    buffer.step_word_right();
    assert_eq!(buffer.get_pos(), 11);
    buffer.step_word_right();
    assert_eq!(buffer.get_pos(), 17);
    buffer.step_word_right();
    assert_eq!(buffer.get_pos(), 17);
}

#[test]
fn test_end_start_navigation() {
    let mut buffer = get_command();
    push_string(&mut buffer, "some random words");
    buffer.move_to_start();
    assert_eq!(buffer.get_pos(), 0);
    buffer.move_to_start();
    assert_eq!(buffer.get_pos(), 0);
    buffer.move_to_end();
    assert_eq!(buffer.get_pos(), 17);
    buffer.move_to_end();
    assert_eq!(buffer.get_pos(), 17);
}

#[test]
fn test_delete_rest_of_line() {
    let mut buffer = get_command();
    push_string(&mut buffer, "some random words");
    buffer.move_to_start();
    buffer.step_word_right();
    buffer.delete_from_start();
    assert_eq!(buffer.get_buffer(), " random words");
}

#[test]
fn test_delete_from_start_of_line() {
    let mut buffer = get_command();
    push_string(&mut buffer, "some random words");
    buffer.move_to_start();
    buffer.step_word_right();
    buffer.step_word_right();
    buffer.delete_to_end();
    assert_eq!(buffer.get_buffer(), "some random");
}

#[test]
fn test_delete_right() {
    let mut buffer = get_command();
    push_string(&mut buffer, "some random words");
    buffer.move_to_start();
    buffer.step_word_right();
    buffer.delete_right();
    assert_eq!(buffer.get_buffer(), "somerandom words");
    buffer.delete_right();
    assert_eq!(buffer.get_buffer(), "someandom words");
    buffer.move_to_end();
    buffer.delete_right();
    assert_eq!(buffer.get_buffer(), "someandom words");
}

#[test]
fn test_delete_word_left() {
    let mut buffer = get_command();
    push_string(&mut buffer, "some random words");
    buffer.move_to_end();
    buffer.delete_word_left();
    assert_eq!(buffer.get_buffer(), "some random ");
    buffer.move_to_start();
    buffer.step_word_right();
    buffer.delete_word_left();
    assert_eq!(buffer.get_buffer(), " random ");
}

#[test]
fn test_delete_word_right() {
    let mut buffer = get_command();
    push_string(&mut buffer, "some random words");
    buffer.move_to_start();
    buffer.delete_word_right();
    assert_eq!(buffer.get_buffer(), " random words");
    buffer.delete_word_right();
    assert_eq!(buffer.get_buffer(), " words");
}

#[test]
fn test_fancy_chars() {
    let mut buffer = get_command();
    let input = "some weird chars: ÅÖÄø æĸœ→ €ßðßª“";
    push_string(&mut buffer, input);
    assert_eq!(input.chars().count(), buffer.get_buffer().chars().count());
    assert_ne!(input.len(), buffer.get_buffer().chars().count());
    assert_eq!(buffer.get_buffer().len(), input.len());
}

#[test]
fn test_human_key() {
    assert_eq!(human_key("alt-", '\u{7f}'), "alt-backspace");
    assert_eq!(human_key("ctrl-", '\u{7f}'), "ctrl-backspace");
    assert_eq!(human_key("alt-", '\u{1b}'), "alt-escape");
    assert_eq!(human_key("ctrl-", '\u{1b}'), "ctrl-escape");
    assert_eq!(human_key("ctrl-", 'd'), "ctrl-d");
    assert_eq!(human_key("f", 'x'), "fx");
}

#[test]
fn test_completions() {
    let mut buffer = get_command();
    push_string(&mut buffer, "batman");
    buffer.submit();
    push_string(&mut buffer, "bat");
    buffer.tab_complete(vec![]);
    assert_eq!(buffer.completion_options(), &vec!["batman".to_string()]);
}

#[test]
fn test_completion_with_big_chars() {
    let mut buffer = get_command();
    push_string(&mut buffer, "fend");
    buffer.tab_complete(vec!["fender🎸".to_string()]);
    assert_eq!(buffer.completion_options(), &vec!["fender🎸".to_string()]);
    assert_eq!(buffer.get_buffer().chars().collect::<Vec<char>>(), vec!['f', 'e', 'n', 'd', 'e', 'r', '🎸']);
    assert_eq!(buffer.get_pos(), 7);
}

#[test]
fn completion_cycles_back_to_the_typed_text() {
    let mut buffer = get_command();
    push_string(&mut buffer, "ba");
    assert_eq!(buffer.tab_complete(vec!["bat".to_string(), "bag".to_string()]), Some("bat".to_string()));
    assert_eq!(buffer.tab_complete(vec![]), Some("bag".to_string()));
    assert_eq!(buffer.tab_complete(vec![]), Some("ba".to_string()));
}

#[test]
fn one_character_is_not_completed() {
    let mut buffer = get_command();
    push_string(&mut buffer, "b");
    assert_eq!(buffer.tab_complete(vec!["bat".to_string()]), None);
    assert_eq!(buffer.get_buffer(), "b");
}

#[test]
fn duplicate_candidates_are_offered_once() {
    let mut buffer = get_command();
    push_string(&mut buffer, "batman");
    buffer.submit();
    push_string(&mut buffer, "bat");
    buffer.tab_complete(vec!["batman".to_string()]);
    assert_eq!(buffer.completion_options(), &vec!["batman".to_string()]);
}

#[test]
fn typing_then_erasing_restores_the_line() {
    let mut buffer = get_command();
    push_string(&mut buffer, "north");
    buffer.step_left();
    buffer.step_left();
    buffer.push_key('X');
    buffer.remove();
    assert_eq!(buffer.get_buffer(), "north");
    assert_eq!(buffer.get_pos(), 3);
}
