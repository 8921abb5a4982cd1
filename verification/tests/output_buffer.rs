use blightmud::model::Line;
use blightmud::net::{OutputBuffer, TelnetMode};

fn texts(lines: &[Line]) -> Vec<String> {
    lines.iter().map(|l| l.line().to_string()).collect()
}

#[test]
fn test_prompt_capture() {
    let mut buffer = OutputBuffer::new(&TelnetMode::default());
    assert!(buffer.is_empty());
    let lines = buffer.receive(b"Some misc output\r\nfollowed by some more output\r\nprompt");
    assert_eq!(lines.len(), 2);
    assert!(!buffer.is_empty());
    assert_eq!(buffer.buffer_to_prompt(true).line(), Line::from_str("prompt").line());
    assert!(buffer.is_empty());
}

#[test]
fn test_line_capture() {
    let mut buffer = OutputBuffer::new(&TelnetMode::default());
    let lines = buffer.receive(b"Some misc output\r\nfollowed by some more output\r\nprompt");
    assert_eq!(
        texts(&lines),
        vec!["Some misc output".to_string(), "followed by some more output".to_string()]
    );
}

#[test]
fn test_rn_line_parsing() {
    let mut buffer = OutputBuffer::new(&TelnetMode::default());
    let lines = buffer.receive(b"word1\r\nword2\r\nword3\r\nprompt");
    assert_eq!(texts(&lines), vec!["word1", "word2", "word3"]);
    assert_eq!(buffer.buffer_to_prompt(true).line(), "prompt");
    assert!(buffer.is_empty());
}

#[test]
fn test_nr_line_parsing() {
    let mut buffer = OutputBuffer::new(&TelnetMode::default());
    let lines = buffer.receive(b"word1\n\rword2\n\rword3\n\rprompt");
    assert_eq!(texts(&lines), vec!["word1", "word2", "word3"]);
    assert_eq!(buffer.buffer_to_prompt(true).line(), "prompt");
    assert!(buffer.is_empty());
}

#[test]
fn test_n_line_parsing() {
    let mut buffer = OutputBuffer::new(&TelnetMode::default());
    let lines = buffer.receive(b"word1\nword2\nword3\nprompt");
    assert_eq!(texts(&lines), vec!["word1", "word2", "word3"]);
    assert_eq!(buffer.buffer_to_prompt(true).line(), "prompt");
    assert!(buffer.is_empty());
}

#[test]
fn test_carriage_return_removal() {
    let mut buffer = OutputBuffer::new(&TelnetMode::default());
    let lines = buffer.receive(b"word1\n\r\r\rword2\r\r\r\nword3\nprompt\r");
    assert_eq!(texts(&lines), vec!["word1", "\r\rword2", "word3"]);
    assert_eq!(buffer.buffer_to_prompt(true).line(), "prompt");
    assert!(buffer.is_empty());
}

#[test]
fn test_clean_line_match() {
    let mut buffer = OutputBuffer::new(&TelnetMode::default());
    let lines = buffer.receive(b"\n\r   \rword1\n\r\r\rprompt\r");
    let line = &lines[1];
    assert_eq!(line.line(), "   \rword1");
    assert_eq!(line.clean_line(), "   word1");
    assert_eq!(buffer.buffer_to_prompt(true).line(), "\r\rprompt");
}

#[test]
fn test_separate_receives() {
    let mut buffer = OutputBuffer::new(&TelnetMode::UnterminatedPrompt);
    let first_lines = buffer.receive(b"line 1\nline 2\r\nline 3\n\rMaybe a prompt...");
    assert_eq!(buffer.buffer_to_prompt(false).line(), "Maybe a prompt...");
    let second_lines =
        buffer.receive(b" but no, it isn't a prompt\nline 4\r\nline 5\n\rDefinitely a prompt");
    assert_eq!(buffer.buffer_to_prompt(false).line(), "Definitely a prompt");

    let mut all = texts(&first_lines);
    all.extend(texts(&second_lines));
    assert_eq!(
        all,
        vec![
            "line 1",
            "line 2",
            "line 3",
            "Maybe a prompt... but no, it isn't a prompt",
            "line 4",
            "line 5"
        ]
    );
}

#[test]
fn prompt_line_is_flagged_and_empty_buffer_gives_empty_prompt() {
    let mut buffer = OutputBuffer::new(&TelnetMode::TerminatedPrompt);
    let prompt = buffer.buffer_to_prompt(true);
    assert!(prompt.flags.prompt);
    assert_eq!(prompt.line(), "");
    assert!(!buffer.has_new_data());
}

#[test]
fn input_sent_clears_only_unterminated_prompts() {
    let mut buffer = OutputBuffer::new(&TelnetMode::TerminatedPrompt);
    buffer.receive(b"partial");
    buffer.input_sent();
    assert_eq!(buffer.len(), 7);
    buffer.telnet_mode(&TelnetMode::UnterminatedPrompt);
    buffer.input_sent();
    assert!(buffer.is_empty());
}
