use blightmud::tts::speech_queue::SpeechQueue;

#[test]
fn test_push() {
    let mut q = SpeechQueue::new(100);
    assert_eq!(q.push("test1".to_string(), false), Some("test1".to_string()));
    assert_eq!(q.index(), 0);
    assert_eq!(q.push("test2".to_string(), false), None);
    assert_eq!(q.push("test3".to_string(), false), None);
    assert_eq!(q.push("test4".to_string(), false), None);
    assert_eq!(q.push("test5".to_string(), false), None);
    assert_eq!(q.push("test6".to_string(), false), None);
    assert_eq!(q.next(1), Some("test2".to_string()));
    assert_eq!(q.index(), 1);
    assert_eq!(q.next(1), Some("test3".to_string()));
    assert_eq!(q.index(), 2);
    assert_eq!(q.next(2), Some("test5".to_string()));
    assert_eq!(q.index(), 4);
    assert_eq!(q.next(10), None);
}

#[test]
fn test_push_input() {
    let mut q = SpeechQueue::new(100);
    assert_eq!(q.push("line".to_string(), false), Some("line".to_string()));
    assert_eq!(q.next(1), None);
    q.push_input("input".to_string());
    assert_eq!(q.next(1), None);
    assert_eq!(q.push("line".to_string(), false), Some("line".to_string()));
}

#[test]
fn test_prev_next() {
    let mut q = SpeechQueue::new(100);
    q.push("test1".to_string(), false);
    q.push("test2".to_string(), false);
    q.push("test3".to_string(), false);
    q.push("test4".to_string(), false);
    assert_eq!(q.index(), 0);
    q.flush();
    assert_eq!(q.index(), 4);
    assert_eq!(q.prev(100), Some("test1".to_string()));
    assert_eq!(q.next(100), None);
}

#[test]
fn test_current() {
    let mut q = SpeechQueue::new(100);
    q.push("test1".to_string(), false);
    q.push("test2".to_string(), false);
    q.push("test3".to_string(), false);
    q.push("test4".to_string(), false);
    assert_eq!(q.index(), 0);
    assert_eq!(q.current(), Some("test1".to_string()));
    assert_eq!(q.next(1), Some("test2".to_string()));
    assert_eq!(q.current(), Some("test2".to_string()));
    assert_eq!(q.next(10), None);
    assert_eq!(q.current(), None);
}

#[test]
fn test_flush() {
    let mut q = SpeechQueue::new(100);
    q.push("test".to_string(), false);
    q.push("test".to_string(), false);
    q.push("test".to_string(), false);
    q.push("test".to_string(), false);
    assert_eq!(q.index(), 0);
    q.flush();
    assert_eq!(q.index(), 4);
}

#[test]
fn test_force() {
    let mut q = SpeechQueue::new(100);
    q.push("test".to_string(), false);
    q.push("test".to_string(), false);
    q.push("test".to_string(), false);
    q.push("test".to_string(), false);
    assert_eq!(q.index(), 0);
    q.push("new_line".to_string(), true);
    assert_eq!(q.index(), q.len() - 1);
    assert_eq!(q.current(), Some("new_line".to_string()));
}

#[test]
fn test_overflow() {
    let mut q = SpeechQueue::new(10);
    for i in 0..10 {
        q.push(format!("line{}", i), false);
    }
    q.flush();
    assert_eq!(q.index(), 10);
    q.prev(1);
    assert_eq!(q.index(), 9);
    assert_eq!(q.current(), Some("line9".to_string()));
    q.push("new_line".to_string(), false);
    assert_eq!(q.index(), 8);
    assert_eq!(q.current(), Some("line9".to_string()));
    for _ in 0..9 {
        q.push("new_line".to_string(), false);
    }
    assert_eq!(q.index(), 0);
    assert_eq!(q.current(), Some("new_line".to_string()));
}

#[test]
fn test_scan_index() {
    let mut q = SpeechQueue::new(10);
    for i in 0..10 {
        q.push(format!("line{}", i), false);
    }
    assert_eq!(q.scan_index(), 10);

    assert_eq!(q.scan_back(5), Some("line5".to_string()));
    assert_eq!(q.scan_index(), 5);
    q.push("new_line".to_string(), false);
    assert_eq!(q.scan_index(), 4);
    assert_eq!(q.scan_forward(3), Some("line8".to_string()));
    assert_eq!(q.scan_index(), 7);
    q.scan_forward(100);
    assert_eq!(q.scan_index(), 10);
}

#[test]
fn test_push_no_blank() {
    let mut q = SpeechQueue::new(100);
    assert_eq!(q.push("".to_string(), false), None);
    assert_eq!(q.push("test".to_string(), false), Some("test".to_string()));
    assert_eq!(q.push("".to_string(), true), None);
}

#[test]
fn test_next_no_blank() {
    let mut q = SpeechQueue::new(100);
    q.push("line".to_string(), false);
    for _ in 0..10 {
        q.push("".to_string(), false);
    }
    q.push("line".to_string(), false);
    assert_eq!(q.next(1), Some("line".to_string()));
}

#[test]
fn test_prev_no_blank() {
    let mut q = SpeechQueue::new(100);
    q.push("line".to_string(), false);
    for _ in 0..10 {
        q.push("".to_string(), false);
    }
    q.flush();
    assert_eq!(q.prev(1), Some("line".to_string()));
}

#[test]
fn punctuation_only_messages_are_not_spoken() {
    let mut q = SpeechQueue::new(100);
    assert_eq!(q.push("...".to_string(), false), None);
}

#[test]
fn after_a_flush_nothing_is_left_to_read() {
    let mut q = SpeechQueue::new(3);
    for i in 0..5 {
        q.push(format!("line{}", i), false);
    }
    assert_eq!(q.len(), 3);
    q.flush();
    assert_eq!(q.next(1), None);
    assert_eq!(q.current(), None);
}
