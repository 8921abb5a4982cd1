use blightmud::net::event_loop::{
    closing_notices, connect_failed_message, read_step, setup_failed_notices, NetLoop, NetNotice,
    ReadEnd, ReadOutcome, Transmit, WriteError, WriteOutcome,
};
use blightmud::timer::{handle_timer_request, Schedule, TimerNotice, TimerRequest, TimerStep};

#[test]
fn transmit_channel_queues_data_until_empty() {
    let mut lp = NetLoop::new();
    assert!(lp.take_transmit(Transmit::Data(b"look\r\n".to_vec())));
    assert!(lp.take_transmit(Transmit::Data(b"north\r\n".to_vec())));
    assert!(!lp.take_transmit(Transmit::Empty));
    assert_eq!(lp.pending_bytes(), b"look\r\nnorth\r\n");
    assert!(!lp.is_shut_down());
    assert!(lp.wants_writable(false));
}

#[test]
fn closing_or_losing_the_session_stops_the_loop() {
    let mut lp = NetLoop::new();
    assert!(!lp.take_transmit(Transmit::Close));
    assert!(lp.is_shut_down());
    let mut lp = NetLoop::new();
    assert!(!lp.take_transmit(Transmit::Disconnected));
    assert!(lp.is_shut_down());
}

#[test]
fn writes_drain_the_queue() {
    let mut lp = NetLoop::new();
    lp.take_transmit(Transmit::Data(b"abcdef".to_vec()));
    assert_eq!(lp.wrote(WriteOutcome::Wrote(4), false), Ok(true));
    assert_eq!(lp.pending_bytes(), b"ef");
    assert_eq!(lp.wrote(WriteOutcome::WouldBlock, false), Ok(false));
    assert_eq!(lp.wrote(WriteOutcome::Wrote(2), false), Ok(false));
    assert!(!lp.wants_writable(false));
    assert!(lp.wants_writable(true));
}

#[test]
fn a_socket_taking_nothing_is_an_error_but_tls_only_pauses() {
    let mut lp = NetLoop::new();
    lp.take_transmit(Transmit::Data(b"x".to_vec()));
    assert_eq!(lp.wrote(WriteOutcome::Wrote(0), false), Err(WriteError::WriteZero));
    assert_eq!(lp.wrote(WriteOutcome::Wrote(0), true), Ok(false));
    assert_eq!(lp.wrote(WriteOutcome::Failed, true), Err(WriteError::Failed));
    assert_eq!(lp.pending_bytes(), b"x");
}

#[test]
fn only_real_io_errors_stop_the_loop() {
    let mut lp = NetLoop::new();
    assert!(!lp.io_failed(true));
    assert!(!lp.is_shut_down());
    assert!(lp.io_failed(false));
    assert!(lp.is_shut_down());
}

#[test]
fn reads_collect_chunks_until_the_socket_is_drained() {
    let mut chunks = Vec::new();
    assert_eq!(read_step(&mut chunks, ReadOutcome::Got(b"ab".to_vec())), None);
    assert_eq!(read_step(&mut chunks, ReadOutcome::Got(b"c".to_vec())), None);
    assert_eq!(read_step(&mut chunks, ReadOutcome::WouldBlock), Some(ReadEnd::Drained));
    assert_eq!(chunks, vec![b"ab".to_vec(), b"c".to_vec()]);
    assert_eq!(read_step(&mut chunks, ReadOutcome::Got(Vec::new())), Some(ReadEnd::Closed));
    assert_eq!(read_step(&mut chunks, ReadOutcome::Failed), Some(ReadEnd::Failed));
}

#[test]
fn notices_of_the_loop() {
    assert_eq!(
        closing_notices(),
        vec![NetNotice::Info("Connection closed".to_string()), NetNotice::Disconnect]
    );
    assert_eq!(
        setup_failed_notices("TLS initialization", "bad cert"),
        vec![NetNotice::Error("TLS initialization failed: bad cert".to_string()), NetNotice::Disconnect]
    );
    assert_eq!(connect_failed_message("mud.example", 4000), "Failed to connect to mud.example:4000");
}

#[test]
fn timer_requests_drive_the_schedule() {
    let mut schedule: Schedule<u8> = Schedule::new();
    let create = TimerRequest::Create { guard: 0, count: Some(0), callback_id: 5, core: false };
    assert_eq!(handle_timer_request(&mut schedule, create), TimerStep::Continue(None));
    assert_eq!(
        handle_timer_request(&mut schedule, TimerRequest::Trigger(5)),
        TimerStep::Continue(Some(TimerNotice::DropTimedEvent(5)))
    );
    assert_eq!(handle_timer_request(&mut schedule, TimerRequest::Tick), TimerStep::Tick);
    assert_eq!(handle_timer_request(&mut schedule, TimerRequest::Clear(true)), TimerStep::Continue(None));
    assert_eq!(handle_timer_request(&mut schedule, TimerRequest::Quit), TimerStep::Quit);
}
