use blightmud::net::event_loop::receive_data;
use blightmud::net::zlib::ZlibState;
use std::io::Write;
use blightmud::net::telnet_handler::{TelnetEvent, TelnetHandler, TelnetNotice, GA, MCCP2, WILL};
use blightmud::net::{OutputBuffer, TelnetMode};

fn handler() -> TelnetHandler {
    TelnetHandler::new(OutputBuffer::new(&TelnetMode::default()))
}

fn texts(notices: &[TelnetNotice]) -> Vec<String> {
    notices
        .iter()
        .map(|n| match n {
            TelnetNotice::MudOutput(l) => format!("out:{}", l.line()),
            TelnetNotice::Prompt(l) => format!("prompt:{}", l.line()),
            TelnetNotice::ProtoEnabled(o) => format!("enabled:{}", o),
            TelnetNotice::ProtoSubnegRecv(o, b) => format!("subneg:{}:{}", o, b.len()),
            TelnetNotice::ServerSend(b) => format!("send:{}", b.len()),
        })
        .collect()
}

#[test]
fn received_data_becomes_lines_and_a_short_prompt() {
    let mut h = handler();
    let (rest, notices) =
        h.handle_events(vec![TelnetEvent::DataReceive(b"hello\r\nHP> ".to_vec())]);
    assert!(rest.is_none());
    assert_eq!(texts(&notices), vec!["out:hello", "prompt:HP> "]);
}

#[test]
fn go_ahead_marks_prompts() {
    let mut h = handler();
    let (_, notices) = h.handle_events(vec![
        TelnetEvent::DataReceive(b"HP> ".to_vec()),
        TelnetEvent::Iac(GA),
    ]);
    assert_eq!(texts(&notices), vec!["prompt:HP> "], "the go-ahead only flushes a prompt already shown");
    let (_, notices) = h.handle_events(vec![TelnetEvent::DataReceive(b"Mana> ".to_vec())]);
    assert!(notices.is_empty(), "terminated prompts wait for the go-ahead");
    let (_, notices) = h.handle_events(vec![TelnetEvent::Iac(GA)]);
    assert_eq!(texts(&notices), vec!["prompt:Mana> "]);
}

#[test]
fn negotiation_and_sends_are_reported() {
    let mut h = handler();
    let (_, notices) = h.handle_events(vec![
        TelnetEvent::Negotiation { command: WILL, option: 201 },
        TelnetEvent::Subnegotiation { option: 201, buffer: b"Core.Hello".to_vec() },
        TelnetEvent::Subnegotiation { option: MCCP2, buffer: Vec::new() },
        TelnetEvent::DataSend(Vec::new()),
        TelnetEvent::DataSend(vec![255, 253, 1]),
    ]);
    assert_eq!(texts(&notices), vec!["enabled:201", "subneg:201:10", "send:3"]);
}

#[test]
fn decompression_stops_handling() {
    let mut h = handler();
    let (rest, notices) = h.handle_events(vec![
        TelnetEvent::DecompressImmediate(vec![1, 2, 3]),
        TelnetEvent::DataReceive(b"ignored\r\n".to_vec()),
    ]);
    assert_eq!(rest, Some(vec![1, 2, 3]));
    assert!(notices.is_empty());
}

#[test]
fn parsing_raw_bytes_goes_through_the_telnet_parser() {
    let mut h = handler();
    let (rest, notices) = h.parse(b"line one\r\nline two\r\n");
    assert!(rest.is_none());
    assert_eq!(texts(&notices)[0], "out:line one");
    assert_eq!(texts(&notices)[1], "out:line two");
}

#[test]
fn invalid_utf8_is_replaced() {
    let mut h = handler();
    let (_, notices) = h.handle_events(vec![TelnetEvent::DataReceive(vec![0x66, 0xff, b'\n', b'x'])]);
    assert_eq!(texts(&notices)[0], "out:f\u{fffd}");
}

#[test]
fn received_data_goes_through_decompression_when_started() {
    let mut h = handler();
    let mut zlib = ZlibState::new();
    let notices = receive_data(&mut h, &mut zlib, b"hello\r\n").unwrap();
    assert_eq!(texts(&notices)[0], "out:hello");
    // Once MCCP2 is on (IAC DO MCCP2), IAC SB MCCP2 IAC SE starts
    // compression; what follows is compressed.
    let mut enc = flate2::write::ZlibEncoder::new(Vec::new(), flate2::Compression::default());
    enc.write_all(b"squeezed\r\n").unwrap();
    enc.flush().unwrap();
    let mut data = vec![255, 253, 86, 255, 250, 86, 255, 240];
    data.extend(enc.get_ref());
    let notices = receive_data(&mut h, &mut zlib, &data).unwrap();
    assert!(zlib.is_active());
    assert!(texts(&notices).contains(&"out:squeezed".to_string()));
}

#[test]
fn undecodable_bytes_after_the_start_are_left_and_later_data_fails() {
    let mut h = handler();
    let mut zlib = ZlibState::new();
    let mut data = vec![255, 253, 86, 255, 250, 86, 255, 240];
    data.extend([0xff, 0xff, 0xff, 0xff]);
    assert!(receive_data(&mut h, &mut zlib, &data).is_ok());
    assert!(zlib.is_active());
    assert!(receive_data(&mut h, &mut zlib, b"more").is_err());
}
