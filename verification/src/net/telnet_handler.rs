//! Turning what the telnet parser reports into client events: output lines,
//! prompts, negotiated protocols and data to send back.
use vstd::prelude::*;
use crate::model::Line;
use crate::net::output_buffer::{is_prompt_of, received, OutputBuffer};
use crate::net::telnet::TelnetMode;
use libtelnet_rs::events::TelnetEvents;

verus! {

#[verifier::external_type_specification]
#[verifier::external_body]
pub struct ExTelnetParser(libtelnet_rs::Parser);

#[verifier::external_type_specification]
#[verifier::external_body]
pub struct ExTelnetEvents(TelnetEvents);

#[verifier::external_type_specification]
#[verifier::external_body]
pub struct ExCompatibilityTable(libtelnet_rs::compatibility::CompatibilityTable);

/// The options a compatibility table marks as supported on both sides.
pub uninterp spec fn table_supported(t: libtelnet_rs::compatibility::CompatibilityTable) -> Set<u8>;

/// The options a parser was made supporting.
pub uninterp spec fn telnet_support(p: libtelnet_rs::Parser) -> Set<u8>;

/// The chunks of bytes a parser has been given, one per call, in order.
pub uninterp spec fn telnet_fed(p: libtelnet_rs::Parser) -> Seq<Seq<u8>>;

/// The events a parser made supporting `support`, once given the chunks
/// `fed` one call each, reports for `data`. The parser's state (its buffer
/// of unfinished sequences and the options negotiated so far) follows from
/// what it was made supporting and the chunks given to it, split as they
/// were: a command cut across two chunks is not read as the same command.
pub uninterp spec fn telnet_events(support: Set<u8>, fed: Seq<Seq<u8>>, data: Seq<u8>) -> Seq<TelnetEvents>;

/// The library's form of a parser event.
pub uninterp spec fn event_of(e: TelnetEvents) -> TelnetEvent;

/// Trusted: `CompatibilityTable::default` supports no option.
#[verifier::external_body]
fn new_compat_table() -> (r: libtelnet_rs::compatibility::CompatibilityTable)
    ensures
        table_supported(r) == Set::<u8>::empty(),
{
    libtelnet_rs::compatibility::CompatibilityTable::default()
}

/// Trusted: `CompatibilityTable::support` marks `option` supported locally
/// and remotely, leaving the other options as they were.
#[verifier::external_body]
fn compat_support(table: &mut libtelnet_rs::compatibility::CompatibilityTable, option: u8)
    ensures
        table_supported(*final(table)) == table_supported(*old(table)).insert(option),
{
    table.support(option)
}

/// Trusted: `Parser::with_support_and_capacity` makes a parser with the
/// given table and an empty buffer; the capacity only sizes the buffer.
#[verifier::external_body]
fn parser_with_support(capacity: usize, table: libtelnet_rs::compatibility::CompatibilityTable) -> (r:
    libtelnet_rs::Parser)
    ensures
        telnet_support(r) == table_supported(table),
        telnet_fed(r) == Seq::<Seq<u8>>::empty(),
{
    libtelnet_rs::Parser::with_support_and_capacity(capacity, table)
}

/// Trusted: `libtelnet_rs::Parser::receive` appends `data` to the parser's
/// buffer and reports the events parsed from it; what it reports follows
/// from the options the parser was made supporting and the chunks given to
/// it before. A parser supporting option 255 can panic on `IAC DO 255`
/// (it slices a buffer too short), so such a parser is not taken.
#[verifier::external_body]
fn parser_receive(parser: &mut libtelnet_rs::Parser, data: &[u8]) -> (r: Vec<TelnetEvents>)
    requires
        !telnet_support(*old(parser)).contains(255u8),
    ensures
        telnet_fed(*final(parser)) == telnet_fed(*old(parser)).push(data@),
        telnet_support(*final(parser)) == telnet_support(*old(parser)),
        r@ == telnet_events(telnet_support(*old(parser)), telnet_fed(*old(parser)), data@),
{
    parser.receive(data)
}

/// Trusted: reads the variant and fields of a parser event into the
/// library's own form, copying byte buffers.
#[verifier::external_body]
fn read_event(event: TelnetEvents) -> (r: TelnetEvent)
    ensures
        r == event_of(event),
{
    match event {
        TelnetEvents::IAC(iac) => TelnetEvent::Iac(iac.command),
        TelnetEvents::Negotiation(n) => TelnetEvent::Negotiation { command: n.command, option: n.option },
        TelnetEvents::Subnegotiation(s) => {
            TelnetEvent::Subnegotiation { option: s.option, buffer: s.buffer.to_vec() }
        },
        TelnetEvents::DataReceive(d) => TelnetEvent::DataReceive(d.to_vec()),
        TelnetEvents::DataSend(d) => TelnetEvent::DataSend(d.to_vec()),
        TelnetEvents::DecompressImmediate(d) => TelnetEvent::DecompressImmediate(d.to_vec()),
    }
}

/// Size of the parser's initial buffer.
pub const BUFFER_SIZE: usize = 32768;

/// Telnet option: echo.
pub const ECHO: u8 = 1;

/// Telnet option: end of record.
pub const EOR_OPTION: u8 = 25;

/// The options the client's parser supports: MCCP2, end of record and
/// echo.
pub open spec fn client_options() -> Set<u8> {
    Set::<u8>::empty().insert(MCCP2).insert(EOR_OPTION).insert(ECHO)
}

/// A telnet parser for the client: supporting MCCP2, end of record and
/// echo, and not yet given any bytes.
pub fn new_telnet_parser() -> (r: libtelnet_rs::Parser)
    ensures
        telnet_support(r) == client_options(),
        telnet_fed(r) == Seq::<Seq<u8>>::empty(),
{
    let mut table = new_compat_table();
    compat_support(&mut table, MCCP2);
    compat_support(&mut table, EOR_OPTION);
    compat_support(&mut table, ECHO);
    parser_with_support(BUFFER_SIZE, table)
}

/// Telnet command: go ahead.
pub const GA: u8 = 249;

/// Telnet command: end of record.
pub const EOR: u8 = 239;

/// Telnet command: no operation.
pub const NOP: u8 = 241;

/// Telnet command: the peer will use an option.
pub const WILL: u8 = 251;

/// Telnet command: the peer asks us to use an option.
pub const DO: u8 = 253;

/// Telnet option: MCCP2 compression.
pub const MCCP2: u8 = 86;

/// What the telnet parser found in received bytes.
#[derive(Debug, PartialEq, Eq)]
pub enum TelnetEvent {
    /// A two-byte command.
    Iac(u8),
    /// A negotiation of an option.
    Negotiation { command: u8, option: u8 },
    /// A subnegotiation with its payload.
    Subnegotiation { option: u8, buffer: Vec<u8> },
    /// Ordinary data from the server.
    DataReceive(Vec<u8>),
    /// Data to send to the server.
    DataSend(Vec<u8>),
    /// Compressed data follows; it must be inflated before parsing on.
    DecompressImmediate(Vec<u8>),
}

/// What the client is told about.
#[derive(Debug, PartialEq, Eq)]
pub enum TelnetNotice {
    /// A prompt line.
    Prompt(Line),
    /// The server enabled a protocol option.
    ProtoEnabled(u8),
    /// A subnegotiation payload for an option.
    ProtoSubnegRecv(u8, Vec<u8>),
    /// Bytes to send to the server.
    ServerSend(Vec<u8>),
    /// A complete line of output.
    MudOutput(Line),
}

/// The part of the handler that events change: the output buffer and the
/// prompt mode.
pub type HandlerState = (OutputBuffer, TelnetMode);

/// The output notices for `lines`.
pub open spec fn outputs(lines: Seq<Line>) -> Seq<TelnetNotice> {
    lines.map_values(|l: Line| TelnetNotice::MudOutput(l))
}

/// Whether `cmd` ends a prompt.
pub open spec fn ends_prompt(cmd: u8) -> bool {
    cmd == GA || cmd == EOR || cmd == NOP
}

/// Handling one event takes the handler from `before` to `after` and tells
/// the client `notices`:
/// * a go-ahead, end-of-record or no-op switches to terminated prompts and
///   takes all that is buffered as the prompt, reported when new data had
///   arrived;
/// * an enabling negotiation reports the option;
/// * a subnegotiation is passed on, except the one that starts compression;
/// * data to send is passed on unless empty;
/// * received data (other than nothing or a single zero byte) is cut into
///   lines, and with unterminated prompts a short remainder is reported as
///   the prompt.
pub open spec fn stepped(
    before: HandlerState,
    ev: TelnetEvent,
    after: HandlerState,
    notices: Seq<TelnetNotice>,
) -> bool {
    match ev {
        TelnetEvent::Iac(cmd) => if ends_prompt(cmd) {
            &&& after.1 == TelnetMode::TerminatedPrompt
            &&& after.0.pending().len() == 0
            &&& after.0.mode() == if before.1 != TelnetMode::TerminatedPrompt {
                TelnetMode::TerminatedPrompt
            } else {
                before.0.mode()
            }
            &&& !after.0.fresh()
            &&& if before.0.fresh() {
                notices.len() == 1 && (notices[0] matches TelnetNotice::Prompt(p) && is_prompt_of(
                    p,
                    before.0.pending(),
                ))
            } else {
                notices.len() == 0
            }
        } else {
            after == before && notices.len() == 0
        },
        TelnetEvent::Negotiation { command, option } => after == before && notices == if command
            == WILL || command == DO {
            seq![TelnetNotice::ProtoEnabled(option)]
        } else {
            Seq::empty()
        },
        TelnetEvent::Subnegotiation { option, buffer } => after == before && notices == if option
            == MCCP2 {
            Seq::empty()
        } else {
            seq![TelnetNotice::ProtoSubnegRecv(option, buffer)]
        },
        TelnetEvent::DataSend(msg) => after == before && notices == if msg@.len() > 0 {
            seq![TelnetNotice::ServerSend(msg)]
        } else {
            Seq::empty()
        },
        TelnetEvent::DecompressImmediate(_) => after == before && notices.len() == 0,
        TelnetEvent::DataReceive(msg) => if msg@.len() == 0 || msg@ == seq![0u8] {
            after == before && notices.len() == 0
        } else {
            &&& after.1 == before.1
            &&& exists|mid: OutputBuffer, lines: Seq<Line>|
                {
                    &&& #[trigger] received(before.0, mid, msg@, lines)
                    &&& if before.1 == TelnetMode::UnterminatedPrompt && mid.pending().len() < 500 {
                        &&& after.0.pending() == mid.pending()
                        &&& !after.0.fresh()
                        &&& after.0.mode() == mid.mode()
                        &&& notices.len() == lines.len() + 1
                        &&& notices.take(lines.len() as int) == outputs(lines)
                        &&& notices.last() matches TelnetNotice::Prompt(p) && is_prompt_of(
                            p,
                            mid.pending(),
                        )
                    } else {
                        after.0 == mid && notices == outputs(lines)
                    }
                }
        },
    }
}

/// All the notices of `outs`, in order.
pub open spec fn concat(outs: Seq<Seq<TelnetNotice>>) -> Seq<TelnetNotice>
    decreases outs.len(),
{
    if outs.len() == 0 {
        Seq::empty()
    } else {
        concat(outs.drop_last()) + outs.last()
    }
}

/// `trace` and `outs` record handling `evs` in order: the handler goes
/// through the states of `trace`, and event `i` tells the client `outs[i]`.
pub open spec fn is_run(
    trace: Seq<HandlerState>,
    evs: Seq<TelnetEvent>,
    outs: Seq<Seq<TelnetNotice>>,
) -> bool {
    &&& trace.len() == evs.len() + 1
    &&& outs.len() == evs.len()
    &&& forall|i: int| 0 <= i < evs.len() ==> stepped(trace[i], #[trigger] evs[i], trace[i + 1], outs[i])
}

/// Handling `evs` in order takes the handler from `before` to `after` and
/// tells the client `notices`.
pub open spec fn steps(
    before: HandlerState,
    evs: Seq<TelnetEvent>,
    after: HandlerState,
    notices: Seq<TelnetNotice>,
) -> bool {
    exists|trace: Seq<HandlerState>, outs: Seq<Seq<TelnetNotice>>|
        #[trigger] is_run(trace, evs, outs) && trace[0] == before && trace.last() == after && notices
            == concat(outs)
}

/// Index of the first event asking for decompression, if any.
pub open spec fn first_decompress(evs: Seq<TelnetEvent>) -> Option<int>
    decreases evs.len(),
{
    if evs.len() == 0 {
        None
    } else {
        match first_decompress(evs.drop_last()) {
            Some(i) => Some(i),
            None => if evs.last() is DecompressImmediate {
                Some(evs.len() - 1)
            } else {
                None
            },
        }
    }
}

/// The events handled: all of them, or up to the first that asks for
/// decompression.
pub open spec fn handled_count(evs: Seq<TelnetEvent>) -> int {
    match first_decompress(evs) {
        Some(i) => i + 1,
        None => evs.len() as int,
    }
}

proof fn lemma_first_decompress_prefix(evs: Seq<TelnetEvent>, i: int)
    requires
        0 <= i < evs.len(),
        first_decompress(evs.take(i)) is None,
    ensures
        first_decompress(evs.take(i + 1)) == if evs[i] is DecompressImmediate {
            Some(i)
        } else {
            None::<int>
        },
{
    assert(evs.take(i + 1).drop_last() =~= evs.take(i));
}

proof fn lemma_first_decompress_extends(evs: Seq<TelnetEvent>, i: int, n: int)
    requires
        0 <= i < n <= evs.len(),
        first_decompress(evs.take(i + 1)) == Some(i),
    ensures
        first_decompress(evs.take(n)) == Some(i),
    decreases n - i,
{
    if n > i + 1 {
        lemma_first_decompress_extends(evs, i, n - 1);
        assert(evs.take(n).drop_last() =~= evs.take(n - 1));
    }
}

/// Handling `evs` (all of them, or up to the first that asks for
/// decompression) took the handler from `before` to `after`, told the
/// client `r.1`, and gave in `r.0` the bytes to decompress, if any.
pub open spec fn handled(
    before: HandlerState,
    after: HandlerState,
    evs: Seq<TelnetEvent>,
    r: (Option<Vec<u8>>, Vec<TelnetNotice>),
) -> bool {
    &&& steps(before, evs.take(handled_count(evs)), after, r.1@)
    &&& match first_decompress(evs) {
        Some(i) => r.0 matches Some(b) && (evs[i] matches TelnetEvent::DecompressImmediate(b2)
            && b@ == b2@),
        None => r.0 is None,
    }
}

/// A copy of `b`.
fn copy_bytes(b: &Vec<u8>) -> (r: Vec<u8>)
    ensures
        r@ == b@,
{
    let mut out: Vec<u8> = Vec::new();
    let mut i: usize = 0;
    while i < b.len()
        invariant
            i <= b@.len(),
            out@ == b@.take(i as int),
        decreases b@.len() - i,
    {
        out.push(b[i]);
        assert(b@.take(i + 1) =~= b@.take(i as int).push(b@[i as int]));
        i += 1;
    }
    assert(b@.take(b@.len() as int) =~= b@);
    out
}

/// The bytes an event asks to decompress, if it is such an event.
fn decompress_payload(ev: &TelnetEvent) -> (r: Option<Vec<u8>>)
    ensures
        r is Some <==> *ev is DecompressImmediate,
        r matches Some(b) ==> (*ev matches TelnetEvent::DecompressImmediate(b2) && b@ == b2@),
{
    match ev {
        TelnetEvent::DecompressImmediate(b) => Some(copy_bytes(b)),
        _ => None,
    }
}

/// Turns telnet parser events into client notices, keeping the output
/// buffer and the prompt mode.
pub struct TelnetHandler {
    parser: libtelnet_rs::Parser,
    output_buffer: OutputBuffer,
    mode: TelnetMode,
}

impl TelnetHandler {
    /// The output buffer and the prompt mode.
    pub closed spec fn state(&self) -> HandlerState {
        (self.output_buffer, self.mode)
    }

    /// The chunks of bytes the handler's parser has been given.
    pub closed spec fn fed(&self) -> Seq<Seq<u8>> {
        telnet_fed(self.parser)
    }

    /// The options the handler's parser supports.
    pub closed spec fn support(&self) -> Set<u8> {
        telnet_support(self.parser)
    }

    /// The handler's parser does not support option 255, on which the
    /// parser can fail.
    pub open spec fn wf(&self) -> bool {
        !self.support().contains(255u8)
    }

    /// A handler reading into `output_buffer` with a new client parser
    /// (see `new_telnet_parser`), expecting unterminated prompts until the
    /// server marks one.
    pub fn new(output_buffer: OutputBuffer) -> (r: TelnetHandler)
        ensures
            r.state() == (output_buffer, TelnetMode::UnterminatedPrompt),
            r.fed() == Seq::<Seq<u8>>::empty(),
            r.support() == client_options(),
            r.wf(),
    {
        TelnetHandler { parser: new_telnet_parser(), output_buffer, mode: TelnetMode::UnterminatedPrompt }
    }

    /// The output buffer.
    pub fn output_buffer(&self) -> (r: &OutputBuffer)
        ensures
            *r == self.state().0,
    {
        &self.output_buffer
    }

    /// The output buffer, for the user's input to reset a prompt.
    pub fn output_buffer_mut(&mut self) -> (r: &mut OutputBuffer)
        ensures
            *r == old(self).state().0,
            final(self).state() == (*final(r), old(self).state().1),
    {
        &mut self.output_buffer
    }

    /// Reports a prompt left unterminated in the buffer, when prompts are
    /// not marked and what is buffered is short.
    pub fn handle_prompt(&mut self) -> (r: Option<Line>)
        ensures
            final(self).state().1 == old(self).state().1,
            final(self).fed() == old(self).fed(),
            final(self).support() == old(self).support(),
            if old(self).state().1 == TelnetMode::UnterminatedPrompt && old(
                self,
            ).state().0.pending().len() < 500 {
                &&& r matches Some(p) && is_prompt_of(p, old(self).state().0.pending())
                &&& final(self).state().0.pending() == old(self).state().0.pending()
                &&& !final(self).state().0.fresh()
                &&& final(self).state().0.mode() == old(self).state().0.mode()
            } else {
                r is None && final(self).state() == old(self).state()
            },
    {
        if self.mode == TelnetMode::UnterminatedPrompt && self.output_buffer.len() < 500 {
            Some(self.output_buffer.buffer_to_prompt(false))
        } else {
            None
        }
    }

    /// Handles one event.
    fn step(&mut self, ev: TelnetEvent) -> (r: Vec<TelnetNotice>)
        ensures
            stepped(old(self).state(), ev, final(self).state(), r@),
            final(self).fed() == old(self).fed(),
            final(self).support() == old(self).support(),
    {
        let mut out: Vec<TelnetNotice> = Vec::new();
        let ghost ev0 = ev;
        match ev {
            TelnetEvent::Iac(cmd) => {
                if cmd == GA || cmd == EOR || cmd == NOP {
                    if self.mode != TelnetMode::TerminatedPrompt {
                        self.mode = TelnetMode::TerminatedPrompt;
                        self.output_buffer.telnet_mode(&TelnetMode::TerminatedPrompt);
                    }
                    let fresh = self.output_buffer.has_new_data();
                    let prompt = self.output_buffer.buffer_to_prompt(true);
                    if fresh {
                        out = vec![TelnetNotice::Prompt(prompt)];
                    }
                }
            },
            TelnetEvent::Negotiation { command, option } => {
                if command == WILL || command == DO {
                    out = vec![TelnetNotice::ProtoEnabled(option)];
                    assert(out@ =~= seq![TelnetNotice::ProtoEnabled(option)]);
                }
            },
            TelnetEvent::DecompressImmediate(_) => {},
            TelnetEvent::Subnegotiation { option, buffer } => {
                if option != MCCP2 {
                    let ghost b = buffer;
                    out = vec![TelnetNotice::ProtoSubnegRecv(option, buffer)];
                    assert(out@ =~= seq![TelnetNotice::ProtoSubnegRecv(option, b)]);
                }
            },
            TelnetEvent::DataSend(msg) => {
                if msg.len() > 0 {
                    let ghost m = msg;
                    out = vec![TelnetNotice::ServerSend(msg)];
                    assert(out@ =~= seq![TelnetNotice::ServerSend(m)]);
                }
            },
            TelnetEvent::DataReceive(msg) => {
                let zero = msg.len() == 1 && msg[0] == 0u8;
                proof {
                    if msg@.len() == 1 && msg@[0] == 0u8 {
                        assert(msg@ =~= seq![0u8]);
                    }
                }
                if msg.len() > 0 && !zero {
                    let ghost before = self.output_buffer;
                    let lines = self.output_buffer.receive(msg.as_slice());
                    let ghost mid = self.output_buffer;
                    let mut k: usize = 0;
                    while k < lines.len()
                        invariant
                            k <= lines@.len(),
                            self.parser == old(self).parser,
                            out@ == outputs(lines@.take(k as int)),
                        decreases lines@.len() - k,
                    {
                        let l = lines[k].clone();
                        out.push(TelnetNotice::MudOutput(l));
                        assert(outputs(lines@.take(k + 1)) =~= outputs(lines@.take(k as int)).push(
                            TelnetNotice::MudOutput(lines@[k as int]),
                        ));
                        k += 1;
                    }
                    assert(lines@.take(lines@.len() as int) =~= lines@);
                    let ghost outs = out@;
                    let prompt = self.handle_prompt();
                    if prompt.is_some() {
                        out.push(TelnetNotice::Prompt(prompt.unwrap()));
                        assert(out@.take(lines@.len() as int) =~= outs);
                    }
                    assert(received(before, mid, msg@, lines@));
                }
            },
        }
        out
    }

    /// Handles parser events in order, up to and including the first that
    /// asks for decompression; that event's bytes are returned with the
    /// notices, for the caller to inflate and feed back.
    pub fn handle_events(&mut self, events: Vec<TelnetEvent>) -> (r: (
        Option<Vec<u8>>,
        Vec<TelnetNotice>,
    ))
        ensures
            handled(old(self).state(), final(self).state(), events@, r),
            final(self).fed() == old(self).fed(),
            final(self).support() == old(self).support(),
    {
        let ghost evs = events@;
        let mut notices: Vec<TelnetNotice> = Vec::new();
        let mut i: usize = 0;
        let n = events.len();
        let mut events = events;
        let mut found: Option<Vec<u8>> = None;
        let ghost mut trace: Seq<HandlerState> = seq![self.state()];
        let ghost mut outs: Seq<Seq<TelnetNotice>> = Seq::empty();
        let ghost start = self.state();
        while events.len() > 0 && found.is_none()
            invariant
                i <= evs.len(),
                n == evs.len(),
                events@ == evs.skip(i as int),
                found is None ==> first_decompress(evs.take(i as int)) is None,
                found is Some ==> i >= 1 && first_decompress(evs.take(i as int)) == Some(
                    (i - 1) as int,
                ),
                found matches Some(b) ==> i >= 1 && (evs[i - 1] matches TelnetEvent::DecompressImmediate(
                    b2,
                ) && b@ == b2@),
                start == old(self).state(),
                self.fed() == old(self).fed(),
                self.support() == old(self).support(),
                is_run(trace, evs.take(i as int), outs),
                trace[0] == start,
                trace.last() == self.state(),
                notices@ == concat(outs),
            decreases events@.len(),
        {
            let ev = events.remove(0);
            assert(ev == evs[i as int]);
            assert(events@ =~= evs.skip(i + 1));
            let bytes = decompress_payload(&ev);
            let ghost before = self.state();
            let mut stepped_notices = self.step(ev);
            let ghost last = stepped_notices@;
            let ghost old_trace = trace;
            let ghost old_outs = outs;
            notices.append(&mut stepped_notices);
            proof {
                lemma_first_decompress_prefix(evs, i as int);
                trace = trace.push(self.state());
                outs = outs.push(last);
                assert(outs.drop_last() =~= old_outs);
                let t = evs.take(i + 1);
                assert forall|j: int| 0 <= j < t.len() implies stepped(
                    trace[j],
                    #[trigger] t[j],
                    trace[j + 1],
                    outs[j],
                ) by {
                    if j < i {
                        assert(t[j] == evs.take(i as int)[j]);
                        assert(trace[j] == old_trace[j]);
                        assert(trace[j + 1] == old_trace[j + 1]);
                        assert(outs[j] == old_outs[j]);
                    } else {
                        assert(t[j] == evs[i as int]);
                        assert(trace[j] == before);
                    }
                }
            }
            i += 1;
            found = bytes;
        }
        proof {
            if found is Some {
                lemma_first_decompress_extends(evs, i - 1, evs.len() as int);
            } else {
                assert(i == evs.len());
            }
            assert(evs.take(evs.len() as int) =~= evs);
            assert(handled_count(evs) == i);
            assert(is_run(trace, evs.take(handled_count(evs)), outs));
        }
        (found, notices)
    }

    /// Feeds received bytes to the parser and handles the events it
    /// reports for them (see `handle_events`).
    pub fn parse(&mut self, data: &[u8]) -> (r: (Option<Vec<u8>>, Vec<TelnetNotice>))
        requires
            old(self).wf(),
        ensures
            parsed(*old(self), *final(self), data@, r),
    {
        let ghost evs0 = telnet_events(self.support(), self.fed(), data@);
        let raw = parser_receive(&mut self.parser, data);
        let mut events: Vec<TelnetEvent> = Vec::new();
        let mut raw = raw;
        let ghost mut k: int = 0;
        while raw.len() > 0
            invariant
                0 <= k <= evs0.len(),
                raw@ == evs0.skip(k),
                events@ == evs0.take(k).map_values(|e: TelnetEvents| event_of(e)),
            decreases raw@.len(),
        {
            let e = raw.remove(0);
            let ev = read_event(e);
            events.push(ev);
            proof {
                assert(evs0.skip(k).skip(1) =~= evs0.skip(k + 1));
                assert(evs0.take(k + 1).map_values(|e: TelnetEvents| event_of(e)) =~= evs0.take(
                    k,
                ).map_values(|e: TelnetEvents| event_of(e)).push(event_of(evs0[k])));
                k = k + 1;
            }
        }
        proof {
            assert(k == evs0.len());
            assert(evs0.take(k) =~= evs0);
        }
        self.handle_events(events)
    }
}

/// `after` is `before` once `data` was parsed and the events the parser
/// reported for it were handled, giving `r`.
pub open spec fn parsed(
    before: TelnetHandler,
    after: TelnetHandler,
    data: Seq<u8>,
    r: (Option<Vec<u8>>, Vec<TelnetNotice>),
) -> bool {
    &&& after.fed() == before.fed().push(data)
    &&& after.support() == before.support()
    &&& handled(
        before.state(),
        after.state(),
        telnet_events(before.support(), before.fed(), data).map_values(|e: TelnetEvents| event_of(e)),
        r,
    )
}

/// Handling a single event is one step (see `stepped`), and gives bytes to
/// decompress exactly when the event asks for decompression.
proof fn lemma_single_event(
    before: HandlerState,
    after: HandlerState,
    ev: TelnetEvent,
    r: (Option<Vec<u8>>, Vec<TelnetNotice>),
)
    requires
        handled(before, after, seq![ev], r),
    ensures
        stepped(before, ev, after, r.1@),
        !(ev is DecompressImmediate) ==> r.0 is None,
        ev matches TelnetEvent::DecompressImmediate(b) ==> r.0 matches Some(d) && d@ == b@,
{
    let evs = seq![ev];
    assert(evs.drop_last() =~= Seq::<TelnetEvent>::empty());
    assert(first_decompress(evs.drop_last()) is None);
    assert(evs.take(1) =~= evs);
    let (trace, outs) = choose|trace: Seq<HandlerState>, outs: Seq<Seq<TelnetNotice>>|
        #[trigger] is_run(trace, evs.take(handled_count(evs)), outs) && trace[0] == before
            && trace.last() == after && r.1@ == concat(outs);
    assert(stepped(trace[0], evs[0], trace[1], outs[0]));
    assert(outs.drop_last() =~= Seq::<Seq<TelnetNotice>>::empty());
    assert(concat(outs) == concat(outs.drop_last()) + outs.last());
    assert(concat(outs) =~= outs[0]);
}

/// The server enabling an option is reported the same way whether it says
/// it will use the option (`WILL`) or asks the client to (`DO`): exactly
/// one notice naming the option, with the handler unchanged and nothing to
/// decompress. Refusals (`WONT`, `DONT`) and other commands report nothing.
pub proof fn lemma_negotiation_reported(
    before: HandlerState,
    after: HandlerState,
    command: u8,
    option: u8,
    r: (Option<Vec<u8>>, Vec<TelnetNotice>),
)
    requires
        handled(before, after, seq![TelnetEvent::Negotiation { command, option }], r),
    ensures
        after == before,
        r.0 is None,
        command == 251 || command == 253 ==> r.1@ == seq![TelnetNotice::ProtoEnabled(option)],
        command != 251 && command != 253 ==> r.1@.len() == 0,
{
    lemma_single_event(before, after, TelnetEvent::Negotiation { command, option }, r);
}

/// A subnegotiation is passed on to the client with its payload, except the
/// one for MCCP2 (option 86), which only starts compression; the handler
/// does not change.
pub proof fn lemma_subnegotiation_passed_on(
    before: HandlerState,
    after: HandlerState,
    option: u8,
    buffer: Vec<u8>,
    r: (Option<Vec<u8>>, Vec<TelnetNotice>),
)
    requires
        handled(before, after, seq![TelnetEvent::Subnegotiation { option, buffer }], r),
    ensures
        after == before,
        r.0 is None,
        option == 86 ==> r.1@.len() == 0,
        option != 86 ==> r.1@ == seq![TelnetNotice::ProtoSubnegRecv(option, buffer)],
{
    lemma_single_event(before, after, TelnetEvent::Subnegotiation { option, buffer }, r);
}

/// Bytes to send reach the client to be sent, unless there are none.
pub proof fn lemma_send_passed_on(
    before: HandlerState,
    after: HandlerState,
    msg: Vec<u8>,
    r: (Option<Vec<u8>>, Vec<TelnetNotice>),
)
    requires
        handled(before, after, seq![TelnetEvent::DataSend(msg)], r),
    ensures
        after == before,
        r.0 is None,
        msg@.len() > 0 ==> r.1@ == seq![TelnetNotice::ServerSend(msg)],
        msg@.len() == 0 ==> r.1@.len() == 0,
{
    lemma_single_event(before, after, TelnetEvent::DataSend(msg), r);
}

/// A request to decompress hands its bytes back and changes nothing else.
pub proof fn lemma_decompress_handed_back(
    before: HandlerState,
    after: HandlerState,
    data: Vec<u8>,
    r: (Option<Vec<u8>>, Vec<TelnetNotice>),
)
    requires
        handled(before, after, seq![TelnetEvent::DecompressImmediate(data)], r),
    ensures
        after == before,
        r.1@.len() == 0,
        r.0 matches Some(d) && d@ == data@,
{
    lemma_single_event(before, after, TelnetEvent::DecompressImmediate(data), r);
}

/// A go-ahead (249), end-of-record (239) or no-op (241) ends a prompt: what
/// is buffered is reported as the prompt when new data arrived, and the
/// buffer is emptied; any other two-byte command changes nothing.
pub proof fn lemma_prompt_commands(
    before: HandlerState,
    after: HandlerState,
    cmd: u8,
    r: (Option<Vec<u8>>, Vec<TelnetNotice>),
)
    requires
        handled(before, after, seq![TelnetEvent::Iac(cmd)], r),
    ensures
        r.0 is None,
        cmd == 249 || cmd == 239 || cmd == 241 ==> {
            &&& after.1 == TelnetMode::TerminatedPrompt
            &&& after.0.pending().len() == 0
            &&& before.0.fresh() ==> r.1@.len() == 1 && (r.1@[0] matches TelnetNotice::Prompt(p)
                && is_prompt_of(p, before.0.pending()))
            &&& !before.0.fresh() ==> r.1@.len() == 0
        },
        cmd != 249 && cmd != 239 && cmd != 241 ==> after == before && r.1@.len() == 0,
{
    lemma_single_event(before, after, TelnetEvent::Iac(cmd), r);
}

} // verus!
