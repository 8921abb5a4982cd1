//! The decisions of the network loop: what the transmit channel gives, when
//! the socket is watched for writing, what a write or a read did to the
//! pending bytes, and what the client is told when the loop ends. The loop
//! itself (polling, reading and writing the socket) is the caller's.
use vstd::prelude::*;
use crate::net::telnet_handler::{parsed, TelnetHandler, TelnetNotice};
use crate::net::zlib::{zlib_decodes, zlib_output, InflateError, ZlibState};
use crate::text::{push_decimal, push_str, spec_decimal, string_of};

verus! {

/// What polling the transmit channel gave.
#[derive(Debug, PartialEq, Eq)]
pub enum Transmit {
    /// Bytes to send.
    Data(Vec<u8>),
    /// The session asked the loop to stop.
    Close,
    /// Nothing waiting.
    Empty,
    /// The session is gone.
    Disconnected,
}

/// What one write to the connection did.
#[derive(Debug, Clone, Copy, PartialEq, Eq, Structural)]
pub enum WriteOutcome {
    /// This many bytes were taken.
    Wrote(usize),
    /// The connection cannot take more now.
    WouldBlock,
    /// The write failed.
    Failed,
}

/// Why writing ended the connection.
#[derive(Debug, Clone, Copy, PartialEq, Eq, Structural)]
pub enum WriteError {
    /// The socket took nothing.
    WriteZero,
    /// The write failed.
    Failed,
}

/// What one read from the connection gave.
#[derive(Debug, PartialEq, Eq)]
pub enum ReadOutcome {
    /// Bytes arrived.
    Got(Vec<u8>),
    /// The peer closed the connection.
    Closed,
    /// Nothing more to read now.
    WouldBlock,
    /// The read failed.
    Failed,
}

/// How a round of reading ended.
#[derive(Debug, Clone, Copy, PartialEq, Eq, Structural)]
pub enum ReadEnd {
    /// Everything available was read.
    Drained,
    /// The peer closed the connection.
    Closed,
    /// The read failed.
    Failed,
}

/// What the loop tells the client.
#[derive(Debug, PartialEq, Eq)]
pub enum NetNotice {
    Info(String),
    Error(String),
    Disconnect,
}

/// The state the loop keeps between polls: bytes waiting to be written and
/// whether it is to stop.
pub struct NetLoop {
    write_buffer: Vec<u8>,
    shutdown: bool,
}

impl NetLoop {
    /// Bytes waiting to be written.
    pub closed spec fn pending(&self) -> Seq<u8> {
        self.write_buffer@
    }

    /// Whether the loop is to stop.
    pub closed spec fn stopping(&self) -> bool {
        self.shutdown
    }

    /// Nothing to write, running.
    pub fn new() -> (r: NetLoop)
        ensures
            r.pending() == Seq::<u8>::empty(),
            !r.stopping(),
    {
        NetLoop { write_buffer: Vec::new(), shutdown: false }
    }

    /// Whether the loop is to stop.
    pub fn is_shut_down(&self) -> (r: bool)
        ensures
            r == self.stopping(),
    {
        self.shutdown
    }

    /// The bytes waiting to be written.
    pub fn pending_bytes(&self) -> (r: &[u8])
        ensures
            r@ == self.pending(),
    {
        self.write_buffer.as_slice()
    }

    /// Takes one message of the transmit channel: data is queued for
    /// writing, a close request or a lost session stops the loop. Returns
    /// whether to poll the channel again.
    pub fn take_transmit(&mut self, msg: Transmit) -> (r: bool)
        ensures
            match msg {
                Transmit::Data(d) => r && final(self).pending() == old(self).pending() + d@
                    && final(self).stopping() == old(self).stopping(),
                Transmit::Close => !r && final(self).stopping() && final(self).pending() == old(self).pending(),
                Transmit::Empty => !r && *final(self) == *old(self),
                Transmit::Disconnected => !r && final(self).stopping() && final(self).pending()
                    == old(self).pending(),
            },
    {
        match msg {
            Transmit::Data(d) => {
                let mut k: usize = 0;
                let ghost start = self.write_buffer@;
                while k < d.len()
                    invariant
                        k <= d@.len(),
                        self.write_buffer@ == start + d@.take(k as int),
                        self.shutdown == old(self).shutdown,
                    decreases d@.len() - k,
                {
                    self.write_buffer.push(d[k]);
                    assert(d@.take(k + 1) =~= d@.take(k as int).push(d@[k as int]));
                    k += 1;
                }
                assert(d@.take(d@.len() as int) =~= d@);
                true
            },
            Transmit::Close => {
                self.shutdown = true;
                false
            },
            Transmit::Empty => false,
            Transmit::Disconnected => {
                self.shutdown = true;
                false
            },
        }
    }

    /// Whether the connection is to be watched for writing: there are bytes
    /// waiting, or the encryption layer has records of its own to send.
    pub fn wants_writable(&self, tls_wants_write: bool) -> (r: bool)
        ensures
            r == (self.pending().len() > 0 || tls_wants_write),
    {
        self.write_buffer.len() > 0 || tls_wants_write
    }

    /// Records what a write of the pending bytes did, and says whether to
    /// write again. The bytes taken leave the queue. On a plain socket a
    /// write that takes nothing is an error; the encryption layer taking
    /// nothing only ends this round.
    pub fn wrote(&mut self, outcome: WriteOutcome, tls: bool) -> (r: Result<bool, WriteError>)
        requires
            outcome matches WriteOutcome::Wrote(n) ==> n <= old(self).pending().len(),
        ensures
            final(self).stopping() == old(self).stopping(),
            match outcome {
                WriteOutcome::Wrote(n) => if n == 0 {
                    final(self).pending() == old(self).pending() && if tls {
                        r == Ok::<bool, WriteError>(false)
                    } else {
                        r == Err::<bool, WriteError>(WriteError::WriteZero)
                    }
                } else {
                    &&& final(self).pending() == old(self).pending().skip(n as int)
                    &&& r == Ok::<bool, WriteError>(final(self).pending().len() > 0)
                },
                WriteOutcome::WouldBlock => r == Ok::<bool, WriteError>(false) && final(self).pending() == old(self).pending(),
                WriteOutcome::Failed => r == Err::<bool, WriteError>(WriteError::Failed) && final(self).pending() == old(self).pending(),
            },
    {
        match outcome {
            WriteOutcome::Wrote(n) => {
                if n == 0 {
                    if tls {
                        Ok(false)
                    } else {
                        Err(WriteError::WriteZero)
                    }
                } else {
                    let mut rest: Vec<u8> = Vec::new();
                    let mut k: usize = n;
                    while k < self.write_buffer.len()
                        invariant
                            n <= k <= self.write_buffer@.len(),
                            rest@ == self.write_buffer@.subrange(n as int, k as int),
                        decreases self.write_buffer@.len() - k,
                    {
                        rest.push(self.write_buffer[k]);
                        assert(self.write_buffer@.subrange(n as int, k + 1) =~= self.write_buffer@.subrange(
                            n as int,
                            k as int,
                        ).push(self.write_buffer@[k as int]));
                        k += 1;
                    }
                    self.write_buffer = rest;
                    Ok(self.write_buffer.len() > 0)
                }
            },
            WriteOutcome::WouldBlock => Ok(false),
            WriteOutcome::Failed => Err(WriteError::Failed),
        }
    }

    /// A read or a write of the connection failed: anything but "would
    /// block" stops the loop. Returns whether it stops.
    pub fn io_failed(&mut self, would_block: bool) -> (r: bool)
        ensures
            r == !would_block,
            final(self).stopping() == (old(self).stopping() || !would_block),
            final(self).pending() == old(self).pending(),
    {
        if !would_block {
            self.shutdown = true;
        }
        !would_block
    }
}

/// Takes one read of the connection into `chunks`; says how the round of
/// reading ended, or `None` to read again.
pub fn read_step(chunks: &mut Vec<Vec<u8>>, outcome: ReadOutcome) -> (r: Option<ReadEnd>)
    ensures
        match outcome {
            ReadOutcome::Got(d) => if d@.len() == 0 {
                r == Some(ReadEnd::Closed) && final(chunks)@ == old(chunks)@
            } else {
                r is None && final(chunks)@ == old(chunks)@.push(d)
            },
            ReadOutcome::Closed => r == Some(ReadEnd::Closed) && final(chunks)@ == old(chunks)@,
            ReadOutcome::WouldBlock => r == Some(ReadEnd::Drained) && final(chunks)@ == old(chunks)@,
            ReadOutcome::Failed => r == Some(ReadEnd::Failed) && final(chunks)@ == old(chunks)@,
        },
{
    match outcome {
        ReadOutcome::Got(d) => {
            if d.len() == 0 {
                Some(ReadEnd::Closed)
            } else {
                chunks.push(d);
                None
            }
        },
        ReadOutcome::Closed => Some(ReadEnd::Closed),
        ReadOutcome::WouldBlock => Some(ReadEnd::Drained),
        ReadOutcome::Failed => Some(ReadEnd::Failed),
    }
}

/// What the client is told when the loop ends.
pub fn closing_notices() -> (r: Vec<NetNotice>)
    ensures
        r@.len() == 2,
        r@[0] matches NetNotice::Info(m) && m@ == "Connection closed"@,
        r@[1] == NetNotice::Disconnect,
{
    let mut out: Vec<NetNotice> = Vec::new();
    out.push(NetNotice::Info("Connection closed".to_owned()));
    out.push(NetNotice::Disconnect);
    out
}

/// What the client is told when the loop cannot start: `what` failed with
/// `err`, and the session is over.
pub fn setup_failed_notices(what: &str, err: &str) -> (r: Vec<NetNotice>)
    ensures
        r@.len() == 2,
        r@[0] matches NetNotice::Error(m) && m@ == what@ + " failed: "@ + err@,
        r@[1] == NetNotice::Disconnect,
{
    let mut cs: Vec<char> = Vec::new();
    push_str(&mut cs, what);
    push_str(&mut cs, " failed: ");
    push_str(&mut cs, err);
    let mut out: Vec<NetNotice> = Vec::new();
    out.push(NetNotice::Error(string_of(cs.as_slice())));
    out.push(NetNotice::Disconnect);
    out
}

/// The error reported when connecting to `host` on `port` failed.
pub fn connect_failed_message(host: &str, port: u16) -> (r: String)
    ensures
        r@ == "Failed to connect to "@ + host@ + ":"@ + spec_decimal(port as nat),
{
    let mut cs: Vec<char> = Vec::new();
    push_str(&mut cs, "Failed to connect to ");
    push_str(&mut cs, host);
    push_str(&mut cs, ":");
    push_decimal(&mut cs, port as u64);
    string_of(cs.as_slice())
}

/// Hands received bytes (already decompressed when compression is on) to
/// the telnet handler; nothing is done with no bytes. Gives the bytes that
/// follow the start of compression, if compression starts, and what the
/// client is told.
pub fn handle_received(handler: &mut TelnetHandler, data: &[u8]) -> (r: (
    Option<Vec<u8>>,
    Vec<TelnetNotice>,
))
    requires
        old(handler).wf(),
    ensures
        final(handler).wf(),
        data@.len() == 0 ==> r.0 is None && r.1@.len() == 0 && *final(handler) == *old(handler),
        data@.len() > 0 ==> parsed(*old(handler), *final(handler), data@, r),
{
    if data.len() == 0 {
        return (None, Vec::new());
    }
    handler.parse(data)
}

/// What `handle_received` does with `data`: nothing with no bytes, else
/// the handler parses them.
pub open spec fn received_by(
    before: TelnetHandler,
    after: TelnetHandler,
    data: Seq<u8>,
    r: (Option<Vec<u8>>, Vec<TelnetNotice>),
) -> bool {
    if data.len() == 0 {
        r.0 is None && r.1@.len() == 0 && after == before
    } else {
        parsed(before, after, data, r)
    }
}

/// `out` is what `zlib` gives for received `data`: the bytes themselves
/// before decompression starts, else what the stream decodes to beyond
/// what it decoded before.
pub open spec fn inflated_from(zlib: ZlibState, data: Seq<u8>, out: Seq<u8>) -> bool {
    if zlib.active() {
        zlib_output(zlib.fed()) + out == zlib_output(zlib.fed() + data)
    } else {
        out == data
    }
}

/// Takes received bytes through decompression, when it is on, to the
/// telnet handler; when the server starts compression, the bytes after
/// the start are decompressed and handled too. A decompression error of
/// the received bytes is given back with nothing handled; when the bytes
/// after the start do not decode, they are left unhandled.
pub fn receive_data(handler: &mut TelnetHandler, zlib: &mut ZlibState, data: &[u8]) -> (r: Result<
    Vec<TelnetNotice>,
    InflateError,
>)
    requires
        old(handler).wf(),
    ensures
        final(handler).wf(),
        r is Err ==> old(zlib).active() && *final(handler) == *old(handler),
        data@.len() > 0 ==> (r is Err <==> old(zlib).active() && !zlib_decodes(
            old(zlib).fed() + data@,
        )),
        r matches Ok(notices) ==> exists|
            d: Seq<u8>,
            mid: TelnetHandler,
            first: (Option<Vec<u8>>, Vec<TelnetNotice>),
        |
            #![trigger received_by(*old(handler), mid, d, first)]
            {
                &&& inflated_from(*old(zlib), data@, d)
                &&& received_by(*old(handler), mid, d, first)
                &&& match first.0 {
                    None => *final(handler) == mid && notices@ == first.1@,
                    Some(rest) => final(zlib).active() && final(zlib).fed() == rest@ && if rest@.len()
                        > 0 && zlib_decodes(rest@) {
                        exists|second: (Option<Vec<u8>>, Vec<TelnetNotice>)|
                            #![trigger received_by(mid, *final(handler), zlib_output(rest@), second)]
                            {
                                &&& received_by(mid, *final(handler), zlib_output(rest@), second)
                                &&& notices@ == first.1@ + second.1@
                            }
                    } else {
                        *final(handler) == mid && notices@ == first.1@
                    },
                }
            },
{
    let ghost z0 = *zlib;
    let ghost h0 = *handler;
    let d = match zlib.decompress(data) {
        Ok(d) => d,
        Err(e) => return Err(e),
    };
    let first = handle_received(handler, d.as_slice());
    let ghost mid = *handler;
    let ghost first_g = first;
    let (remaining, mut notices) = first;
    let ghost n1 = notices@;
    match remaining {
        None => {
            assert(received_by(h0, mid, d@, first_g));
            Ok(notices)
        },
        Some(rest) => {
            let ghost rest_g = rest@;
            match zlib.start_decompression_with(rest) {
                Ok(dec) => {
                    let second = handle_received(handler, dec.as_slice());
                    let ghost second_g = second;
                    let (_, mut more) = second;
                    notices.append(&mut more);
                    assert(received_by(mid, *handler, dec@, second_g));
                    assert(received_by(h0, mid, d@, first_g));
                    proof {
                        if !(rest_g.len() > 0 && zlib_decodes(rest_g)) {
                            assert(rest_g.len() == 0);
                            assert(dec@.len() == 0);
                            assert(notices@ =~= n1);
                        }
                    }
                    Ok(notices)
                },
                Err(_) => {
                    assert(received_by(h0, mid, d@, first_g));
                    Ok(notices)
                },
            }
        },
    }
}

} // verus!
