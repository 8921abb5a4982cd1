//! Decompression of the server's stream once it turns on MCCP2: a zlib
//! stream that lasts for the rest of the connection.
use vstd::prelude::*;
use std::io::Write;

verus! {

/// A zlib decoder writing what it decodes into a `Vec`. Held opaque: Verus
/// does not take the decoder type's declaration (its parameter is bound by
/// an outside trait).
#[verifier::external_body]
pub struct ZlibStream {
    decoder: flate2::write::ZlibDecoder<Vec<u8>>,
}

/// The compressed bytes a decoder has been given.
pub uninterp spec fn zlib_fed(d: ZlibStream) -> Seq<u8>;

/// Whether `compressed` is the beginning of a zlib stream: every byte of it
/// is read without error, and none comes after the stream's end.
pub uninterp spec fn zlib_decodes(compressed: Seq<u8>) -> bool;

/// Everything a zlib stream beginning with `compressed` decodes to, as far
/// as those bytes go.
pub uninterp spec fn zlib_output(compressed: Seq<u8>) -> Seq<u8>;

/// The compressed stream could not be decoded.
#[derive(Debug, Clone, Copy, PartialEq, Eq, Structural)]
pub struct InflateError;

/// Trusted: `flate2::write::ZlibDecoder::new` over an empty `Vec` makes a
/// decoder that has been given nothing, and so has decoded nothing.
#[verifier::external_body]
fn new_zlib_decoder() -> (r: ZlibStream)
    ensures
        zlib_fed(r) == Seq::<u8>::empty(),
        zlib_output(zlib_fed(r)) == Seq::<u8>::empty(),
{
    ZlibStream { decoder: flate2::write::ZlibDecoder::new(Vec::new()) }
}

/// Trusted: `write_all` gives `data` to the decoder and `flush` makes it
/// write out all it can decode; the bytes written are taken out of its
/// `Vec`. The decoder has been given `data` too, whatever came of it. For
/// non-empty `data` the call succeeds exactly when all the bytes given so
/// far still read as the beginning of a zlib stream (miniz_oxide keeps a
/// failure: every later call fails too). When it succeeds, what came out is
/// what the whole stream decodes to beyond what it decoded before.
#[verifier::external_body]
fn inflate(d: &mut ZlibStream, data: &[u8]) -> (r: Result<
    Vec<u8>,
    InflateError,
>)
    ensures
        zlib_fed(*final(d)) == zlib_fed(*old(d)) + data@,
        data@.len() > 0 ==> (r is Ok <==> zlib_decodes(zlib_fed(*old(d)) + data@)),
        r matches Ok(out) ==> zlib_output(zlib_fed(*old(d))) + out@ == zlib_output(
            zlib_fed(*old(d)) + data@,
        ),
{
    d.decoder.write_all(data).map_err(|_| InflateError)?;
    d.decoder.flush().map_err(|_| InflateError)?;
    Ok(std::mem::take(d.decoder.get_mut()))
}

/// The decompression of the server's stream: off until the server starts
/// it, then one decoder for the rest of the connection.
pub struct ZlibState {
    decoder: Option<ZlibStream>,
}

impl ZlibState {
    /// Whether decompression has started.
    pub closed spec fn active(&self) -> bool {
        self.decoder is Some
    }

    /// The compressed bytes decoded so far.
    pub closed spec fn fed(&self) -> Seq<u8> {
        match self.decoder {
            Some(d) => zlib_fed(d),
            None => Seq::<u8>::empty(),
        }
    }

    /// Decompression not started.
    pub fn new() -> (r: ZlibState)
        ensures
            !r.active(),
    {
        ZlibState { decoder: None }
    }

    /// Whether decompression has started.
    pub fn is_active(&self) -> (r: bool)
        ensures
            r == self.active(),
    {
        self.decoder.is_some()
    }

    /// Starts decompression with a new decoder and decodes `initial`, the
    /// compressed bytes that came with the start.
    pub fn start_decompression_with(&mut self, initial: Vec<u8>) -> (r: Result<
        Vec<u8>,
        InflateError,
    >)
        ensures
            final(self).active(),
            final(self).fed() == initial@,
            initial@.len() > 0 ==> (r is Ok <==> zlib_decodes(initial@)),
            r matches Ok(out) ==> out@ == zlib_output(initial@),
            initial@.len() == 0 ==> (r matches Ok(out) ==> out@.len() == 0),
    {
        self.decoder = Some(new_zlib_decoder());
        proof {
            assert(Seq::<u8>::empty() + initial@ =~= initial@);
        }
        let r = self.decompress(initial.as_slice());
        proof {
            if r is Ok {
                let out = r->Ok_0;
                assert(Seq::<u8>::empty() + out@ =~= out@);
            }
        }
        r
    }

    /// Decodes received bytes once decompression has started; until then
    /// they pass through unchanged.
    pub fn decompress(&mut self, data: &[u8]) -> (r: Result<Vec<u8>, InflateError>)
        ensures
            final(self).active() == old(self).active(),
            !old(self).active() ==> (r matches Ok(out) && out@ == data@),
            old(self).active() ==> final(self).fed() == old(self).fed() + data@,
            old(self).active() && data@.len() > 0 ==> (r is Ok <==> zlib_decodes(
                old(self).fed() + data@,
            )),
            old(self).active() ==> (r matches Ok(out) ==> zlib_output(old(self).fed()) + out@
                == zlib_output(final(self).fed())),
    {
        match &mut self.decoder {
            Some(d) => inflate(d, data),
            None => {
                let mut out: Vec<u8> = Vec::new();
                let mut i: usize = 0;
                while i < data.len()
                    invariant
                        i <= data@.len(),
                        out@ == data@.take(i as int),
                    decreases data@.len() - i,
                {
                    out.push(data[i]);
                    assert(data@.take(i + 1) =~= data@.take(i as int).push(data@[i as int]));
                    i += 1;
                }
                assert(data@.take(data@.len() as int) =~= data@);
                Ok(out)
            },
        }
    }
}

} // verus!
