//! The earlier line splitter: cuts received bytes at `\r\n` only, and keeps
//! the rest as the prompt.
use vstd::prelude::*;
use crate::model::{string_from_utf8_lossy, utf8_lossy, Line};
use vstd::utf8::{decode_utf8, valid_utf8};

verus! {

/// Whether `\r\n` starts at `i`.
pub open spec fn is_crlf(b: Seq<u8>, i: int) -> bool {
    b[i] == 13u8 && b[i + 1] == 10u8
}

/// The line ranges cut after scanning the first `n` windows of `b`, and where
/// the next line starts. A break at the very start ends no line.
pub open spec fn crlf_state(b: Seq<u8>, n: int) -> (Seq<(int, int)>, int)
    decreases n,
{
    if n <= 0 {
        (seq![], 0)
    } else {
        let (cuts, last) = crlf_state(b, n - 1);
        let i = n - 1;
        if is_crlf(b, i) {
            if i == 0 {
                (cuts, 2)
            } else {
                (cuts.push((last, i)), i + 2)
            }
        } else {
            (cuts, last)
        }
    }
}

/// Number of two-byte windows of `b`.
pub open spec fn crlf_windows(b: Seq<u8>) -> int {
    if b.len() >= 2 { b.len() - 1 } else { 0 }
}

/// Decodes bytes for display, replacing invalid UTF-8.
fn read_string_from(buffer: &[u8]) -> (r: String)
    ensures
        r@ == utf8_lossy(buffer@),
        valid_utf8(buffer@) ==> r@ == decode_utf8(buffer@),
{
    string_from_utf8_lossy(buffer)
}

pub struct OutputBuffer {
    buffer: Vec<u8>,
    /// The last prompt taken from the buffer.
    pub prompt: String,
}

impl OutputBuffer {
    /// The bytes not yet cut into lines.
    pub closed spec fn pending(&self) -> Seq<u8> {
        self.buffer@
    }

    /// The prompt text.
    pub closed spec fn prompt_text(&self) -> Seq<char> {
        self.prompt@
    }

    /// An empty buffer with no prompt.
    pub fn new() -> (r: OutputBuffer)
        ensures
            r.pending() == Seq::<u8>::empty(),
            r.prompt_text() == Seq::<char>::empty(),
    {
        OutputBuffer { buffer: Vec::new(), prompt: String::new() }
    }

    /// The prompt text.
    pub fn prompt(&self) -> (r: &str)
        ensures
            r@ == self.prompt_text(),
    {
        self.prompt.as_str()
    }

    /// Moves what is buffered into the prompt; an empty buffer clears it.
    pub fn buffer_to_prompt(&mut self)
        ensures
            final(self).pending() == Seq::<u8>::empty(),
            final(self).prompt_text() == if old(self).pending().len() == 0 {
                Seq::<char>::empty()
            } else {
                utf8_lossy(old(self).pending())
            },
    {
        if self.buffer.len() > 0 {
            self.prompt = read_string_from(self.buffer.as_slice());
            self.buffer.clear();
        } else {
            self.prompt = String::new();
        }
    }

    /// Appends `data` and returns every line ended by `\r\n`; what follows
    /// the last break stays buffered.
    pub fn receive(&mut self, data: &[u8]) -> (r: Vec<String>)
        ensures
            ({
                let b = old(self).pending() + data@;
                let (cuts, last) = crlf_state(b, crlf_windows(b));
                &&& r@.len() == cuts.len()
                &&& forall|k: int|
                    0 <= k < cuts.len() ==> (#[trigger] r@[k])@ == utf8_lossy(
                        b.subrange(cuts[k].0, cuts[k].1),
                    )
                &&& final(self).pending() == b.skip(last)
            }),
            final(self).prompt_text() == old(self).prompt_text(),
    {
        let mut k: usize = 0;
        while k < data.len()
            invariant
                k <= data@.len(),
                self.buffer@ == old(self).buffer@ + data@.take(k as int),
                self.prompt == old(self).prompt,
            decreases data@.len() - k,
        {
            self.buffer.push(data[k]);
            proof {
                assert(data@.take(k + 1) =~= data@.take(k as int).push(data@[k as int]));
            }
            k += 1;
        }
        assert(data@.take(data@.len() as int) =~= data@);
        let ghost b = self.buffer@;
        let blen = self.buffer.len();
        let n: usize = if blen >= 2 {
            blen - 1
        } else {
            0
        };
        let mut last_cut: usize = 0;
        let mut lines: Vec<String> = Vec::new();
        let mut i: usize = 0;
        while i < n
            invariant
                self.buffer@ == b,
                blen == b.len(),
                n == crlf_windows(b),
                i <= n,
                ({
                    let (cuts, last) = crlf_state(b, i as int);
                    &&& last == last_cut as int
                    &&& lines@.len() == cuts.len()
                    &&& forall|j: int|
                        0 <= j < cuts.len() ==> (#[trigger] lines@[j])@ == utf8_lossy(
                            b.subrange(cuts[j].0, cuts[j].1),
                        )
                    &&& forall|j: int| 0 <= j < cuts.len() ==> 0 <= (#[trigger] cuts[j]).0 <= cuts[j].1 <= i
                }),
                last_cut <= i + 1,
                last_cut == i + 1 ==> b[i as int] == 10u8,
                last_cut <= b.len(),
                self.prompt == old(self).prompt,
            decreases n - i,
        {
            if self.buffer[i] == 13u8 && self.buffer[i + 1] == 10u8 {
                if i == 0 {
                    last_cut = 2;
                } else {
                    let line = read_string_from(&self.buffer.as_slice()[last_cut..i]);
                    lines.push(line);
                    last_cut = i + 2;
                }
            }
            i += 1;
        }
        if last_cut > 0 {
            if last_cut < self.buffer.len() {
                let rest = self.buffer.split_off(last_cut);
                self.buffer = rest;
            } else {
                self.buffer.clear();
            }
        }
        assert(self.buffer@ =~= b.skip(last_cut as int));
        lines
    }

    /// Forgets the buffered bytes and the prompt.
    pub fn clear(&mut self)
        ensures
            final(self).pending() == Seq::<u8>::empty(),
            final(self).prompt_text() == Seq::<char>::empty(),
    {
        self.buffer.clear();
        self.prompt = String::new();
    }

    /// Whether nothing is buffered.
    pub fn is_empty(&self) -> (r: bool)
        ensures
            r == (self.pending().len() == 0),
    {
        self.buffer.len() == 0
    }
}

} // verus!
