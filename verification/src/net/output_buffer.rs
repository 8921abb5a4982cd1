//! Splits the bytes received from the server into lines, keeping the
//! unterminated remainder as the prompt candidate.
use vstd::prelude::*;
use crate::model::{Line, trim_trailing_cr, utf8_lossy};
use vstd::utf8::{decode_utf8, valid_utf8};
use crate::net::telnet::TelnetMode;

verus! {

/// Line feed.
pub open spec fn lf() -> u8 {
    10u8
}

/// Carriage return.
pub open spec fn cr() -> u8 {
    13u8
}

/// Whether a two-byte line break (`\r\n` or `\n\r`) starts at `i`.
pub open spec fn is_break2(b: Seq<u8>, i: int) -> bool {
    (b[i] == cr() && b[i + 1] == lf()) || (b[i] == lf() && b[i + 1] == cr())
}

/// A cut made while splitting: the byte range of a line and whether it
/// continues an unterminated prompt from an earlier receive.
pub type Cut = (int, int, bool);

/// The result of cutting a line ending at `i` with a break of `len` bytes.
pub open spec fn cut_at(
    cuts: Seq<Cut>,
    last: int,
    i: int,
    len: int,
    existing: int,
    unterminated: bool,
) -> (Seq<Cut>, int) {
    if i == 0 {
        (cuts.push((0, 0, false)), len)
    } else {
        (
            cuts.push((last, i, unterminated && last == 0 && i > existing && existing > 0)),
            i + len,
        )
    }
}

/// The cuts made after scanning the first `n` two-byte windows of `b`, and
/// where the next line starts. `existing` is how many bytes were already
/// buffered before this receive.
pub open spec fn split_state(b: Seq<u8>, existing: int, unterminated: bool, n: int) -> (
    Seq<Cut>,
    int,
)
    decreases n,
{
    if n <= 0 {
        (seq![], 0)
    } else {
        let (cuts, last) = split_state(b, existing, unterminated, n - 1);
        let i = n - 1;
        if i >= last && is_break2(b, i) {
            cut_at(cuts, last, i, 2, existing, unterminated)
        } else if i >= last && b[i] == lf() {
            cut_at(cuts, last, i, 1, existing, unterminated)
        } else {
            (cuts, last)
        }
    }
}

/// Whether `b[i..j]` is one line break: `\n`, `\r\n` or `\n\r`.
pub open spec fn is_break_between(b: Seq<u8>, i: int, j: int) -> bool {
    ||| (j == i + 1 && b[i] == lf())
    ||| (j == i + 2 && is_break2(b, i))
}

/// Where the line after cut `k` starts: the next cut's start, or the
/// remainder's start after the last cut.
pub open spec fn next_start(cuts: Seq<Cut>, last: int, k: int) -> int {
    if k + 1 < cuts.len() { cuts[k + 1].0 } else { last }
}

/// The cuts tile `b[0..last]`: lines and line breaks alternate, in order,
/// with nothing skipped and nothing taken twice.
pub open spec fn tiles(b: Seq<u8>, cuts: Seq<Cut>, last: int) -> bool {
    &&& (cuts.len() == 0 ==> last == 0)
    &&& (cuts.len() > 0 ==> cuts[0].0 == 0)
    &&& forall|k: int|
        #![trigger cuts[k]]
        0 <= k < cuts.len() ==> cuts[k].0 <= cuts[k].1 && is_break_between(
            b,
            cuts[k].1,
            next_start(cuts, last, k),
        )
}

/// Receiving loses no byte and invents none: the lines cut from the buffer,
/// each followed by the line break that ended it, make up exactly the bytes
/// before what stays buffered.
pub proof fn lemma_split_tiles(b: Seq<u8>, existing: int, unterminated: bool, n: int)
    requires
        0 <= n <= windows(b),
    ensures
        tiles(
            b,
            split_state(b, existing, unterminated, n).0,
            split_state(b, existing, unterminated, n).1,
        ),
        0 <= split_state(b, existing, unterminated, n).1 <= n + 1,
    decreases n,
{
    if n > 0 {
        lemma_split_tiles(b, existing, unterminated, n - 1);
        let (cuts, last) = split_state(b, existing, unterminated, n - 1);
        let (cuts2, last2) = split_state(b, existing, unterminated, n);
        if cuts2.len() > cuts.len() {
            assert forall|k: int| #![trigger cuts2[k]] 0 <= k < cuts2.len() implies cuts2[k].0
                <= cuts2[k].1 && is_break_between(b, cuts2[k].1, next_start(cuts2, last2, k)) by {
                if k < cuts.len() {
                    assert(cuts2[k] == cuts[k]);
                }
            }
        }
    }
}

/// Number of two-byte windows of `b`.
pub open spec fn windows(b: Seq<u8>) -> int {
    if b.len() >= 2 { b.len() - 1 } else { 0 }
}

/// Whether `l` is the line made from the bytes `b[c.0..c.1]` for the cut `c`.
pub open spec fn is_cut_line(l: Line, b: Seq<u8>, c: Cut) -> bool {
    &&& l.text() == trim_trailing_cr(utf8_lossy(b.subrange(c.0, c.1)))
    &&& valid_utf8(b.subrange(c.0, c.1)) ==> l.text() == trim_trailing_cr(
        decode_utf8(b.subrange(c.0, c.1)),
    )
    &&& l.flags.separate_receives == c.2
    &&& !l.flags.prompt && !l.flags.screen_clear && !l.flags.gag && l.flags.source is None
    &&& l.tag.key@ == Seq::<char>::empty()
}

/// `after` is `before` once `data` arrived and `lines` were cut out of it.
pub open spec fn received(before: OutputBuffer, after: OutputBuffer, data: Seq<u8>, lines: Seq<Line>) -> bool {
    let b = before.pending() + data;
    let (cuts, last) = split_state(
        b,
        before.pending().len() as int,
        before.mode() == TelnetMode::UnterminatedPrompt,
        windows(b),
    );
    &&& lines.len() == cuts.len()
    &&& forall|k: int| 0 <= k < cuts.len() ==> is_cut_line(#[trigger] lines[k], b, cuts[k])
    &&& after.pending() == b.skip(last)
    &&& after.fresh()
    &&& after.mode() == before.mode()
}

/// `prompt` is the prompt line made of the buffered bytes `pending`.
pub open spec fn is_prompt_of(prompt: Line, pending: Seq<u8>) -> bool {
    &&& prompt.text() == if pending.len() == 0 {
        Seq::<char>::empty()
    } else {
        trim_trailing_cr(utf8_lossy(pending))
    }
    &&& valid_utf8(pending) ==> prompt.text() == trim_trailing_cr(decode_utf8(pending))
    &&& prompt.flags.prompt
    &&& !prompt.flags.separate_receives && !prompt.flags.screen_clear && !prompt.flags.gag
}

pub struct OutputBuffer {
    buffer: Vec<u8>,
    telnet_mode: TelnetMode,
    new_data: bool,
}

impl OutputBuffer {
    /// The bytes not yet cut into lines.
    pub closed spec fn pending(&self) -> Seq<u8> {
        self.buffer@
    }

    /// The prompt mode in force.
    pub closed spec fn mode(&self) -> TelnetMode {
        self.telnet_mode
    }

    /// Whether data arrived since the last prompt was taken.
    pub closed spec fn fresh(&self) -> bool {
        self.new_data
    }

    /// An empty buffer in the given mode.
    pub fn new(telnet_mode: &TelnetMode) -> (r: OutputBuffer)
        ensures
            r.pending() == Seq::<u8>::empty(),
            r.mode() == *telnet_mode,
            !r.fresh(),
    {
        OutputBuffer { buffer: Vec::new(), telnet_mode: *telnet_mode, new_data: false }
    }

    /// Switches the prompt mode.
    pub fn telnet_mode(&mut self, mode: &TelnetMode)
        ensures
            final(self).mode() == *mode,
            final(self).pending() == old(self).pending(),
            final(self).fresh() == old(self).fresh(),
    {
        self.telnet_mode = *mode;
    }

    /// Takes what is buffered as a prompt line (an empty one when nothing is
    /// buffered), emptying the buffer when `consume_buffer` is set.
    pub fn buffer_to_prompt(&mut self, consume_buffer: bool) -> (r: Line)
        ensures
            is_prompt_of(r, old(self).pending()),
            final(self).pending() == if consume_buffer {
                Seq::<u8>::empty()
            } else {
                old(self).pending()
            },
            !final(self).fresh(),
            final(self).mode() == old(self).mode(),
    {
        let mut prompt = if self.buffer.len() > 0 {
            Line::from_bytes(self.buffer.as_slice())
        } else {
            Line::from_string(String::new())
        };
        prompt.flags.prompt = true;
        if consume_buffer {
            self.buffer.clear();
        }
        self.new_data = false;
        prompt
    }

    /// Whether data arrived since the last prompt was taken.
    pub fn has_new_data(&self) -> (r: bool)
        ensures
            r == self.fresh(),
    {
        self.new_data
    }

    /// The user sent input: an unterminated prompt is no longer current.
    pub fn input_sent(&mut self)
        ensures
            final(self).pending() == if old(self).mode() == TelnetMode::UnterminatedPrompt {
                Seq::<u8>::empty()
            } else {
                old(self).pending()
            },
            final(self).mode() == old(self).mode(),
            final(self).fresh() == old(self).fresh(),
    {
        if self.telnet_mode == TelnetMode::UnterminatedPrompt {
            self.buffer.clear();
        }
    }

    /// Appends `data` and cuts every complete line out of the buffer. A line
    /// ends at `\r\n`, `\n\r` or `\n` (a break is only seen once the byte after
    /// it has arrived). What follows the last break stays buffered.
    pub fn receive(&mut self, data: &[u8]) -> (r: Vec<Line>)
        ensures
            received(*old(self), *final(self), data@, r@),
    {
        let existing_buffer_len = self.buffer.len();
        self.new_data = true;
        let mut k: usize = 0;
        while k < data.len()
            invariant
                k <= data@.len(),
                self.buffer@ == old(self).buffer@ + data@.take(k as int),
                existing_buffer_len == old(self).buffer@.len(),
                self.telnet_mode == old(self).telnet_mode,
                self.new_data,
            decreases data@.len() - k,
        {
            self.buffer.push(data[k]);
            proof {
                assert(data@.take(k + 1) =~= data@.take(k as int).push(data@[k as int]));
            }
            k += 1;
        }
        assert(data@.take(data@.len() as int) =~= data@);
        let ghost b = self.buffer@;
        let unterminated = self.telnet_mode == TelnetMode::UnterminatedPrompt;
        let mut last_cut: usize = 0;
        let mut lines: Vec<Line> = Vec::new();
        let mut i: usize = 0;
        let blen = self.buffer.len();
        let n: usize = if self.buffer.len() >= 2 {
            self.buffer.len() - 1
        } else {
            0
        };
        while i < n
            invariant
                n == windows(b),
                blen == b.len(),
                self.new_data,
                self.buffer@ == b,
                i <= windows(b),
                existing_buffer_len <= b.len(),
                ({
                    let (cuts, last) = split_state(
                        b,
                        existing_buffer_len as int,
                        unterminated,
                        i as int,
                    );
                    &&& last == last_cut as int
                    &&& lines@.len() == cuts.len()
                    &&& forall|j: int|
                        0 <= j < cuts.len() ==> is_cut_line(#[trigger] lines@[j], b, cuts[j])
                }),
                last_cut <= i + 2,
                last_cut <= b.len(),
            decreases b.len() - i,
        {
            let b0 = self.buffer[i];
            let b1 = self.buffer[i + 1];
            let brk2 = (b0 == 13u8 && b1 == 10u8) || (b0 == 10u8 && b1 == 13u8);
            if i >= last_cut && (brk2 || b0 == 10u8) {
                let cut_len: usize = if brk2 {
                    2
                } else {
                    1
                };
                if i == 0 {
                    let line = Line::from_bytes(&self.buffer.as_slice()[0..0]);
                    lines.push(line);
                    last_cut = cut_len;
                } else {
                    let mut line = Line::from_bytes(&self.buffer.as_slice()[last_cut..i]);
                    if unterminated && last_cut == 0 {
                        line.flags.separate_receives = i > existing_buffer_len
                            && existing_buffer_len > 0;
                    }
                    lines.push(line);
                    last_cut = i + cut_len;
                }
            }
            i += 1;
        }
        let ghost (cuts, last) = split_state(
            b,
            existing_buffer_len as int,
            unterminated,
            windows(b),
        );
        assert(i == windows(b));
        if last_cut > 0 {
            let rest = self.buffer.split_off(last_cut);
            self.buffer = rest;
        }
        assert(self.buffer@ =~= b.skip(last_cut as int));
        lines
    }

    /// Forgets the buffered bytes and returns to the default prompt mode.
    pub fn clear(&mut self)
        ensures
            final(self).pending() == Seq::<u8>::empty(),
            final(self).mode() == TelnetMode::UnterminatedPrompt,
            final(self).fresh() == old(self).fresh(),
    {
        self.buffer.clear();
        self.telnet_mode = TelnetMode::default();
    }

    /// Whether nothing is buffered.
    pub fn is_empty(&self) -> (r: bool)
        ensures
            r == (self.pending().len() == 0),
    {
        self.buffer.len() == 0
    }

    /// Number of buffered bytes.
    pub fn len(&self) -> (r: usize)
        ensures
            r == self.pending().len(),
    {
        self.buffer.len()
    }
}

/// The bytes the cuts take, in order: each line followed by the line break
/// that ended it, the last one reaching `last`.
pub open spec fn rejoined(b: Seq<u8>, cuts: Seq<Cut>, last: int) -> Seq<u8>
    decreases cuts.len(),
{
    if cuts.len() == 0 {
        Seq::empty()
    } else {
        rejoined(b, cuts.drop_last(), cuts.last().0) + b.subrange(cuts.last().0, last)
    }
}

/// Cuts that tile start at or after the beginning and each ends before the
/// next begins.
proof fn lemma_tiles_ordered(b: Seq<u8>, cuts: Seq<Cut>, last: int)
    requires
        tiles(b, cuts, last),
    ensures
        cuts.len() > 0 ==> 0 <= cuts.last().0 < last,
        cuts.len() == 0 ==> last == 0,
        cuts.len() > 0 ==> tiles(b, cuts.drop_last(), cuts.last().0),
    decreases cuts.len(),
{
    if cuts.len() > 0 {
        let n = cuts.len() - 1;
        let front = cuts.drop_last();
        assert(cuts[n].0 <= cuts[n].1 && is_break_between(b, cuts[n].1, next_start(cuts, last, n)));
        assert forall|k: int|
            #![trigger front[k]]
            0 <= k < front.len() implies front[k].0 <= front[k].1 && is_break_between(
            b,
            front[k].1,
            next_start(front, cuts.last().0, k),
        ) by {
            assert(front[k] == cuts[k]);
            assert(next_start(front, cuts.last().0, k) == next_start(cuts, last, k));
        }
        assert(tiles(b, front, cuts.last().0));
        if n > 0 {
            lemma_tiles_ordered(b, front, cuts.last().0);
            assert(front.last() == cuts[n - 1]);
            assert(cuts[n - 1].0 <= cuts[n - 1].1 && is_break_between(
                b,
                cuts[n - 1].1,
                next_start(cuts, last, n - 1),
            ));
        }
    }
}

/// Cuts that tile `b[0..last]` give back exactly those bytes.
pub proof fn lemma_rejoined(b: Seq<u8>, cuts: Seq<Cut>, last: int)
    requires
        tiles(b, cuts, last),
        last <= b.len(),
    ensures
        rejoined(b, cuts, last) == b.take(last),
    decreases cuts.len(),
{
    lemma_tiles_ordered(b, cuts, last);
    if cuts.len() == 0 {
        assert(b.take(last) =~= Seq::<u8>::empty());
    } else {
        let m = cuts.last().0;
        lemma_rejoined(b, cuts.drop_last(), m);
        assert(b.take(m) + b.subrange(m, last) =~= b.take(last));
    }
}

/// No line cut so far holds a line feed, and none stands in the scanned part
/// of what follows the last cut.
pub proof fn lemma_split_no_line_feed(b: Seq<u8>, existing: int, unterminated: bool, n: int)
    requires
        0 <= n <= windows(b),
    ensures
        ({
            let (cuts, last) = split_state(b, existing, unterminated, n);
            &&& forall|k: int, j: int|
                #![trigger cuts[k], b[j]]
                0 <= k < cuts.len() && cuts[k].0 <= j < cuts[k].1 ==> b[j] != lf()
            &&& forall|j: int| #![trigger b[j]] last <= j < n ==> b[j] != lf()
        }),
    decreases n,
{
    if n > 0 {
        lemma_split_no_line_feed(b, existing, unterminated, n - 1);
        let (cuts, last) = split_state(b, existing, unterminated, n - 1);
        let (cuts2, last2) = split_state(b, existing, unterminated, n);
        assert forall|k: int, j: int|
            #![trigger cuts2[k], b[j]]
            0 <= k < cuts2.len() && cuts2[k].0 <= j < cuts2[k].1 implies b[j] != lf() by {
            if k < cuts.len() {
                assert(cuts2[k] == cuts[k]);
            }
        }
    }
}

/// What a receive makes of the buffered bytes followed by the new ones:
/// they split into lines, each followed by the line break that ended it,
/// and the rest, which stays buffered; every line returned is made from
/// its bytes, and nothing is lost or taken twice: the lines with their
/// breaks, then what stays buffered, give back exactly the bytes. No line
/// holds a line feed, and what stays buffered holds one at most as its last
/// byte.
pub proof fn lemma_receive_keeps_bytes(
    before: OutputBuffer,
    after: OutputBuffer,
    data: Seq<u8>,
    lines: Seq<Line>,
)
    requires
        received(before, after, data, lines),
    ensures
        ({
            let b = before.pending() + data;
            exists|cuts: Seq<Cut>, last: int|
                #![trigger tiles(b, cuts, last)]
                {
                    &&& tiles(b, cuts, last)
                    &&& 0 <= last <= b.len()
                    &&& after.pending() == b.skip(last)
                    &&& rejoined(b, cuts, last) + after.pending() == b
                    &&& after.fresh()
                    &&& lines.len() == cuts.len()
                    &&& forall|k: int|
                        0 <= k < cuts.len() ==> is_cut_line(#[trigger] lines[k], b, cuts[k])
                    &&& forall|k: int, j: int|
                        #![trigger cuts[k], b[j]]
                        0 <= k < cuts.len() && cuts[k].0 <= j < cuts[k].1 ==> b[j] != lf()
                    &&& forall|j: int|
                        #![trigger b[j]]
                        last <= j < b.len() - 1 ==> b[j] != lf()
                }
        }),
{
    let b = before.pending() + data;
    let n = windows(b);
    lemma_split_tiles(b, before.pending().len() as int, before.mode() == TelnetMode::UnterminatedPrompt, n);
    lemma_split_no_line_feed(
        b,
        before.pending().len() as int,
        before.mode() == TelnetMode::UnterminatedPrompt,
        n,
    );
    let (cuts, last) = split_state(
        b,
        before.pending().len() as int,
        before.mode() == TelnetMode::UnterminatedPrompt,
        n,
    );
    assert(tiles(b, cuts, last));
    lemma_rejoined(b, cuts, last);
    assert(b.take(last) + b.skip(last) =~= b);
}

} // verus!
