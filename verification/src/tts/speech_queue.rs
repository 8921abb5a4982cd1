//! The queue of messages for text-to-speech, with a reading position and a
//! separate scanning position.
use vstd::prelude::*;
use std::collections::VecDeque;
use crate::text::chars_of;

verus! {

/// ASCII letters and digits.
pub open spec fn is_ascii_alnum(c: char) -> bool {
    ('a' <= c && c <= 'z') || ('A' <= c && c <= 'Z') || ('0' <= c && c <= '9')
}

/// Whether the pattern `[A-Za-z0-9]+` matches somewhere in `s`.
pub open spec fn has_alnum(s: Seq<char>) -> bool {
    exists|i: int| 0 <= i < s.len() && is_ascii_alnum(#[trigger] s[i])
}

/// A message: worth speaking when it holds a letter or digit and is not the
/// user's own input.
pub open spec fn spec_speakable(m: SpeechMessage) -> bool {
    has_alnum(m.msg@) && !m.input
}

/// `a - b`, but never below zero.
pub open spec fn sat_sub(a: int, b: int) -> int {
    if a >= b { a - b } else { 0 }
}

#[derive(Debug)]
pub struct SpeechMessage {
    pub msg: String,
    pub input: bool,
}

impl Clone for SpeechMessage {
    fn clone(&self) -> (r: Self)
        ensures
            r == *self,
    {
        SpeechMessage { msg: self.msg.clone(), input: self.input }
    }
}

impl SpeechMessage {
    /// A message that is not input.
    pub fn from_string(msg: String) -> (r: SpeechMessage)
        ensures
            r == (SpeechMessage { msg, input: false }),
    {
        SpeechMessage { msg, input: false }
    }

    /// Whether the message is worth speaking.
    pub fn speakable(&self) -> (r: bool)
        ensures
            r == spec_speakable(*self),
    {
        if self.input {
            return false;
        }
        let cs = chars_of(self.msg.as_str());
        let mut i: usize = 0;
        while i < cs.len()
            invariant
                i <= cs@.len(),
                !self.input,
                cs@ == self.msg@,
                forall|j: int| 0 <= j < i ==> !is_ascii_alnum(#[trigger] cs@[j]),
            decreases cs@.len() - i,
        {
            let c = cs[i];
            if ('a' <= c && c <= 'z') || ('A' <= c && c <= 'Z') || ('0' <= c && c <= '9') {
                assert(is_ascii_alnum(self.msg@[i as int]));
                return true;
            }
            i += 1;
        }
        assert(!has_alnum(self.msg@)) by {
            assert forall|j: int| 0 <= j < self.msg@.len() implies !is_ascii_alnum(
                #[trigger] self.msg@[j],
            ) by {
                assert(cs@[j] == self.msg@[j]);
            }
        }
        false
    }

    /// Whether the message is empty.
    pub fn is_empty(&self) -> (r: bool)
        ensures
            r == (self.msg@.len() == 0),
    {
        self.msg.as_str().is_empty()
    }
}

/// The state `push` leaves behind, and what it returns, as a function of
/// the state before it.
pub open spec fn pushed_queue(q: Seq<SpeechMessage>, msg: SpeechMessage, capacity: int) -> Seq<
    SpeechMessage,
> {
    q.push(msg).skip(sat_sub(q.len() + 1int, capacity))
}

/// `after` is `before` with the user's input `msg` queued: the reader moves
/// past the end (an input is never spoken), the scanning position moves as
/// for any other message.
pub open spec fn input_pushed(before: SpeechQueue, after: SpeechQueue, msg: String) -> bool {
    &&& after.messages() == pushed_queue(
        before.messages(),
        SpeechMessage { msg, input: true },
        before.spec_capacity(),
    )
    &&& after.spec_capacity() == before.spec_capacity()
    &&& after.reading() == after.messages().len()
    &&& after.scanning() == if before.scanning() < before.messages().len() {
        sat_sub(before.scanning(), sat_sub(before.messages().len() + 1int, before.spec_capacity()))
    } else {
        before.scanning() + 1
    }
}

/// `after` is `before` with `msg` queued, and `r` is what is to be spoken of it.
pub open spec fn pushed(before: SpeechQueue, after: SpeechQueue, msg: String, force: bool, r: Option<String>) -> bool {
    &&& after.spec_capacity() == before.spec_capacity()
    &&& after.messages() == pushed_queue(
        before.messages(),
        SpeechMessage { msg, input: false },
        before.spec_capacity(),
    )
    &&& ({
        let m = SpeechMessage { msg, input: false };
        let n = after.messages().len();
        let dropped = sat_sub(before.messages().len() + 1int, before.spec_capacity());
        let caught_up = before.reading() == before.messages().len();
        let was_scanning = before.scanning() < before.messages().len();
        &&& if force || caught_up {
            if spec_speakable(m) {
                after.reading() == n - 1 && r == Some(msg)
            } else {
                after.reading() == n && r is None
            }
        } else {
            after.reading() == sat_sub(before.reading(), dropped) && r is None
        }
        &&& after.scanning() == if was_scanning {
            sat_sub(before.scanning(), dropped)
        } else {
            before.scanning() + 1
        }
    })
}

/// `after` is `before` with the scanning position moved back by `step`, and `r`
/// the message there.
pub open spec fn scanned_back(before: SpeechQueue, after: SpeechQueue, step: usize, r: Option<String>) -> bool {
    &&& after.scanning() == sat_sub(before.scanning(), step as int)
    &&& r == Some(after.messages()[after.scanning()].msg)
    &&& after.messages() == before.messages()
    &&& after.reading() == before.reading()
    &&& after.spec_capacity() == before.spec_capacity()
}

/// `after` is `before` with the scanning position moved forward by `step`, and
/// `r` the message there.
pub open spec fn scanned_forward(before: SpeechQueue, after: SpeechQueue, step: usize, r: Option<String>) -> bool {
    &&& after.scanning() == crate::ui::layout::min_int(
        before.scanning() + step,
        before.messages().len() as int,
    )
    &&& r == if after.scanning() < after.messages().len() {
        Some(after.messages()[after.scanning()].msg)
    } else {
        None
    }
    &&& after.messages() == before.messages()
    &&& after.reading() == before.reading()
    &&& after.spec_capacity() == before.spec_capacity()
}

/// `after` is `before` with the reading position moved on by `step` and to the
/// next speakable message, `r`.
pub open spec fn moved_next(before: SpeechQueue, after: SpeechQueue, step: usize, r: Option<String>) -> bool {
    &&& ({
        let q = before.messages();
        let from = crate::ui::layout::min_int(before.reading() + step, q.len() as int);
        let at = after.reading();
        &&& from <= at <= q.len()
        &&& forall|j: int| from <= j < at ==> !spec_speakable(#[trigger] q[j])
        &&& at < q.len() ==> spec_speakable(q[at])
        &&& r == if at < q.len() {
            Some(q[at].msg)
        } else {
            None
        }
    })
    &&& after.messages() == before.messages()
    &&& after.scanning() == before.scanning()
    &&& after.spec_capacity() == before.spec_capacity()
}

/// `after` is `before`, and `r` the message at the reading position.
pub open spec fn read_current(before: SpeechQueue, after: SpeechQueue, r: Option<String>) -> bool {
    &&& r == if before.reading() < before.messages().len() {
        Some(before.messages()[before.reading()].msg)
    } else {
        None
    }
    &&& after.messages() == before.messages()
    &&& after.reading() == before.reading()
    &&& after.scanning() == before.scanning()
    &&& after.spec_capacity() == before.spec_capacity()
}

/// `after` is `before` with the reading position moved back by `step` and past
/// empty messages, and `r` the message there.
pub open spec fn moved_prev(before: SpeechQueue, after: SpeechQueue, step: usize, r: Option<String>) -> bool {
    &&& ({
        let q = before.messages();
        let from = sat_sub(before.reading(), step as int);
        let at = after.reading();
        &&& 0 <= at <= from
        &&& forall|j: int| at < j <= from ==> (#[trigger] q[j]).msg@.len() == 0
        &&& at > 0 ==> q[at].msg@.len() > 0
        &&& r == if q[at].msg@.len() == 0 {
            None
        } else {
            Some(q[at].msg)
        }
    })
    &&& after.messages() == before.messages()
    &&& after.scanning() == before.scanning()
    &&& after.spec_capacity() == before.spec_capacity()
}

/// `after` is `before` with both positions at the end.
pub open spec fn flushed(before: SpeechQueue, after: SpeechQueue) -> bool {
    &&& after.reading() == before.messages().len()
    &&& after.scanning() == before.messages().len()
    &&& after.messages() == before.messages()
    &&& after.spec_capacity() == before.spec_capacity()
}

pub struct SpeechQueue {
    capacity: usize,
    index: usize,
    scan_index: usize,
    queue: VecDeque<SpeechMessage>,
}

impl SpeechQueue {
    /// The messages, oldest first.
    pub closed spec fn messages(&self) -> Seq<SpeechMessage> {
        self.queue@
    }

    /// The reading position.
    pub closed spec fn reading(&self) -> int {
        self.index as int
    }

    /// The scanning position.
    pub closed spec fn scanning(&self) -> int {
        self.scan_index as int
    }

    /// The most messages kept.
    pub closed spec fn spec_capacity(&self) -> int {
        self.capacity as int
    }

    /// The reading position stays within the queue, which stays within its
    /// capacity. (The scanning position may run past the end.)
    pub closed spec fn wf(&self) -> bool {
        &&& self.index <= self.queue@.len()
        &&& self.queue@.len() <= self.capacity
        &&& self.capacity <= i32::MAX
    }

    /// The reading position as a plain number.
    pub fn index(&self) -> (r: usize)
        ensures
            r == self.reading(),
    {
        self.index
    }

    /// The scanning position as a plain number.
    pub fn scan_index(&self) -> (r: usize)
        ensures
            r == self.scanning(),
    {
        self.scan_index
    }

    /// How many messages the queue keeps at most.
    pub fn capacity(&self) -> (r: usize)
        ensures
            r == self.spec_capacity(),
    {
        self.capacity
    }

    /// Number of queued messages.
    pub fn len(&self) -> (r: usize)
        ensures
            r == self.messages().len(),
    {
        self.queue.len()
    }

    /// An empty queue keeping at most `capacity` messages. Positions are kept
    /// in `i32` arithmetic, so the capacity must fit there.
    pub fn new(capacity: usize) -> (r: SpeechQueue)
        requires
            capacity <= i32::MAX,
        ensures
            r.wf(),
            r.messages() == Seq::<SpeechMessage>::empty(),
            r.reading() == 0,
            r.scanning() == 0,
            r.spec_capacity() == capacity,
    {
        SpeechQueue { capacity, index: 0, scan_index: 0, queue: VecDeque::new() }
    }

    /// Queues the user's input; it is never spoken when read back.
    pub fn push_input(&mut self, msg: String)
        requires
            old(self).wf(),
            old(self).scanning() < usize::MAX,
        ensures
            final(self).wf(),
            input_pushed(*old(self), *final(self), msg),
    {
        let mut m = SpeechMessage::from_string(msg);
        m.input = true;
        self.push_back(m, true);
    }

    /// Queues a message. It is returned for speaking when `force` is set or
    /// when the reader had caught up with the queue, and it is speakable.
    pub fn push(&mut self, msg: String, force: bool) -> (r: Option<String>)
        requires
            old(self).wf(),
            old(self).spec_capacity() > 0 || !has_alnum(msg@),
            old(self).scanning() < usize::MAX,
        ensures
            final(self).wf(),
            pushed(*old(self), *final(self), msg, force, r),
    {
        let m = SpeechMessage::from_string(msg);
        self.push_back(m, force)
    }

    fn push_back(&mut self, msg: SpeechMessage, force: bool) -> (r: Option<String>)
        requires
            old(self).wf(),
            old(self).spec_capacity() > 0 || !spec_speakable(msg),
            old(self).scanning() < usize::MAX,
        ensures
            final(self).wf(),
            final(self).spec_capacity() == old(self).spec_capacity(),
            final(self).messages() == pushed_queue(
                old(self).messages(),
                msg,
                old(self).spec_capacity(),
            ),
            ({
                let n = final(self).messages().len();
                let dropped = sat_sub(old(self).messages().len() + 1int, old(self).spec_capacity());
                let caught_up = old(self).reading() == old(self).messages().len();
                let was_scanning = old(self).scanning() < old(self).messages().len();
                &&& if force || caught_up {
                    if spec_speakable(msg) {
                        final(self).reading() == n - 1 && r == Some(msg.msg)
                    } else {
                        final(self).reading() == n && r is None
                    }
                } else {
                    final(self).reading() == sat_sub(old(self).reading(), dropped) && r is None
                }
                &&& final(self).scanning() == if was_scanning {
                    sat_sub(old(self).scanning(), dropped)
                } else {
                    old(self).scanning() + 1
                }
            }),
    {
        let ghost q0 = self.queue@;
        let ghost i0 = self.index as int;
        let ghost s0 = self.scan_index as int;
        self.queue.push_back(msg.clone());
        let speak_next = self.index == self.queue.len() - 1;
        let scanning = self.scan_index < self.queue.len() - 1;
        if !scanning {
            self.scan_index = self.scan_index + 1;
        }
        let ghost mut dropped: int = 0;
        while self.queue.len() > self.capacity
            invariant
                self.queue@ == q0.push(msg).skip(dropped),
                0 <= dropped <= sat_sub(q0.len() + 1int, self.capacity as int),
                self.index as int == sat_sub(i0, dropped),
                self.scan_index as int == if scanning {
                    sat_sub(s0, dropped)
                } else {
                    s0 + 1
                },
                i0 <= q0.len(),
                q0.len() <= self.capacity,
                self.capacity == old(self).capacity,
                speak_next == (i0 == q0.len()),
                scanning == (s0 < q0.len()),
            decreases self.queue@.len(),
        {
            self.queue.pop_front();
            proof {
                assert(q0.push(msg).skip(dropped).subrange(1, q0.len() + 1 - dropped) =~= q0.push(
                    msg,
                ).skip(dropped + 1));
                dropped = dropped + 1;
            }
            self.index = if self.index > 0 {
                self.index - 1
            } else {
                0
            };
            if scanning {
                self.scan_index = if self.scan_index > 0 {
                    self.scan_index - 1
                } else {
                    0
                };
            }
        }
        assert(dropped == sat_sub(q0.len() + 1int, self.capacity as int));
        if force || speak_next {
            if !msg.speakable() {
                self.index = self.queue.len();
                None
            } else {
                self.index = self.queue.len() - 1;
                Some(msg.msg)
            }
        } else {
            None
        }
    }

    /// Moves the scanning position back by `step` (not below the start) and
    /// returns the message there.
    pub fn scan_back(&mut self, step: usize) -> (r: Option<String>)
        requires
            old(self).wf(),
            step <= i32::MAX,
            old(self).scanning() <= i32::MAX,
            sat_sub(old(self).scanning(), step as int) < old(self).messages().len(),
        ensures
            final(self).wf(),
            scanned_back(*old(self), *final(self), step, r),
    {
        self.scan_index = if self.scan_index > step {
            self.scan_index - step
        } else {
            0
        };
        Some(self.queue[self.scan_index].msg.clone())
    }

    /// Moves the scanning position forward by `step` (not past the end) and
    /// returns the message there, if any.
    pub fn scan_forward(&mut self, step: usize) -> (r: Option<String>)
        requires
            old(self).wf(),
            old(self).scanning() + step <= usize::MAX,
        ensures
            final(self).wf(),
            scanned_forward(*old(self), *final(self), step, r),
    {
        let target = self.scan_index + step;
        self.scan_index = if target < self.queue.len() {
            target
        } else {
            self.queue.len()
        };
        if self.scan_index < self.queue.len() {
            Some(self.queue[self.scan_index].msg.clone())
        } else {
            None
        }
    }

    /// Moves the reading position forward by `step`, then on to the next
    /// speakable message, and returns it, if any.
    pub fn next(&mut self, step: usize) -> (r: Option<String>)
        requires
            old(self).wf(),
            old(self).reading() + step <= usize::MAX,
        ensures
            final(self).wf(),
            moved_next(*old(self), *final(self), step, r),
    {
        let target = self.index + step;
        let mut i = if target < self.queue.len() {
            target
        } else {
            self.queue.len()
        };
        let ghost from = i as int;
        while i < self.queue.len() && !self.queue[i].speakable()
            invariant
                from <= i <= self.queue@.len(),
                forall|j: int| from <= j < i ==> !spec_speakable(#[trigger] self.queue@[j]),
            decreases self.queue@.len() - i,
        {
            i += 1;
        }
        self.index = i;
        if self.index < self.queue.len() {
            Some(self.queue[self.index].msg.clone())
        } else {
            None
        }
    }

    /// The message at the reading position, if any.
    pub fn current(&mut self) -> (r: Option<String>)
        requires
            old(self).wf(),
        ensures
            final(self).wf(),
            read_current(*old(self), *final(self), r),
    {
        if self.index < self.queue.len() {
            Some(self.queue[self.index].msg.clone())
        } else {
            None
        }
    }

    /// Moves the reading position back by `step` (not below the start), then
    /// back past empty messages, and returns the message there unless it is
    /// empty.
    pub fn prev(&mut self, step: usize) -> (r: Option<String>)
        requires
            old(self).wf(),
            step <= i32::MAX,
            sat_sub(old(self).reading(), step as int) < old(self).messages().len(),
        ensures
            final(self).wf(),
            moved_prev(*old(self), *final(self), step, r),
    {
        let mut i = if self.index > step {
            self.index - step
        } else {
            0
        };
        let ghost from = i as int;
        while i > 0 && self.queue[i].is_empty()
            invariant
                0 <= i <= from < self.queue@.len(),
                forall|j: int| i < j <= from ==> (#[trigger] self.queue@[j]).msg@.len() == 0,
            decreases i,
        {
            i -= 1;
        }
        self.index = i;
        if self.queue[self.index].is_empty() {
            None
        } else {
            Some(self.queue[self.index].msg.clone())
        }
    }

    /// Skips everything queued: both positions move to the end.
    pub fn flush(&mut self)
        requires
            old(self).wf(),
        ensures
            final(self).wf(),
            flushed(*old(self), *final(self)),
    {
        self.index = self.queue.len();
        self.scan_index = self.queue.len();
    }
}

/// After a flush there is nothing left to read: reading on and reading
/// the current message both give nothing.
pub proof fn lemma_flush_leaves_nothing_to_read(
    q: SpeechQueue,
    flushed_q: SpeechQueue,
    after: SpeechQueue,
    step: usize,
    r: Option<String>,
)
    requires
        flushed(q, flushed_q),
        moved_next(flushed_q, after, step, r) || read_current(flushed_q, after, r),
    ensures
        r is None,
{
}

/// A queue keeps at most as many messages as its capacity, whatever is
/// pushed: the oldest go first.
pub proof fn lemma_push_keeps_capacity(
    before: SpeechQueue,
    after: SpeechQueue,
    msg: String,
    force: bool,
    r: Option<String>,
)
    requires
        before.messages().len() <= before.spec_capacity(),
        pushed(before, after, msg, force, r) || input_pushed(before, after, msg),
    ensures
        after.messages().len() <= after.spec_capacity(),
        after.messages().len() > 0 ==> after.messages().last().msg == msg,
{
}

/// Whether a message is worth speaking does not depend on where its letters
/// and digits stand: a message (not the user's input) holding an ASCII
/// letter or digit at any position is spoken, and the text of two pieces
/// put together holds one exactly when one of the pieces does.
pub proof fn lemma_speakable_anywhere(m: SpeechMessage, i: int, s: Seq<char>, t: Seq<char>)
    ensures
        !m.input && 0 <= i < m.msg@.len() && (('a' <= m.msg@[i] && m.msg@[i] <= 'z') || ('A'
            <= m.msg@[i] && m.msg@[i] <= 'Z') || ('0' <= m.msg@[i] && m.msg@[i] <= '9'))
            ==> spec_speakable(m),
        m.input ==> !spec_speakable(m),
        has_alnum(s + t) == (has_alnum(s) || has_alnum(t)),
        !has_alnum(Seq::<char>::empty()),
{
    if 0 <= i < m.msg@.len() {
        assert(is_ascii_alnum(m.msg@[i]) ==> has_alnum(m.msg@));
    }
    let u = s + t;
    if has_alnum(u) {
        let j = choose|j: int| 0 <= j < u.len() && is_ascii_alnum(#[trigger] u[j]);
        if j < s.len() {
            assert(s[j] == u[j]);
        } else {
            assert(t[j - s.len()] == u[j]);
        }
    }
    if has_alnum(s) {
        let j = choose|j: int| 0 <= j < s.len() && is_ascii_alnum(#[trigger] s[j]);
        assert(u[j] == s[j]);
    }
    if has_alnum(t) {
        let j = choose|j: int| 0 <= j < t.len() && is_ascii_alnum(#[trigger] t[j]);
        assert(u[s.len() + j] == t[j]);
    }
}

} // verus!
