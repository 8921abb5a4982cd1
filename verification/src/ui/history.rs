//! Scrollback history: every line received, and the view of it that the tag
//! mask leaves visible.
use vstd::prelude::*;
use crate::model::{Line, Pattern, TagMask, clean_text, regex_matches};
use crate::text::{chars_of, is_blank, lines_of, spec_is_blank, spec_lines};

verus! {

/// Lines of `inner` that `mask` does not hide, in order.
pub open spec fn unmasked(inner: Seq<Line>, mask: TagMask) -> Seq<Line> {
    inner.filter(shown_by(mask))
}

/// The lines `mask` leaves visible.
pub open spec fn shown_by(mask: TagMask) -> spec_fn(Line) -> bool {
    |l: Line| !l.masked_by(mask)
}

/// Whether `added` are the plain lines that appending `text` stores.
pub open spec fn is_append_of(added: Seq<Line>, text: Seq<char>) -> bool {
    &&& added.len() == appended_texts(text).len()
    &&& forall|i: int|
        0 <= i < added.len() ==> is_plain_line(#[trigger] added[i], appended_texts(text)[i])
}

/// The plain lines `History::append` stores for `text`: one per line of a
/// non-blank text, a single empty line for a blank one.
pub open spec fn appended_texts(text: Seq<char>) -> Seq<Seq<char>> {
    if spec_is_blank(text) {
        seq![Seq::<char>::empty()]
    } else {
        spec_lines(text)
    }
}

/// Whether `l` is a freshly made line holding `text`.
pub open spec fn is_plain_line(l: Line, text: Seq<char>) -> bool {
    &&& l.text() == text
    &&& !l.flags.prompt && !l.flags.separate_receives && !l.flags.screen_clear && !l.flags.gag
    &&& l.flags.source is None
    &&& l.tag.key@ == Seq::<char>::empty()
}

/// Whether the line `l` matches `pattern` once cleaned.
pub open spec fn line_matches(pattern: Seq<char>, l: Line) -> bool {
    regex_matches(pattern, clean_text(l.text()))
}

/// What is kept after appending: once the store reaches `capacity`, the
/// oldest `drain_length` lines are dropped.
pub open spec fn drained(lines: Seq<Line>, capacity: int, drain_length: int) -> Seq<Line> {
    if lines.len() >= capacity {
        lines.skip(drain_length)
    } else {
        lines
    }
}

pub struct History {
    inner: Vec<Line>,
    visible: Vec<Line>,
    tag_mask: TagMask,
    /// Once this many lines are stored, the oldest are dropped.
    pub capacity: usize,
    /// How many lines are dropped at a time.
    pub drain_length: usize,
}

impl History {
    /// Every stored line, masked or not.
    pub closed spec fn all_lines(&self) -> Seq<Line> {
        self.inner@
    }

    /// The lines the tag mask leaves visible.
    pub closed spec fn visible_lines(&self) -> Seq<Line> {
        self.visible@
    }

    /// Lines kept before draining.
    pub closed spec fn spec_capacity(&self) -> int {
        self.capacity as int
    }

    /// Lines dropped per drain.
    pub closed spec fn spec_drain_length(&self) -> int {
        self.drain_length as int
    }

    /// The tag mask in force.
    pub closed spec fn mask(&self) -> TagMask {
        self.tag_mask
    }

    /// The visible lines are exactly the stored lines the mask leaves.
    pub closed spec fn wf(&self) -> bool {
        self.visible@ == unmasked(self.inner@, self.tag_mask)
    }

    /// An empty history keeping about 32k lines, dropping 1024 at a time.
    pub fn new() -> (r: History)
        ensures
            r.wf(),
            r.all_lines() == Seq::<Line>::empty(),
            r.visible_lines() == Seq::<Line>::empty(),
            r.mask().key is None,
            r.spec_capacity() == 32 * 1024,
            r.spec_drain_length() == 1024,
    {
        Self::for_tab(1024)
    }

    /// An empty history dropping `drain_length` lines at a time, keeping
    /// `32 * drain_length`.
    pub fn for_tab(drain_length: usize) -> (r: History)
        requires
            32 * drain_length <= usize::MAX,
        ensures
            r.wf(),
            r.all_lines() == Seq::<Line>::empty(),
            r.visible_lines() == Seq::<Line>::empty(),
            r.mask().key is None,
            r.spec_capacity() == 32 * drain_length,
            r.spec_drain_length() == drain_length,
    {
        let r = History {
            inner: Vec::new(),
            visible: Vec::new(),
            tag_mask: TagMask::default(),
            capacity: 32 * drain_length,
            drain_length,
        };
        proof {
            reveal(Seq::filter);
        }
        r
    }

    fn rebuild_visible(&mut self)
        ensures
            final(self).wf(),
            final(self).inner == old(self).inner,
            final(self).tag_mask == old(self).tag_mask,
            final(self).spec_capacity() == old(self).spec_capacity(),
            final(self).spec_drain_length() == old(self).spec_drain_length(),
    {
        let mut visible: Vec<Line> = Vec::new();
        let mut i: usize = 0;
        proof {
            reveal(Seq::filter);
        }
        while i < self.inner.len()
            invariant
                i <= self.inner@.len(),
                visible@ == unmasked(self.inner@.take(i as int), self.tag_mask),
            decreases self.inner@.len() - i,
        {
            proof {
                assert(self.inner@.take(i + 1) =~= self.inner@.take(i as int).push(
                    self.inner@[i as int],
                ));
                self.inner@.take(i as int).lemma_filter_push(
                    self.inner@[i as int],
                    shown_by(self.tag_mask),
                );
            }
            if !self.inner[i].is_masked(&self.tag_mask) {
                visible.push(self.inner[i].clone());
            }
            i += 1;
        }
        assert(self.inner@.take(self.inner@.len() as int) =~= self.inner@);
        self.visible = visible;
    }

    /// Installs a new tag mask; the visible lines are recomputed from every
    /// stored line, so earlier lines are hidden or shown again.
    pub fn set_tag_mask(&mut self, mask: TagMask)
        requires
            old(self).wf(),
        ensures
            final(self).wf(),
            final(self).visible_lines() == unmasked(final(self).all_lines(), final(self).mask()),
            final(self).mask() == mask,
            final(self).all_lines() == old(self).all_lines(),
            final(self).visible_lines() == unmasked(old(self).all_lines(), mask),
            final(self).spec_capacity() == old(self).spec_capacity(),
            final(self).spec_drain_length() == old(self).spec_drain_length(),
    {
        self.tag_mask = mask;
        self.rebuild_visible();
    }

    /// Drops the oldest `drain_length` lines once `capacity` is reached.
    pub fn drain(&mut self)
        requires
            old(self).wf(),
            old(self).spec_drain_length() <= old(self).spec_capacity(),
        ensures
            final(self).wf(),
            final(self).visible_lines() == unmasked(final(self).all_lines(), final(self).mask()),
            final(self).all_lines() == drained(
                old(self).all_lines(),
                old(self).spec_capacity(),
                old(self).spec_drain_length(),
            ),
            final(self).mask() == old(self).mask(),
            final(self).spec_capacity() == old(self).spec_capacity(),
            final(self).spec_drain_length() == old(self).spec_drain_length(),
    {
        if self.inner.len() >= self.capacity {
            let kept = self.inner.split_off(self.drain_length);
            self.inner = kept;
            self.rebuild_visible();
        }
    }

    fn push_line(&mut self, line: Line)
        requires
            old(self).wf(),
        ensures
            final(self).wf(),
            final(self).all_lines() == old(self).all_lines().push(line),
            final(self).mask() == old(self).mask(),
            final(self).spec_capacity() == old(self).spec_capacity(),
            final(self).spec_drain_length() == old(self).spec_drain_length(),
    {
        proof {
            self.inner@.lemma_filter_push(line, shown_by(self.tag_mask));
        }
        if !line.is_masked(&self.tag_mask) {
            self.visible.push(line.clone());
        }
        self.inner.push(line);
    }

    /// Appends `line` as plain lines (see `append`).
    pub fn append_str(&mut self, line: &str)
        requires
            old(self).wf(),
            old(self).spec_drain_length() <= old(self).spec_capacity(),
        ensures
            final(self).wf(),
            final(self).visible_lines() == unmasked(final(self).all_lines(), final(self).mask()),
            exists|added: Seq<Line>|
                #[trigger] is_append_of(added, line@) && final(self).all_lines() == drained(
                    old(self).all_lines() + added,
                    old(self).spec_capacity(),
                    old(self).spec_drain_length(),
                ),
            final(self).mask() == old(self).mask(),
            final(self).spec_capacity() == old(self).spec_capacity(),
            final(self).spec_drain_length() == old(self).spec_drain_length(),
    {
        self.append(line);
    }

    /// Appends a text: each of its lines becomes a plain line, a blank text
    /// becomes one empty line; then the store is drained if it is full.
    pub fn append(&mut self, line: &str)
        requires
            old(self).wf(),
            old(self).spec_drain_length() <= old(self).spec_capacity(),
        ensures
            final(self).wf(),
            final(self).visible_lines() == unmasked(final(self).all_lines(), final(self).mask()),
            exists|added: Seq<Line>|
                #[trigger] is_append_of(added, line@) && final(self).all_lines() == drained(
                    old(self).all_lines() + added,
                    old(self).spec_capacity(),
                    old(self).spec_drain_length(),
                ),
            final(self).mask() == old(self).mask(),
            final(self).spec_capacity() == old(self).spec_capacity(),
            final(self).spec_drain_length() == old(self).spec_drain_length(),
    {
        let cs = chars_of(line);
        let ghost start = self.inner@;
        let ghost mut added: Seq<Line> = Seq::empty();
        if !is_blank(cs.as_slice()) {
            let segments = lines_of(cs.as_slice());
            let mut k: usize = 0;
            while k < segments.len()
                invariant
                    self.wf(),
                    k <= segments@.len(),
                    segments@.len() == spec_lines(cs@).len(),
                    forall|i: int|
                        0 <= i < segments@.len() ==> #[trigger] segments@[i]@ == spec_lines(
                            cs@,
                        )[i],
                    !spec_is_blank(line@),
                    cs@ == line@,
                    added.len() == k,
                    forall|i: int|
                        0 <= i < k ==> is_plain_line(#[trigger] added[i], appended_texts(line@)[i]),
                    self.inner@ == start + added,
                    self.tag_mask == old(self).tag_mask,
                    self.capacity == old(self).spec_capacity(),
                    self.drain_length == old(self).spec_drain_length(),
                decreases segments@.len() - k,
            {
                let l = Line::from_chars(segments[k].as_slice());
                proof {
                    added = added.push(l);
                }
                self.push_line(l);
                k += 1;
            }
        } else {
            let l = Line::from_string(String::new());
            proof {
                added = added.push(l);
            }
            self.push_line(l);
        }
        assert(self.inner@ == old(self).inner@ + added);
        assert(is_append_of(added, line@));
        self.drain();
    }

    /// Appends `line` as it is, then drains the store if it is full.
    pub fn append_line(&mut self, line: Line)
        requires
            old(self).wf(),
            old(self).spec_drain_length() <= old(self).spec_capacity(),
        ensures
            final(self).wf(),
            final(self).visible_lines() == unmasked(final(self).all_lines(), final(self).mask()),
            final(self).all_lines() == drained(
                old(self).all_lines().push(line),
                old(self).spec_capacity(),
                old(self).spec_drain_length(),
            ),
            final(self).mask() == old(self).mask(),
            final(self).spec_capacity() == old(self).spec_capacity(),
            final(self).spec_drain_length() == old(self).spec_drain_length(),
    {
        self.push_line(line);
        self.drain();
    }

    /// Removes and returns the last stored line when `line` starts with its
    /// text (a prompt that was shown again with more text after it).
    pub fn remove_last_if_prefix(&mut self, line: &str) -> (r: Option<Line>)
        requires
            old(self).wf(),
        ensures
            final(self).wf(),
            final(self).visible_lines() == unmasked(final(self).all_lines(), final(self).mask()),
            final(self).mask() == old(self).mask(),
            final(self).spec_capacity() == old(self).spec_capacity(),
            final(self).spec_drain_length() == old(self).spec_drain_length(),
            ({
                let all = old(self).all_lines();
                if all.len() > 0 && all.last().text().len() <= line@.len() && line@.subrange(
                    0,
                    all.last().text().len() as int,
                ) == all.last().text() {
                    &&& r == Some(all.last())
                    &&& final(self).all_lines() == all.drop_last()
                } else {
                    &&& r is None
                    &&& final(self).all_lines() == all
                }
            }),
    {
        let n = self.inner.len();
        if n == 0 {
            return None;
        }
        let text = chars_of(line);
        let prefix = chars_of(self.inner[n - 1].line());
        let mut is_prefix = prefix.len() <= text.len();
        let mut i: usize = 0;
        while is_prefix && i < prefix.len()
            invariant
                prefix.len() <= text.len() || !is_prefix,
                i <= prefix.len(),
                is_prefix ==> forall|j: int| 0 <= j < i ==> prefix@[j] == text@[j],
                !is_prefix ==> !(prefix@.len() <= text@.len() && text@.subrange(
                    0,
                    prefix@.len() as int,
                ) == prefix@),
            decreases prefix.len() - i,
        {
            if prefix[i] != text[i] {
                is_prefix = false;
                assert(text@.subrange(0, prefix@.len() as int)[i as int] != prefix@[i as int]);
            }
            i += 1;
        }
        if !is_prefix {
            return None;
        }
        assert(text@.subrange(0, prefix@.len() as int) =~= prefix@);
        proof {
            let all = self.inner@;
            assert(all =~= all.drop_last().push(all.last()));
            all.drop_last().lemma_filter_push(all.last(), shown_by(self.tag_mask));
        }
        let ghost all = self.inner@;
        let l = self.inner.pop().unwrap();
        assert(l == all.last());
        assert(self.inner@ == all.drop_last());
        if !l.is_masked(&self.tag_mask) {
            assert(self.visible@ == unmasked(all.drop_last(), self.tag_mask).push(l));
            self.visible.pop();
            assert(self.visible@ =~= unmasked(all.drop_last(), self.tag_mask));
        } else {
            assert(self.visible@ == unmasked(all.drop_last(), self.tag_mask));
        }
        Some(l)
    }

    /// The visible line at `index`.
    pub fn get(&self, index: usize) -> (r: &Line)
        requires
            index < self.visible_lines().len(),
        ensures
            *r == self.visible_lines()[index as int],
    {
        &self.visible[index]
    }

    /// The visible lines, in order.
    pub fn lines(&self) -> (r: &[Line])
        ensures
            r@ == self.visible_lines(),
    {
        self.visible.as_slice()
    }

    /// The stored line at `index`, masked or not.
    pub fn stored(&self, index: usize) -> (r: &Line)
        requires
            index < self.all_lines().len(),
        ensures
            *r == self.all_lines()[index as int],
    {
        &self.inner[index]
    }

    /// Number of stored lines, masked or not.
    pub fn stored_len(&self) -> (r: usize)
        ensures
            r == self.all_lines().len(),
    {
        self.inner.len()
    }

    /// How many lines are dropped at a time.
    pub fn drain_len(&self) -> (r: usize)
        ensures
            r == self.spec_drain_length(),
    {
        self.drain_length
    }

    /// How many lines are kept before draining.
    pub fn capacity_len(&self) -> (r: usize)
        ensures
            r == self.spec_capacity(),
    {
        self.capacity
    }

    /// Number of visible lines.
    pub fn len(&self) -> (r: usize)
        ensures
            r == self.visible_lines().len(),
    {
        self.visible.len()
    }

    /// Whether no line is visible.
    pub fn is_empty(&self) -> (r: bool)
        ensures
            r == (self.visible_lines().len() == 0),
    {
        self.visible.len() == 0
    }

    /// Forgets every line.
    pub fn clear(&mut self)
        ensures
            final(self).wf(),
            final(self).visible_lines() == unmasked(final(self).all_lines(), final(self).mask()),
            final(self).all_lines() == Seq::<Line>::empty(),
            final(self).visible_lines() == Seq::<Line>::empty(),
            final(self).mask() == old(self).mask(),
            final(self).spec_capacity() == old(self).spec_capacity(),
            final(self).spec_drain_length() == old(self).spec_drain_length(),
    {
        self.inner.clear();
        self.visible.clear();
        proof {
            reveal(Seq::filter);
        }
    }

    /// The first visible line at or after `pos` that matches `pattern`.
    pub fn find_forward(&self, pattern: &Pattern, pos: usize) -> (r: Option<usize>)
        requires
            pos <= self.visible_lines().len(),
        ensures
            match r {
                Some(i) => {
                    &&& pos <= i < self.visible_lines().len()
                    &&& line_matches(pattern@, self.visible_lines()[i as int])
                    &&& forall|j: int|
                        pos <= j < i ==> !line_matches(pattern@, #[trigger] self.visible_lines()[j])
                },
                None => forall|j: int|
                    pos <= j < self.visible_lines().len() ==> !line_matches(
                        pattern@,
                        #[trigger] self.visible_lines()[j],
                    ),
            },
    {
        let mut i = pos;
        while i < self.visible.len()
            invariant
                pos <= i <= self.visible@.len(),
                forall|j: int| pos <= j < i ==> !line_matches(pattern@, #[trigger] self.visible@[j]),
            decreases self.visible@.len() - i,
        {
            let clean = self.visible[i].clean_line();
            if pattern.is_match(clean.as_str()) {
                return Some(i);
            }
            i += 1;
        }
        None
    }

    /// The last visible line before `pos` that matches `pattern`.
    pub fn find_backward(&self, pattern: &Pattern, pos: usize) -> (r: Option<usize>)
        requires
            pos <= self.visible_lines().len(),
        ensures
            match r {
                Some(i) => {
                    &&& i < pos
                    &&& line_matches(pattern@, self.visible_lines()[i as int])
                    &&& forall|j: int|
                        i < j < pos ==> !line_matches(pattern@, #[trigger] self.visible_lines()[j])
                },
                None => forall|j: int|
                    0 <= j < pos ==> !line_matches(pattern@, #[trigger] self.visible_lines()[j]),
            },
    {
        let mut i = pos;
        while i > 0
            invariant
                i <= pos <= self.visible@.len(),
                forall|j: int| i <= j < pos ==> !line_matches(pattern@, #[trigger] self.visible@[j]),
            decreases i,
        {
            let clean = self.visible[i - 1].clean_line();
            if pattern.is_match(clean.as_str()) {
                return Some(i - 1);
            }
            i -= 1;
        }
        None
    }
}

/// Without a mask every stored line is visible, so lifting a mask shows
/// again every line it hid; and a mask never hides a line whose tag is
/// another one.
pub proof fn lemma_unmasked_lines(lines: Seq<Line>, mask: TagMask)
    ensures
        mask.key is None ==> unmasked(lines, mask) == lines,
        unmasked(lines, mask).len() <= lines.len(),
        forall|i: int|
            0 <= i < lines.len() && !(#[trigger] lines[i]).masked_by(mask) ==> unmasked(
                lines,
                mask,
            ).contains(lines[i]),
    decreases lines.len(),
{
    lines.lemma_filter_len(shown_by(mask));
    if mask.key is None {
        lemma_filter_all(lines, shown_by(mask));
    }
    assert forall|i: int|
        0 <= i < lines.len() && !(#[trigger] lines[i]).masked_by(mask) implies unmasked(
            lines,
            mask,
        ).contains(lines[i]) by {
        lines.lemma_filter_contains(shown_by(mask), i);
    }
}

/// Filtering by a predicate that every element meets keeps everything.
proof fn lemma_filter_all(s: Seq<Line>, p: spec_fn(Line) -> bool)
    requires
        forall|i: int| 0 <= i < s.len() ==> p(#[trigger] s[i]),
    ensures
        s.filter(p) == s,
    decreases s.len(),
{
    reveal(Seq::filter);
    if s.len() > 0 {
        lemma_filter_all(s.drop_last(), p);
        assert(p(s[s.len() - 1]));
        assert(s.drop_last().push(s.last()) =~= s);
    }
}

/// A well-formed history shows exactly its stored lines that its tag mask
/// leaves, in the order they were stored; that is all well-formedness asks.
pub proof fn lemma_history_shows_unmasked(h: History)
    ensures
        h.wf() <==> h.visible_lines() == unmasked(h.all_lines(), h.mask()),
{
}

} // verus!
