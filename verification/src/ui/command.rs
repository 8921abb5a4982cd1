//! The command line the user types into: a character buffer with a cursor,
//! word-wise movement and deletion, and tab completion from the words of
//! earlier commands and from script-supplied candidates.
use vstd::prelude::*;
use crate::model::Line;
use crate::text::{chars_of, push_decimal, push_str, spec_decimal, str_eq, string_of, texts};

verus! {

#[verifier::external_type_specification]
#[verifier::external_body]
pub struct ExCompletionTree(rs_complete::CompletionTree);

/// The words a completion tree holds.
pub uninterp spec fn tree_words(tree: rs_complete::CompletionTree) -> Set<Seq<char>>;

/// The characters a completion tree accepts in words besides letters and
/// digits.
pub uninterp spec fn tree_inclusions(tree: rs_complete::CompletionTree) -> Set<char>;

/// The shortest word, in bytes, a completion tree takes in.
pub uninterp spec fn tree_min_len(tree: rs_complete::CompletionTree) -> usize;

/// The words `CompletionTree::insert` takes from `line` for a tree that
/// accepts the characters `inclusions` besides letters and digits and
/// ignores words shorter than `min_len` bytes.
pub uninterp spec fn words_in(inclusions: Set<char>, min_len: usize, line: Seq<char>) -> Set<
    Seq<char>,
>;

/// The completions of `line` (its last word extended by each stored word
/// it begins, in sorted order, after the rest of `line`) offered by a tree
/// holding `words`; `None` when no stored word extends it.
pub uninterp spec fn completions_from(words: Set<Seq<char>>, line: Seq<char>) -> Option<
    Seq<Seq<char>>,
>;

/// Trusted: `CompletionTree::with_inclusions` gives a tree holding no word,
/// accepting the characters of `incl` besides letters and digits, with the
/// default shortest word of five bytes.
#[verifier::external_body]
fn tree_with_inclusions(incl: &[char]) -> (r: rs_complete::CompletionTree)
    ensures
        tree_words(r) == Set::<Seq<char>>::empty(),
        tree_inclusions(r) == incl@.to_set(),
        tree_min_len(r) == 5,
{
    rs_complete::CompletionTree::with_inclusions(incl)
}

/// Trusted: `CompletionTree::set_min_word_len` sets the shortest word taken
/// in by later inserts and changes nothing else.
#[verifier::external_body]
fn tree_set_min_word_len(tree: &mut rs_complete::CompletionTree, len: usize)
    ensures
        tree_words(*final(tree)) == tree_words(*old(tree)),
        tree_inclusions(*final(tree)) == tree_inclusions(*old(tree)),
        tree_min_len(*final(tree)) == len,
{
    tree.set_min_word_len(len)
}

/// Trusted: `CompletionTree::insert` adds the words of `line` it accepts
/// and keeps those it held and its settings.
#[verifier::external_body]
fn tree_insert(tree: &mut rs_complete::CompletionTree, line: &str)
    ensures
        tree_words(*final(tree)) == tree_words(*old(tree)).union(
            words_in(tree_inclusions(*old(tree)), tree_min_len(*old(tree)), line@),
        ),
        tree_inclusions(*final(tree)) == tree_inclusions(*old(tree)),
        tree_min_len(*final(tree)) == tree_min_len(*old(tree)),
{
    tree.insert(line)
}

/// Trusted: `CompletionTree::complete` answers from the words the tree
/// holds and the line alone; its source returns `None` for an empty line.
#[verifier::external_body]
fn tree_complete(tree: &rs_complete::CompletionTree, line: &str) -> (r: Option<Vec<String>>)
    ensures
        match r {
            Some(v) => completions_from(tree_words(*tree), line@) == Some(texts(v@)),
            None => completions_from(tree_words(*tree), line@) is None,
        },
        line@.len() == 0 ==> r is None,
{
    tree.complete(line)
}

/// The completion candidates being cycled through by repeated tab presses,
/// and the text typed before the first press.
pub struct CompletionStepData {
    options: Vec<String>,
    index: usize,
    base: String,
}

impl CompletionStepData {
    /// No candidates.
    pub fn new() -> (r: CompletionStepData)
        ensures
            r.wf(),
            r.spec_options().len() == 0,
            r.spec_index() == 0,
            r.spec_base().len() == 0,
    {
        CompletionStepData { options: Vec::new(), index: 0, base: String::new() }
    }

    /// The candidates, in the order they are offered.
    pub closed spec fn spec_options(&self) -> Seq<Seq<char>> {
        texts(self.options@)
    }

    /// Position of the next candidate; one past the last stands for the
    /// typed text.
    pub closed spec fn spec_index(&self) -> int {
        self.index as int
    }

    /// The typed text.
    pub closed spec fn spec_base(&self) -> Seq<char> {
        self.base@
    }

    /// The next position is a candidate or the typed text.
    pub closed spec fn wf(&self) -> bool {
        self.index <= self.options@.len()
    }

    /// The candidates.
    pub fn options(&self) -> (r: &Vec<String>)
        ensures
            texts(r@) == self.spec_options(),
    {
        &self.options
    }

    /// Whether there are no candidates.
    pub fn is_empty(&self) -> (r: bool)
        ensures
            r == (self.spec_options().len() == 0),
    {
        self.options.len() == 0
    }

    /// Starts offering `options` for the typed text `base`.
    pub fn set_options(&mut self, base: &str, options: Vec<String>)
        requires
            old(self).wf(),
            old(self).spec_options().len() == 0,
        ensures
            final(self).wf(),
            final(self).spec_options() == texts(options@),
            final(self).spec_base() == base@,
            final(self).spec_index() == old(self).spec_index(),
    {
        self.options = options;
        self.base = base.to_owned();
    }

    /// Drops the candidates and starts over.
    pub fn clear(&mut self)
        ensures
            final(self).wf(),
            final(self).spec_options().len() == 0,
            final(self).spec_index() == 0,
            final(self).spec_base() == old(self).spec_base(),
    {
        self.options.clear();
        self.index = 0;
        assert(texts(self.options@) =~= Seq::<Seq<char>>::empty());
    }

    /// The next candidate, cycling through the candidates and then the
    /// typed text; `None` when there are no candidates.
    pub fn next(&mut self) -> (r: Option<String>)
        requires
            old(self).wf(),
        ensures
            final(self).wf(),
            final(self).spec_options() == old(self).spec_options(),
            final(self).spec_base() == old(self).spec_base(),
            old(self).spec_options().len() == 0 ==> r is None && final(self).spec_index() == old(
                self,
            ).spec_index(),
            old(self).spec_options().len() > 0 ==> {
                let n = old(self).spec_options().len();
                let i = old(self).spec_index();
                &&& final(self).spec_index() == (i + 1) % (n as int + 1)
                &&& r matches Some(s) && s@ == if 0 <= i < n {
                    old(self).spec_options()[i]
                } else {
                    old(self).spec_base()
                }
            },
    {
        if self.options.len() == 0 {
            return None;
        }
        let last = self.index;
        proof {
            let n = self.options@.len();
            let i = self.index as nat;
            if i < n {
                vstd::arithmetic::div_mod::lemma_small_mod(i + 1, n + 1);
            } else {
                vstd::arithmetic::div_mod::lemma_mod_self_0((n + 1) as int);
            }
        }
        self.index = if self.index >= self.options.len() {
            0
        } else {
            self.index + 1
        };
        if last < self.options.len() {
            Some(self.options[last].clone())
        } else {
            Some(self.base.clone())
        }
    }
}

/// Index of the first space in `s` at or after `from`, or the length of
/// `s`.
pub open spec fn space_at_or_after(s: Seq<char>, from: int) -> int
    decreases s.len() - from,
{
    if from >= s.len() {
        s.len() as int
    } else if s[from] == ' ' {
        from
    } else {
        space_at_or_after(s, from + 1)
    }
}

/// One past the last space in `s` before `to`, or 0 when there is none.
pub open spec fn after_space_before(s: Seq<char>, to: int) -> int
    decreases to,
{
    if to <= 0 {
        0
    } else if s[to - 1] == ' ' {
        to
    } else {
        after_space_before(s, to - 1)
    }
}

/// Where moving a word right from `cursor` lands: the next space after
/// the character under the cursor, or the end.
pub open spec fn word_right(s: Seq<char>, cursor: int) -> int {
    let origin = if cursor + 1 < s.len() {
        cursor + 1
    } else {
        s.len() as int
    };
    space_at_or_after(s, origin)
}

/// Where moving a word left from `cursor` lands: just past the last space
/// before the character left of the cursor, or the start.
pub open spec fn word_left(s: Seq<char>, cursor: int) -> int {
    let origin = if cursor >= 1 {
        cursor - 1
    } else {
        0
    };
    after_space_before(s, origin)
}

proof fn lemma_space_at_or_after(s: Seq<char>, from: int)
    requires
        0 <= from <= s.len(),
    ensures
        from <= space_at_or_after(s, from) <= s.len(),
    decreases s.len() - from,
{
    if from < s.len() && s[from] != ' ' {
        lemma_space_at_or_after(s, from + 1);
    }
}

proof fn lemma_after_space_before(s: Seq<char>, to: int)
    requires
        0 <= to <= s.len(),
    ensures
        0 <= after_space_before(s, to) <= to,
    decreases to,
{
    if to > 0 && s[to - 1] != ' ' {
        lemma_after_space_before(s, to - 1);
    }
}

/// The first occurrence of each text of `items`, in order.
pub open spec fn first_occurrences(items: Seq<Seq<char>>) -> Seq<Seq<char>>
    decreases items.len(),
{
    if items.len() == 0 {
        Seq::empty()
    } else {
        let rest = first_occurrences(items.drop_last());
        if rest.contains(items.last()) {
            rest
        } else {
            rest.push(items.last())
        }
    }
}

/// Characters the command line's words may hold besides letters and
/// digits.
pub open spec fn command_word_chars() -> Set<char> {
    set!['/', '_']
}

/// Command words shorter than this many bytes are not remembered.
pub const MIN_WORD_LEN: usize = 3;

/// The words of `line` remembered for completion.
pub open spec fn command_words(line: Seq<char>) -> Set<Seq<char>> {
    words_in(command_word_chars(), MIN_WORD_LEN, line)
}

/// The line being typed, the cursor in it (a character index), the words
/// offered for completion and the completion in progress.
pub struct CommandBuffer {
    buffer: Vec<char>,
    cursor_pos: usize,
    completion_tree: rs_complete::CompletionTree,
    completion: CompletionStepData,
}

impl CommandBuffer {
    /// The typed characters.
    pub closed spec fn text(&self) -> Seq<char> {
        self.buffer@
    }

    /// The cursor position.
    pub closed spec fn cursor(&self) -> int {
        self.cursor_pos as int
    }

    /// The words remembered for completion.
    pub closed spec fn known_words(&self) -> Set<Seq<char>> {
        tree_words(self.completion_tree)
    }

    /// The completion in progress.
    pub closed spec fn offered(&self) -> Seq<Seq<char>> {
        self.completion.spec_options()
    }

    /// The cursor lies within the text, and the completion tree takes
    /// words as the command line asks.
    pub closed spec fn wf(&self) -> bool {
        &&& self.cursor_pos <= self.buffer@.len() && self.completion.wf()
        &&& tree_inclusions(self.completion_tree) == command_word_chars()
        &&& tree_min_len(self.completion_tree) == MIN_WORD_LEN
    }

    /// An empty command line.
    pub fn new() -> (r: CommandBuffer)
        ensures
            r.wf(),
            r.text().len() == 0,
            r.cursor() == 0,
            r.known_words() == Set::<Seq<char>>::empty(),
            r.offered().len() == 0,
    {
        let chars: Vec<char> = vec!['/', '_'];
        let mut tree = tree_with_inclusions(chars.as_slice());
        tree_set_min_word_len(&mut tree, MIN_WORD_LEN);
        assert(chars@.to_set() =~= command_word_chars());
        CommandBuffer {
            buffer: Vec::new(),
            cursor_pos: 0,
            completion_tree: tree,
            completion: CompletionStepData::new(),
        }
    }

    /// The typed text.
    pub fn get_buffer(&self) -> (r: String)
        ensures
            r@ == self.text(),
    {
        string_of(self.buffer.as_slice())
    }

    /// The cursor position.
    pub fn get_pos(&self) -> (r: usize)
        ensures
            r == self.cursor(),
    {
        self.cursor_pos
    }

    /// The completion candidates being offered.
    pub fn completion_options(&self) -> (r: &Vec<String>)
        ensures
            texts(r@) == self.offered(),
    {
        self.completion.options()
    }

    /// Takes the typed command, remembering its words for completion, and
    /// empties the line.
    pub fn submit(&mut self) -> (r: String)
        requires
            old(self).wf(),
        ensures
            final(self).wf(),
            r@ == old(self).text(),
            final(self).text().len() == 0,
            final(self).cursor() == 0,
            final(self).known_words() == if old(self).text().len() > 0 {
                old(self).known_words().union(command_words(old(self).text()))
            } else {
                old(self).known_words()
            },
            final(self).offered() == old(self).offered(),
    {
        let cmd = if self.buffer.len() > 0 {
            let command = self.get_buffer();
            tree_insert(&mut self.completion_tree, command.as_str());
            command
        } else {
            String::new()
        };
        self.buffer.clear();
        self.cursor_pos = 0;
        cmd
    }

    /// Moves the cursor one character left, unless at the start.
    pub fn step_left(&mut self)
        requires
            old(self).wf(),
        ensures
            final(self).wf(),
            final(self).text() == old(self).text(),
            final(self).cursor() == if old(self).cursor() > 0 {
                old(self).cursor() - 1
            } else {
                0
            },
            final(self).known_words() == old(self).known_words(),
            final(self).offered() == old(self).offered(),
    {
        if self.cursor_pos > 0 {
            self.cursor_pos -= 1;
        }
    }

    /// Moves the cursor one character right, unless at the end.
    pub fn step_right(&mut self)
        requires
            old(self).wf(),
        ensures
            final(self).wf(),
            final(self).text() == old(self).text(),
            final(self).cursor() == if old(self).cursor() < old(self).text().len() {
                old(self).cursor() + 1
            } else {
                old(self).cursor()
            },
            final(self).known_words() == old(self).known_words(),
            final(self).offered() == old(self).offered(),
    {
        if self.cursor_pos < self.buffer.len() {
            self.cursor_pos += 1;
        }
    }

    /// Moves the cursor to the start.
    pub fn move_to_start(&mut self)
        requires
            old(self).wf(),
        ensures
            final(self).wf(),
            final(self).text() == old(self).text(),
            final(self).cursor() == 0,
            final(self).known_words() == old(self).known_words(),
            final(self).offered() == old(self).offered(),
    {
        self.cursor_pos = 0;
    }

    /// Moves the cursor to the end.
    pub fn move_to_end(&mut self)
        requires
            old(self).wf(),
        ensures
            final(self).wf(),
            final(self).text() == old(self).text(),
            final(self).cursor() == old(self).text().len(),
            final(self).known_words() == old(self).known_words(),
            final(self).offered() == old(self).offered(),
    {
        self.cursor_pos = self.buffer.len();
    }

    /// Moves the cursor to the next space after the character under it, or
    /// to the end.
    pub fn step_word_right(&mut self)
        requires
            old(self).wf(),
        ensures
            final(self).wf(),
            final(self).text() == old(self).text(),
            final(self).cursor() == word_right(old(self).text(), old(self).cursor()),
            final(self).known_words() == old(self).known_words(),
            final(self).offered() == old(self).offered(),
    {
        let origin = if self.cursor_pos < self.buffer.len() {
            self.cursor_pos + 1
        } else {
            self.buffer.len()
        };
        let mut i = origin;
        while i < self.buffer.len() && self.buffer[i] != ' '
            invariant
                origin <= i <= self.buffer@.len(),
                space_at_or_after(self.buffer@, origin as int) == space_at_or_after(
                    self.buffer@,
                    i as int,
                ),
            decreases self.buffer@.len() - i,
        {
            i += 1;
        }
        self.cursor_pos = i;
    }

    /// Moves the cursor just past the last space before the character to
    /// its left, or to the start.
    pub fn step_word_left(&mut self)
        requires
            old(self).wf(),
        ensures
            final(self).wf(),
            final(self).text() == old(self).text(),
            final(self).cursor() == word_left(old(self).text(), old(self).cursor()),
            final(self).known_words() == old(self).known_words(),
            final(self).offered() == old(self).offered(),
    {
        let origin = if self.cursor_pos >= 1 {
            self.cursor_pos - 1
        } else {
            0
        };
        let mut i = origin;
        while i > 0 && self.buffer[i - 1] != ' '
            invariant
                i <= origin <= self.buffer@.len(),
                after_space_before(self.buffer@, origin as int) == after_space_before(
                    self.buffer@,
                    i as int,
                ),
            decreases i,
        {
            i -= 1;
        }
        self.cursor_pos = i;
    }

    /// Deletes everything from the cursor on.
    pub fn delete_to_end(&mut self)
        requires
            old(self).wf(),
        ensures
            final(self).wf(),
            final(self).text() == old(self).text().take(old(self).cursor()),
            final(self).cursor() == old(self).cursor(),
            final(self).known_words() == old(self).known_words(),
            final(self).offered() == old(self).offered(),
    {
        self.buffer.truncate(self.cursor_pos);
    }

    /// Deletes everything before the cursor and moves it to the start.
    pub fn delete_from_start(&mut self)
        requires
            old(self).wf(),
        ensures
            final(self).wf(),
            final(self).text() == old(self).text().skip(old(self).cursor()),
            final(self).cursor() == 0,
            final(self).known_words() == old(self).known_words(),
            final(self).offered() == old(self).offered(),
    {
        self.remove_range(0, self.cursor_pos);
        self.cursor_pos = 0;
    }

    /// Removes the characters `start..end`, leaving the cursor where it is
    /// when it still lies within the text.
    fn remove_range(&mut self, start: usize, end: usize)
        requires
            start <= end <= old(self).buffer@.len(),
        ensures
            final(self).buffer@ == old(self).buffer@.take(start as int) + old(self).buffer@.skip(
                end as int,
            ),
            final(self).cursor_pos == old(self).cursor_pos,
            final(self).completion_tree == old(self).completion_tree,
            final(self).completion == old(self).completion,
    {
        let mut kept: Vec<char> = Vec::new();
        let mut i: usize = 0;
        while i < self.buffer.len()
            invariant
                start <= end <= self.buffer@.len(),
                self.buffer@ == old(self).buffer@,
                i <= self.buffer@.len(),
                kept@ == (if i <= start {
                    self.buffer@.take(i as int)
                } else if i <= end {
                    self.buffer@.take(start as int)
                } else {
                    self.buffer@.take(start as int) + self.buffer@.subrange(end as int, i as int)
                }),
            decreases self.buffer@.len() - i,
        {
            if i < start || i >= end {
                kept.push(self.buffer[i]);
            }
            proof {
                if i < start {
                    assert(self.buffer@.take(i + 1) =~= self.buffer@.take(i as int).push(
                        self.buffer@[i as int],
                    ));
                } else if i >= end {
                    assert(self.buffer@.subrange(end as int, i + 1) =~= self.buffer@.subrange(
                        end as int,
                        i as int,
                    ).push(self.buffer@[i as int]));
                    if i == end {
                        assert(self.buffer@.subrange(end as int, end as int) =~= Seq::<
                            char,
                        >::empty());
                    }
                }
            }
            i += 1;
        }
        proof {
            if self.buffer@.len() <= start {
                assert(self.buffer@.take(self.buffer@.len() as int) =~= self.buffer@);
            }
            assert(self.buffer@.subrange(end as int, self.buffer@.len() as int) =~= self.buffer@.skip(
                end as int,
            ));
            assert(kept@ =~= self.buffer@.take(start as int) + self.buffer@.skip(end as int));
        }
        self.buffer = kept;
    }

    /// Deletes the character under the cursor, if any.
    pub fn delete_right(&mut self)
        requires
            old(self).wf(),
        ensures
            final(self).wf(),
            final(self).text() == if old(self).cursor() < old(self).text().len() {
                old(self).text().remove(old(self).cursor())
            } else {
                old(self).text()
            },
            final(self).cursor() == old(self).cursor(),
            final(self).known_words() == old(self).known_words(),
            final(self).offered() == old(self).offered(),
    {
        if self.cursor_pos < self.buffer.len() {
            self.buffer.remove(self.cursor_pos);
        }
    }

    /// Deletes from the cursor to where a word-right move would land.
    pub fn delete_word_right(&mut self)
        requires
            old(self).wf(),
        ensures
            final(self).wf(),
            ({
                let s = old(self).text();
                let c = old(self).cursor();
                let e = word_right(s, c);
                &&& final(self).text() == s.take(c) + s.skip(e)
                &&& final(self).cursor() == c
            }),
            final(self).known_words() == old(self).known_words(),
            final(self).offered() == old(self).offered(),
    {
        proof {
            let s = self.buffer@;
            let c = self.cursor_pos as int;
            lemma_space_at_or_after(s, if c + 1 < s.len() { c + 1 } else { s.len() as int });
        }
        let origin = self.cursor_pos;
        self.step_word_right();
        if origin != self.cursor_pos {
            let end = self.cursor_pos;
            self.remove_range(origin, end);
            self.cursor_pos = origin;
        } else {
            assert(self.buffer@ =~= self.buffer@.take(origin as int) + self.buffer@.skip(
                origin as int,
            ));
        }
    }

    /// Deletes from where a word-left move would land to the cursor, and
    /// moves the cursor there.
    pub fn delete_word_left(&mut self)
        requires
            old(self).wf(),
        ensures
            final(self).wf(),
            ({
                let s = old(self).text();
                let c = old(self).cursor();
                let b = word_left(s, c);
                &&& final(self).text() == s.take(b) + s.skip(c)
                &&& final(self).cursor() == b
            }),
            final(self).known_words() == old(self).known_words(),
            final(self).offered() == old(self).offered(),
    {
        proof {
            let s = self.buffer@;
            let c = self.cursor_pos as int;
            lemma_after_space_before(s, if c >= 1 { c - 1 } else { 0 });
        }
        let origin = self.cursor_pos;
        self.step_word_left();
        if origin != self.cursor_pos {
            let start = self.cursor_pos;
            self.remove_range(start, origin);
        } else {
            assert(self.buffer@ =~= self.buffer@.take(origin as int) + self.buffer@.skip(
                origin as int,
            ));
        }
    }

    /// Deletes the character left of the cursor and returns it; nothing at
    /// the start.
    pub fn remove(&mut self) -> (r: Option<char>)
        requires
            old(self).wf(),
        ensures
            final(self).wf(),
            old(self).cursor() == 0 ==> r is None && final(self).text() == old(self).text()
                && final(self).cursor() == 0,
            old(self).cursor() > 0 ==> r == Some(old(self).text()[old(self).cursor() - 1])
                && final(self).text() == old(self).text().remove(old(self).cursor() - 1)
                && final(self).cursor() == old(self).cursor() - 1,
            final(self).known_words() == old(self).known_words(),
            final(self).offered() == old(self).offered(),
    {
        if self.cursor_pos > 0 {
            let removed = if self.cursor_pos < self.buffer.len() {
                Some(self.buffer.remove(self.cursor_pos - 1))
            } else {
                let c = self.buffer.pop();
                assert(old(self).buffer@.remove(old(self).cursor_pos - 1) =~= self.buffer@);
                c
            };
            self.cursor_pos -= 1;
            removed
        } else {
            None
        }
    }

    /// Inserts `c` at the cursor and moves the cursor past it; a
    /// completion in progress is dropped.
    pub fn push_key(&mut self, c: char)
        requires
            old(self).wf(),
            old(self).text().len() < usize::MAX,
        ensures
            final(self).wf(),
            final(self).text() == old(self).text().insert(old(self).cursor(), c),
            final(self).cursor() == old(self).cursor() + 1,
            final(self).known_words() == old(self).known_words(),
            final(self).offered().len() == 0,
    {
        if self.cursor_pos >= self.buffer.len() {
            self.buffer.push(c);
            assert(old(self).buffer@.insert(old(self).cursor_pos as int, c) =~= self.buffer@);
        } else {
            self.buffer.insert(self.cursor_pos, c);
        }
        self.completion.clear();
        self.step_right();
    }

    /// Offers the next completion of the typed text (more than one
    /// character). On the first press the candidates are gathered: those
    /// `script` offers, then the remembered words that extend the text,
    /// each kept at its first occurrence only. The line becomes the
    /// candidate, with the cursor at its end; the candidate is returned so
    /// that it can be spoken.
    pub fn tab_complete(&mut self, script: Vec<String>) -> (r: Option<String>)
        requires
            old(self).wf(),
        ensures
            final(self).wf(),
            final(self).known_words() == old(self).known_words(),
            old(self).text().len() <= 1 ==> r is None && final(self).text() == old(self).text()
                && final(self).cursor() == old(self).cursor(),
            old(self).text().len() > 1 && old(self).offered().len() == 0
                ==> final(self).offered() == first_occurrences(
                texts(script@) + match completions_from(
                    old(self).known_words(),
                    old(self).text(),
                ) {
                    Some(c) => c,
                    None => Seq::empty(),
                },
            ),
            old(self).text().len() > 1 && old(self).offered().len() > 0
                ==> final(self).offered() == old(self).offered(),
            r matches Some(s) ==> final(self).text() == s@ && final(self).cursor() == s@.len(),
            r is None ==> final(self).text() == old(self).text() && final(self).cursor() == old(
                self,
            ).cursor(),
            old(self).text().len() > 1 && final(self).offered().len() > 0 ==> r is Some,
    {
        if self.buffer.len() <= 1 {
            return None;
        }
        if self.completion.is_empty() {
            let strbuf = self.get_buffer();
            let mut candidates: Vec<String> = script;
            let ghost from_script = texts(candidates@);
            match tree_complete(&self.completion_tree, strbuf.as_str()) {
                Some(options) => {
                    let mut k: usize = 0;
                    while k < options.len()
                        invariant
                            k <= options@.len(),
                            texts(candidates@) == from_script + texts(options@).take(k as int),
                        decreases options@.len() - k,
                    {
                        let ghost before = texts(candidates@);
                        candidates.push(options[k].clone());
                        assert(texts(candidates@) =~= before.push(options@[k as int]@));
                        assert(texts(options@).take(k + 1) =~= texts(options@).take(k as int).push(
                            options@[k as int]@,
                        ));
                        k += 1;
                    }
                    assert(texts(options@).take(options@.len() as int) =~= texts(options@));
                },
                None => {
                    assert(from_script + Seq::<Seq<char>>::empty() =~= from_script);
                },
            }
            let unique = first_occurrences_of(&candidates);
            self.completion.set_options(strbuf.as_str(), unique);
        }
        match self.completion.next() {
            Some(comp) => {
                let cs = chars_of(comp.as_str());
                self.buffer = cs;
                self.cursor_pos = self.buffer.len();
                Some(comp)
            },
            None => None,
        }
    }

    /// Empties the line.
    pub fn clear(&mut self)
        requires
            old(self).wf(),
        ensures
            final(self).wf(),
            final(self).text().len() == 0,
            final(self).cursor() == 0,
            final(self).known_words() == old(self).known_words(),
            final(self).offered() == old(self).offered(),
    {
        self.buffer.clear();
        self.cursor_pos = self.buffer.len();
    }

    /// Replaces the line with `line`, cursor at its end.
    pub fn set(&mut self, line: String)
        requires
            old(self).wf(),
        ensures
            final(self).wf(),
            final(self).text() == line@,
            final(self).cursor() == line@.len(),
            final(self).known_words() == old(self).known_words(),
            final(self).offered() == old(self).offered(),
    {
        self.buffer = chars_of(line.as_str());
        self.cursor_pos = self.buffer.len();
    }
}

/// The first occurrence of each of `items`, in order.
fn first_occurrences_of(items: &Vec<String>) -> (r: Vec<String>)
    ensures
        texts(r@) == first_occurrences(texts(items@)),
{
    let mut out: Vec<String> = Vec::new();
    let mut i: usize = 0;
    while i < items.len()
        invariant
            i <= items@.len(),
            texts(out@) == first_occurrences(texts(items@).take(i as int)),
        decreases items@.len() - i,
    {
        let ghost before = texts(out@);
        assert(texts(items@).take(i + 1).drop_last() =~= texts(items@).take(i as int));
        let mut seen = false;
        let mut j: usize = 0;
        while j < out.len()
            invariant
                i < items@.len(),
                j <= out@.len(),
                texts(out@) == before,
                seen == exists|k: int| 0 <= k < j && out@[k]@ == items@[i as int]@,
            decreases out@.len() - j,
        {
            if str_eq(out[j].as_str(), items[i].as_str()) {
                seen = true;
            }
            j += 1;
        }
        proof {
            if seen {
                let k = choose|k: int| 0 <= k < out@.len() && out@[k]@ == items@[i as int]@;
                assert(before[k] == items@[i as int]@);
            } else {
                assert forall|k: int| 0 <= k < before.len() implies before[k] != items@[i as int]@ by {
                    assert(before[k] == out@[k]@);
                }
            }
        }
        if !seen {
            out.push(items[i].clone());
            assert(texts(out@) =~= before.push(items@[i as int]@));
        }
        i += 1;
    }
    assert(texts(items@).take(items@.len() as int) =~= texts(items@));
    out
}

/// A key combination in readable form: `prefix` then the key, with the
/// delete and escape characters named.
pub fn human_key(prefix: &str, c: char) -> (r: String)
    ensures
        r@ == prefix@ + if c == '\u{7f}' {
            "backspace"@
        } else if c == '\u{1b}' {
            "escape"@
        } else {
            seq![c]
        },
{
    let mut out: Vec<char> = Vec::new();
    push_str(&mut out, prefix);
    if c == '\u{7f}' {
        push_str(&mut out, "backspace");
    } else if c == '\u{1b}' {
        push_str(&mut out, "escape");
    } else {
        out.push(c);
    }
    string_of(out.as_slice())
}

/// A key press, as the terminal reports it.
#[derive(Debug, Clone, Copy, PartialEq, Eq, Structural)]
pub enum KeyInput {
    Char(char),
    Ctrl(char),
    Alt(char),
    F(u8),
    PageUp,
    PageDown,
    Home,
    End,
    Left,
    Right,
    Up,
    Down,
    Backspace,
    Delete,
    /// Any other key.
    Other,
}

/// An editing or scrolling request a script makes.
#[derive(Debug, Clone, PartialEq, Eq)]
pub enum UiEvent {
    StepLeft,
    StepRight,
    StepToStart,
    StepToEnd,
    StepWordLeft,
    StepWordRight,
    Remove,
    DeleteToEnd,
    DeleteFromStart,
    DeleteWordLeft,
    DeleteWordRight,
    DeleteRight,
    ScrollDown,
    ScrollUp,
    ScrollTop,
    ScrollBottom,
    Complete,
    Unknown(String),
}

/// What the rest of the client is to do after a key press.
#[derive(Debug, PartialEq, Eq)]
pub enum InputAction {
    /// Send the submitted line to the server.
    SendInput(Line),
    /// Tell scripts what the input line now holds.
    SetPromptContent(String),
    /// Echo a key through text-to-speech.
    SpeakKey(char),
    /// Complete the input line, with the scripts' candidates.
    Complete,
    Redraw,
    /// Quit, as asked by ctrl-c.
    Quit,
    ScrollUp,
    ScrollDown,
    ScrollTop,
    ScrollBottom,
}

/// The names of the script bindings a key is looked up under, in the order
/// they are tried.
pub open spec fn binding_names_of(key: KeyInput) -> Seq<Seq<char>> {
    match key {
        KeyInput::Ctrl(c) => seq![human_key_text("ctrl-"@, c)],
        KeyInput::Alt(c) => seq![human_key_text("alt-"@, c)],
        KeyInput::F(n) => seq![seq!['f'] + spec_decimal(n as nat)],
        KeyInput::PageUp => seq!["pageup"@, "page up"@],
        KeyInput::PageDown => seq!["pagedown"@, "page down"@],
        KeyInput::Home => seq!["home"@],
        KeyInput::End => seq!["end"@],
        KeyInput::Up => seq!["up"@],
        KeyInput::Down => seq!["down"@],
        _ => Seq::empty(),
    }
}

/// The readable form `human_key` gives.
pub open spec fn human_key_text(prefix: Seq<char>, c: char) -> Seq<char> {
    prefix + if c == '\u{7f}' {
        "backspace"@
    } else if c == '\u{1b}' {
        "escape"@
    } else {
        seq![c]
    }
}

/// The names of the script bindings `key` is looked up under, in order;
/// the first that a script has bound runs, and the key is then not handled
/// any further.
pub fn binding_names(key: KeyInput) -> (r: Vec<String>)
    ensures
        texts(r@) == binding_names_of(key),
{
    let mut out: Vec<String> = Vec::new();
    match key {
        KeyInput::Ctrl(c) => out.push(human_key("ctrl-", c)),
        KeyInput::Alt(c) => out.push(human_key("alt-", c)),
        KeyInput::F(n) => {
            let mut cs: Vec<char> = Vec::new();
            cs.push('f');
            push_decimal(&mut cs, n as u64);
            assert(cs@ =~= seq!['f'] + spec_decimal(n as nat));
            out.push(string_of(cs.as_slice()));
        },
        KeyInput::PageUp => {
            out.push("pageup".to_owned());
            out.push("page up".to_owned());
        },
        KeyInput::PageDown => {
            out.push("pagedown".to_owned());
            out.push("page down".to_owned());
        },
        KeyInput::Home => out.push("home".to_owned()),
        KeyInput::End => out.push("end".to_owned()),
        KeyInput::Up => out.push("up".to_owned()),
        KeyInput::Down => out.push("down".to_owned()),
        _ => {},
    }
    assert(texts(out@) =~= binding_names_of(key));
    out
}

/// A submitted line as the user's input.
pub open spec fn is_user_line(l: Line, text: Seq<char>) -> bool {
    &&& l.text() == text
    &&& !l.flags.prompt && !l.flags.separate_receives && !l.flags.screen_clear && !l.flags.gag
    &&& l.flags.source matches Some(s) && s@ == "user"@
}

/// Handles a key press that no script binding took: editing keys change
/// the input line, others become requests for the rest of the client.
pub fn parse_key_event(key: KeyInput, buffer: &mut CommandBuffer) -> (r: Vec<InputAction>)
    requires
        old(buffer).wf(),
        old(buffer).text().len() < usize::MAX,
    ensures
        final(buffer).wf(),
        final(buffer).known_words() == if key == KeyInput::Char('\n') && old(buffer).text().len()
            > 0 {
            old(buffer).known_words().union(command_words(old(buffer).text()))
        } else {
            old(buffer).known_words()
        },
        match key {
            KeyInput::Char('\n') => {
                &&& r@.len() == 2
                &&& r@[0] matches InputAction::SendInput(l) && is_user_line(l, old(buffer).text())
                &&& r@[1] matches InputAction::SetPromptContent(s) && s@.len() == 0
                &&& final(buffer).text().len() == 0
                &&& final(buffer).cursor() == 0
            },
            KeyInput::Char('\t') => r@ == seq![InputAction::Complete] && final(buffer).text()
                == old(buffer).text() && final(buffer).cursor() == old(buffer).cursor(),
            KeyInput::Char(c) => {
                &&& final(buffer).text() == old(buffer).text().insert(old(buffer).cursor(), c)
                &&& final(buffer).cursor() == old(buffer).cursor() + 1
                &&& r@.len() == 2
                &&& r@[0] == InputAction::SpeakKey(c)
                &&& r@[1] matches InputAction::SetPromptContent(s) && s@ == final(buffer).text()
            },
            KeyInput::Backspace => {
                &&& old(buffer).cursor() == 0 ==> final(buffer).text() == old(buffer).text()
                    && final(buffer).cursor() == 0 && r@.len() == 1
                &&& old(buffer).cursor() > 0 ==> final(buffer).text() == old(buffer).text().remove(
                    old(buffer).cursor() - 1,
                ) && final(buffer).cursor() == old(buffer).cursor() - 1 && r@.len() == 2 && r@[0]
                    == InputAction::SpeakKey(old(buffer).text()[old(buffer).cursor() - 1])
                &&& r@.last() matches InputAction::SetPromptContent(s) && s@ == final(buffer).text()
            },
            KeyInput::Left => r@.len() == 0 && final(buffer).text() == old(buffer).text()
                && final(buffer).cursor() == if old(buffer).cursor() > 0 {
                old(buffer).cursor() - 1
            } else {
                0
            },
            KeyInput::Right => r@.len() == 0 && final(buffer).text() == old(buffer).text()
                && final(buffer).cursor() == if old(buffer).cursor() < old(buffer).text().len() {
                old(buffer).cursor() + 1
            } else {
                old(buffer).cursor()
            },
            KeyInput::Delete => r@.len() == 0 && final(buffer).cursor() == old(buffer).cursor()
                && final(buffer).text() == if old(buffer).cursor() < old(buffer).text().len() {
                old(buffer).text().remove(old(buffer).cursor())
            } else {
                old(buffer).text()
            },
            _ => final(buffer).text() == old(buffer).text() && final(buffer).cursor() == old(buffer).cursor() && r@ == match key {
                KeyInput::Ctrl('l') => seq![InputAction::Redraw],
                KeyInput::Ctrl('c') => seq![InputAction::Quit],
                KeyInput::PageUp => seq![InputAction::ScrollUp],
                KeyInput::PageDown => seq![InputAction::ScrollDown],
                KeyInput::Home => seq![InputAction::ScrollTop],
                KeyInput::End => seq![InputAction::ScrollBottom],
                _ => Seq::<InputAction>::empty(),
            },
        },
{
    let mut out: Vec<InputAction> = Vec::new();
    let typed = typed_char(key);
    if key == KeyInput::Char('\n') {
        let mut line = Line::from_string(buffer.submit());
        line.flags.source = Some("user".to_owned());
        out.push(InputAction::SendInput(line));
        out.push(InputAction::SetPromptContent(String::new()));
    } else if key == KeyInput::Char('\t') {
        out.push(InputAction::Complete);
    } else if typed.is_some() {
        let c = typed.unwrap();
        out.push(InputAction::SpeakKey(c));
        buffer.push_key(c);
        let content = buffer.get_buffer();
        out.push(InputAction::SetPromptContent(content));
    } else if key == KeyInput::Ctrl('l') {
        out.push(InputAction::Redraw);
    } else if key == KeyInput::Ctrl('c') {
        out.push(InputAction::Quit);
    } else if key == KeyInput::PageUp {
        out.push(InputAction::ScrollUp);
    } else if key == KeyInput::PageDown {
        out.push(InputAction::ScrollDown);
    } else if key == KeyInput::Home {
        out.push(InputAction::ScrollTop);
    } else if key == KeyInput::End {
        out.push(InputAction::ScrollBottom);
    } else if key == KeyInput::Left {
        buffer.step_left();
    } else if key == KeyInput::Right {
        buffer.step_right();
    } else if key == KeyInput::Backspace {
        let removed = buffer.remove();
        let content = buffer.get_buffer();
        if removed.is_some() {
            let c = removed.unwrap();
            out = vec![InputAction::SpeakKey(c), InputAction::SetPromptContent(content)];
        } else {
            out = vec![InputAction::SetPromptContent(content)];
        }
    } else if key == KeyInput::Delete {
        buffer.delete_right();
    }
    proof {
        if key == KeyInput::Ctrl('l') {
            assert(out@ =~= seq![InputAction::Redraw]);
        } else if key == KeyInput::Ctrl('c') {
            assert(out@ =~= seq![InputAction::Quit]);
        } else if key == KeyInput::PageUp {
            assert(out@ =~= seq![InputAction::ScrollUp]);
        } else if key == KeyInput::PageDown {
            assert(out@ =~= seq![InputAction::ScrollDown]);
        } else if key == KeyInput::Home {
            assert(out@ =~= seq![InputAction::ScrollTop]);
        } else if key == KeyInput::End {
            assert(out@ =~= seq![InputAction::ScrollBottom]);
        } else if key == KeyInput::Char('\t') {
            assert(out@ =~= seq![InputAction::Complete]);
        }
    }
    out
}

/// The character a key types, if it is a character key.
fn typed_char(key: KeyInput) -> (r: Option<char>)
    ensures
        r == match key {
            KeyInput::Char(c) => Some(c),
            _ => None,
        },
{
    match key {
        KeyInput::Char(c) => Some(c),
        _ => None,
    }
}

/// Carries out a script's editing request on the input line; scrolling
/// and completion come back as requests for the rest of the client.
pub fn apply_ui_event(buffer: &mut CommandBuffer, event: &UiEvent) -> (r: Option<InputAction>)
    requires
        old(buffer).wf(),
    ensures
        final(buffer).wf(),
        final(buffer).known_words() == old(buffer).known_words(),
        ({
            let s = old(buffer).text();
            let c = old(buffer).cursor();
            match *event {
                UiEvent::StepLeft => r is None && final(buffer).text() == s && final(buffer).cursor() == if c > 0 {
                    c - 1
                } else {
                    0
                },
                UiEvent::StepRight => r is None && final(buffer).text() == s && final(buffer).cursor() == if c < s.len() {
                    c + 1
                } else {
                    c
                },
                UiEvent::StepToStart => r is None && final(buffer).text() == s && final(buffer).cursor() == 0,
                UiEvent::StepToEnd => r is None && final(buffer).text() == s && final(buffer).cursor() == s.len(),
                UiEvent::StepWordLeft => r is None && final(buffer).text() == s && final(buffer).cursor() == word_left(s, c),
                UiEvent::StepWordRight => r is None && final(buffer).text() == s && final(buffer).cursor() == word_right(s, c),
                UiEvent::Remove => r is None && (c == 0 ==> final(buffer).text() == s && final(buffer).cursor() == 0) && (c > 0 ==> final(buffer).text() == s.remove(c - 1) && final(buffer).cursor() == c - 1),
                UiEvent::DeleteToEnd => r is None && final(buffer).text() == s.take(c) && final(buffer).cursor() == c,
                UiEvent::DeleteFromStart => r is None && final(buffer).text() == s.skip(c)
                    && final(buffer).cursor() == 0,
                UiEvent::DeleteWordLeft => r is None && final(buffer).text() == s.take(
                    word_left(s, c),
                ) + s.skip(c) && final(buffer).cursor() == word_left(s, c),
                UiEvent::DeleteWordRight => r is None && final(buffer).text() == s.take(c)
                    + s.skip(word_right(s, c)) && final(buffer).cursor() == c,
                UiEvent::DeleteRight => r is None && final(buffer).cursor() == c && final(buffer).text() == if c < s.len() {
                    s.remove(c)
                } else {
                    s
                },
                UiEvent::ScrollDown => r == Some(InputAction::ScrollDown) && final(buffer).text()
                    == s && final(buffer).cursor() == c,
                UiEvent::ScrollUp => r == Some(InputAction::ScrollUp) && final(buffer).text() == s
                    && final(buffer).cursor() == c,
                UiEvent::ScrollTop => r == Some(InputAction::ScrollTop) && final(buffer).text()
                    == s && final(buffer).cursor() == c,
                UiEvent::ScrollBottom => r == Some(InputAction::ScrollBottom) && final(buffer).text() == s && final(buffer).cursor() == c,
                UiEvent::Complete => r == Some(InputAction::Complete) && final(buffer).text() == s
                    && final(buffer).cursor() == c,
                UiEvent::Unknown(_) => r is None && final(buffer).text() == s && final(buffer).cursor() == c,
            }
        }),
{
    match event {
        UiEvent::StepLeft => buffer.step_left(),
        UiEvent::StepRight => buffer.step_right(),
        UiEvent::StepToStart => buffer.move_to_start(),
        UiEvent::StepToEnd => buffer.move_to_end(),
        UiEvent::StepWordLeft => buffer.step_word_left(),
        UiEvent::StepWordRight => buffer.step_word_right(),
        UiEvent::Remove => {
            buffer.remove();
        },
        UiEvent::DeleteToEnd => buffer.delete_to_end(),
        UiEvent::DeleteFromStart => buffer.delete_from_start(),
        UiEvent::DeleteWordLeft => buffer.delete_word_left(),
        UiEvent::DeleteWordRight => buffer.delete_word_right(),
        UiEvent::DeleteRight => buffer.delete_right(),
        UiEvent::ScrollDown => {
            return Some(InputAction::ScrollDown);
        },
        UiEvent::ScrollUp => {
            return Some(InputAction::ScrollUp);
        },
        UiEvent::ScrollTop => {
            return Some(InputAction::ScrollTop);
        },
        UiEvent::ScrollBottom => {
            return Some(InputAction::ScrollBottom);
        },
        UiEvent::Complete => {
            return Some(InputAction::Complete);
        },
        UiEvent::Unknown(_) => {},
    }
    None
}

/// Typing a character and erasing it again (`push_key`, then `remove`)
/// leaves the line and the cursor as they were.
pub proof fn lemma_type_then_erase(text: Seq<char>, cursor: int, c: char)
    requires
        0 <= cursor <= text.len(),
    ensures
        text.insert(cursor, c).remove(cursor) == text,
        text.insert(cursor, c)[cursor] == c,
        (cursor + 1) - 1 == cursor,
{
    assert(text.insert(cursor, c).remove(cursor) =~= text);
}

} // verus!
