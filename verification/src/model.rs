//! The line model: a line of MUD output with its flags and tag, the tag mask
//! that hides tagged lines, and compiled regular expressions.
use vstd::prelude::*;
use vstd::utf8::{decode_utf8, valid_utf8};
use crate::text::{chars_of, string_of, string_of_range};

verus! {

// ---------------------------------------------------------------------------
// Regular expressions
// ---------------------------------------------------------------------------

#[verifier::external_type_specification]
#[verifier::external_body]
pub struct ExRegexCompiled(regex::Regex);

/// Whether the `regex` crate accepts `pattern` (its syntax and size limits).
pub uninterp spec fn regex_compiles(pattern: Seq<char>) -> bool;

/// Whether the regular expression `pattern` matches somewhere in `text`.
pub uninterp spec fn regex_matches(pattern: Seq<char>, text: Seq<char>) -> bool;

/// The message of the error the `regex` crate gives for a pattern it
/// refuses.
pub uninterp spec fn regex_error_text(pattern: Seq<char>) -> Seq<char>;

/// Trusted: `regex::Regex::new` succeeds exactly on the patterns it accepts,
/// which depends on the pattern text alone; a refusal is reported by the
/// error's `Display` text, also a function of the pattern.
#[verifier::external_body]
fn compile_regex(pattern: &str) -> (r: Result<regex::Regex, String>)
    ensures
        r is Ok <==> regex_compiles(pattern@),
        r matches Err(m) ==> m@ == regex_error_text(pattern@),
{
    match regex::Regex::new(pattern) {
        Ok(re) => Ok(re),
        Err(e) => Err(e.to_string()),
    }
}

/// Trusted: `regex::Regex::clone` gives a regex of the same pattern; nothing
/// is stated of the opaque value itself.
#[verifier::external_body]
fn clone_compiled(re: &regex::Regex) -> regex::Regex {
    re.clone()
}

/// Why a pattern was refused: the pattern and the regex engine's message.
#[derive(Debug)]
pub struct PatternError {
    pub pattern: String,
    pub message: String,
}

/// A compiled regular expression together with the pattern it came from.
/// Its view is the pattern text.
#[derive(Debug)]
pub struct Pattern {
    source: String,
    compiled: regex::Regex,
}

impl View for Pattern {
    type V = Seq<char>;

    closed spec fn view(&self) -> Seq<char> {
        self.source@
    }
}

/// Trusted: `regex::Regex::is_match` on the regex compiled from the pattern
/// held beside it (the only way a `Pattern` is built is `Pattern::new`, which
/// compiles exactly `source`).
#[verifier::external_body]
fn regex_is_match(re: &Pattern, text: &str) -> (b: bool)
    ensures
        b == regex_matches(re@, text@),
{
    re.compiled.is_match(text)
}

impl Pattern {
    /// Compiles `pattern`; fails exactly when the `regex` crate refuses it.
    pub fn new(pattern: &str) -> (r: Result<Pattern, PatternError>)
        ensures
            r is Ok <==> regex_compiles(pattern@),
            r matches Ok(re) ==> re@ == pattern@,
            r matches Err(e) ==> e.pattern@ == pattern@ && e.message@ == regex_error_text(
                pattern@,
            ),
    {
        match compile_regex(pattern) {
            Ok(compiled) => Ok(Pattern { source: pattern.to_owned(), compiled }),
            Err(message) => Err(PatternError { pattern: pattern.to_owned(), message }),
        }
    }

    /// Whether the pattern matches somewhere in `text`.
    pub fn is_match(&self, text: &str) -> (b: bool)
        ensures
            b == regex_matches(self@, text@),
    {
        regex_is_match(self, text)
    }

    /// The pattern text.
    pub fn as_str(&self) -> (r: &str)
        ensures
            r@ == self@,
    {
        self.source.as_str()
    }

    /// A copy of this expression, with the same pattern.
    pub fn duplicate(&self) -> (r: Pattern)
        ensures
            r@ == self@,
    {
        Pattern { source: self.source.clone(), compiled: clone_compiled(&self.compiled) }
    }
}

// ---------------------------------------------------------------------------
// Lines
// ---------------------------------------------------------------------------

/// Trusted: `String::from_utf8_lossy` decodes the bytes, replacing invalid
/// sequences with U+FFFD; on valid UTF-8 it is plain decoding. Which
/// replacement characters an invalid input gives is left unstated.
pub uninterp spec fn utf8_lossy(bytes: Seq<u8>) -> Seq<char>;

#[verifier::external_body]
pub(crate) fn string_from_utf8_lossy(bytes: &[u8]) -> (r: String)
    ensures
        r@ == utf8_lossy(bytes@),
        valid_utf8(bytes@) ==> r@ == decode_utf8(bytes@),
{
    String::from_utf8_lossy(bytes).into_owned()
}

/// Flags carried by a line.
#[derive(Debug, PartialEq, Eq)]
pub struct LineFlags {
    /// The line is a prompt.
    pub prompt: bool,
    /// The line continues a prompt that was already shown.
    pub separate_receives: bool,
    /// The server asked for the screen to be cleared before this line.
    pub screen_clear: bool,
    /// The line is not to be printed.
    pub gag: bool,
    /// Who produced the line (`"user"`, `"script"`), when known.
    pub source: Option<String>,
}

impl LineFlags {
    /// No flag set.
    pub fn new() -> (r: LineFlags)
        ensures
            !r.prompt && !r.separate_receives && !r.screen_clear && !r.gag && r.source is None,
    {
        LineFlags {
            prompt: false,
            separate_receives: false,
            screen_clear: false,
            gag: false,
            source: None,
        }
    }
}

impl Clone for LineFlags {
    fn clone(&self) -> (r: Self)
        ensures
            r == *self,
    {
        LineFlags {
            prompt: self.prompt,
            separate_receives: self.separate_receives,
            screen_clear: self.screen_clear,
            gag: self.gag,
            source: match &self.source {
                Some(s) => Some(s.clone()),
                None => None,
            },
        }
    }
}

/// A line's tag: a key scripts can mask by, and the colour it is shown with.
#[derive(Debug, PartialEq, Eq)]
pub struct LineTag {
    pub key: String,
    pub color: String,
}

impl Clone for LineTag {
    fn clone(&self) -> (r: Self)
        ensures
            r == *self,
    {
        LineTag { key: self.key.clone(), color: self.color.clone() }
    }
}

/// A tag mask: lines whose tag key equals `key` are hidden.
#[derive(Debug, PartialEq, Eq)]
pub struct TagMask {
    pub key: Option<String>,
}

impl Default for TagMask {
    fn default() -> (r: Self)
        ensures
            r.key is None,
    {
        TagMask { key: None }
    }
}

impl Clone for TagMask {
    fn clone(&self) -> (r: Self)
        ensures
            r == *self,
    {
        TagMask {
            key: match &self.key {
                Some(k) => Some(k.clone()),
                None => None,
            },
        }
    }
}

/// Whether `mask` hides a line whose tag key is `key`.
pub open spec fn masks_key(mask: TagMask, key: Seq<char>) -> bool {
    match mask.key {
        Some(k) => k@ == key,
        None => false,
    }
}

/// One step of escape-sequence removal: the text kept so far and the state
/// (0: plain text, 1: just read ESC, 2: inside a CSI sequence).
pub open spec fn clean_state(s: Seq<char>) -> (Seq<char>, int)
    decreases s.len(),
{
    if s.len() == 0 {
        (seq![], 0)
    } else {
        let (out, mode) = clean_state(s.drop_last());
        let c = s.last();
        if mode == 0 {
            if c == '\x1b' {
                (out, 1)
            } else if c == '\r' {
                (out, 0)
            } else {
                (out.push(c), 0)
            }
        } else if mode == 1 {
            if c == '[' {
                (out, 2)
            } else {
                (out, 0)
            }
        } else {
            if '@' <= c && c <= '~' {
                (out, 0)
            } else {
                (out, 2)
            }
        }
    }
}

/// The text of a line without carriage returns and escape sequences
/// (`ESC [ ... final` sequences, and any other `ESC x` pair).
pub open spec fn clean_text(s: Seq<char>) -> Seq<char> {
    clean_state(s).0
}

/// Removes carriage returns and escape sequences.
pub fn clean_chars(s: &[char]) -> (r: Vec<char>)
    ensures
        r@ == clean_text(s@),
{
    let mut out: Vec<char> = Vec::new();
    let mut mode: u8 = 0;
    let mut i: usize = 0;
    while i < s.len()
        invariant
            i <= s.len(),
            out@ == clean_state(s@.take(i as int)).0,
            mode as int == clean_state(s@.take(i as int)).1,
        decreases s.len() - i,
    {
        assert(s@.take(i + 1).drop_last() =~= s@.take(i as int));
        let c = s[i];
        if mode == 0 {
            if c == '\x1b' {
                mode = 1;
            } else if c != '\r' {
                out.push(c);
            }
        } else if mode == 1 {
            if c == '[' {
                mode = 2;
            } else {
                mode = 0;
            }
        } else {
            if '@' <= c && c <= '~' {
                mode = 0;
            }
        }
        i += 1;
    }
    assert(s@.take(s@.len() as int) =~= s@);
    out
}

/// `s` without the carriage returns that end it.
pub open spec fn trim_trailing_cr(s: Seq<char>) -> Seq<char>
    decreases s.len(),
{
    if s.len() > 0 && s.last() == '\r' {
        trim_trailing_cr(s.drop_last())
    } else {
        s
    }
}

/// A line of text with its flags and tag.
#[derive(Debug, PartialEq, Eq)]
pub struct Line {
    pub content: String,
    pub flags: LineFlags,
    pub tag: LineTag,
}

impl Clone for Line {
    fn clone(&self) -> (r: Self)
        ensures
            r == *self,
    {
        Line { content: self.content.clone(), flags: self.flags.clone(), tag: self.tag.clone() }
    }
}

impl Line {
    /// The text of the line.
    pub open spec fn text(&self) -> Seq<char> {
        self.content@
    }

    /// Whether `mask` hides this line.
    pub open spec fn masked_by(&self, mask: TagMask) -> bool {
        masks_key(mask, self.tag.key@)
    }

    /// A line holding `text`, with no flag set and an empty tag.
    pub fn from_str(text: &str) -> (r: Line)
        ensures
            r.text() == text@,
            !r.flags.prompt && !r.flags.separate_receives && !r.flags.screen_clear
                && !r.flags.gag && r.flags.source is None,
            r.tag.key@ == Seq::<char>::empty(),
            r.tag.color@ == Seq::<char>::empty(),
    {
        Line {
            content: text.to_owned(),
            flags: LineFlags::new(),
            tag: LineTag { key: String::new(), color: String::new() },
        }
    }

    /// A line holding `text`.
    pub fn from_string(text: String) -> (r: Line)
        ensures
            r.text() == text@,
            !r.flags.prompt && !r.flags.separate_receives && !r.flags.screen_clear
                && !r.flags.gag && r.flags.source is None,
            r.tag.key@ == Seq::<char>::empty(),
            r.tag.color@ == Seq::<char>::empty(),
    {
        Line {
            content: text,
            flags: LineFlags::new(),
            tag: LineTag { key: String::new(), color: String::new() },
        }
    }

    /// A line holding the characters `text`.
    pub fn from_chars(text: &[char]) -> (r: Line)
        ensures
            r.text() == text@,
            !r.flags.prompt && !r.flags.separate_receives && !r.flags.screen_clear
                && !r.flags.gag && r.flags.source is None,
            r.tag.key@ == Seq::<char>::empty(),
            r.tag.color@ == Seq::<char>::empty(),
    {
        Line::from_string(string_of(text))
    }

    /// A line decoded from received bytes, invalid UTF-8 replaced, without
    /// the carriage returns that end it.
    pub fn from_bytes(bytes: &[u8]) -> (r: Line)
        ensures
            r.text() == trim_trailing_cr(utf8_lossy(bytes@)),
            valid_utf8(bytes@) ==> r.text() == trim_trailing_cr(decode_utf8(bytes@)),
            !r.flags.prompt && !r.flags.separate_receives && !r.flags.screen_clear
                && !r.flags.gag && r.flags.source is None,
            r.tag.key@ == Seq::<char>::empty(),
            r.tag.color@ == Seq::<char>::empty(),
    {
        let decoded = string_from_utf8_lossy(bytes);
        let cs = chars_of(decoded.as_str());
        let mut n: usize = cs.len();
        assert(cs@.take(cs@.len() as int) =~= cs@);
        while n > 0 && cs[n - 1] == '\r'
            invariant
                n <= cs@.len(),
                trim_trailing_cr(cs@.take(n as int)) == trim_trailing_cr(cs@),
            decreases n,
        {
            assert(cs@.take(n as int).drop_last() =~= cs@.take(n - 1));
            n -= 1;
        }
        assert(cs@.subrange(0, n as int) =~= cs@.take(n as int));
        Line::from_string(string_of_range(cs.as_slice(), 0, n))
    }

    /// The text of the line.
    pub fn line(&self) -> (r: &str)
        ensures
            r@ == self.text(),
    {
        self.content.as_str()
    }

    /// The text without carriage returns and escape sequences.
    pub fn clean_line(&self) -> (r: String)
        ensures
            r@ == clean_text(self.text()),
    {
        let cs = chars_of(self.content.as_str());
        let cleaned = clean_chars(cs.as_slice());
        string_of(cleaned.as_slice())
    }

    /// The text to print, unless the line is gagged.
    pub fn print_line(&self) -> (r: Option<&str>)
        ensures
            r is None <==> self.flags.gag,
            r matches Some(s) ==> s@ == self.text(),
    {
        if self.flags.gag {
            None
        } else {
            Some(self.content.as_str())
        }
    }

    /// Whether the line holds no text.
    pub fn is_empty(&self) -> (r: bool)
        ensures
            r == (self.text().len() == 0),
    {
        self.content.as_str().is_empty()
    }

    /// Replaces the text, keeping flags and tag.
    pub fn set_content(&mut self, text: &str)
        ensures
            final(self).text() == text@,
            final(self).flags == old(self).flags,
            final(self).tag == old(self).tag,
    {
        self.content = text.to_owned();
    }

    /// Whether `mask` hides this line.
    pub fn is_masked(&self, mask: &TagMask) -> (r: bool)
        ensures
            r == self.masked_by(*mask),
    {
        match &mask.key {
            Some(k) => *k == self.tag.key,
            None => false,
        }
    }
}

} // verus!
