//! The status area between the prompt row and the input: a few lines that
//! scripts fill, framed by bars, and a marker while the view is scrolled
//! back.
use vstd::prelude::*;
use crate::text::{chars_of, is_blank, push_str, spec_is_blank, string_of};

verus! {

/// Fewest status lines.
pub const STATUS_HEIGHT_MIN: u16 = 0;

/// Most status lines.
pub const STATUS_HEIGHT_MAX: u16 = 5;

/// The number of status lines kept for a requested height.
pub open spec fn clamped_height(height: u16) -> int {
    if height < STATUS_HEIGHT_MIN {
        STATUS_HEIGHT_MIN as int
    } else if height > STATUS_HEIGHT_MAX {
        STATUS_HEIGHT_MAX as int
    } else {
        height as int
    }
}

/// `n` empty status lines.
pub open spec fn empty_lines(n: int) -> Seq<Option<String>> {
    Seq::new(n as nat, |i: int| None::<String>)
}

/// The line a request for line `index` addresses: the last one when past
/// the end.
pub open spec fn clamped_index(index: int, len: int) -> int {
    if index < len - 1 {
        index
    } else {
        len - 1
    }
}

/// The text of status line `k` as drawn: the scroll marker on the first
/// line while scrolled back, joined to the line's own text when it has one.
pub open spec fn row_text(lines: Seq<Option<String>>, marker: bool, k: int) -> Seq<char> {
    let prefix = if marker && k == 0 {
        "(more) "@
    } else {
        Seq::<char>::empty()
    };
    match lines[k] {
        Some(custom) => if prefix.len() == 0 {
            custom@
        } else {
            prefix + "━ "@ + custom@ + " "@
        },
        None => prefix,
    }
}

/// What to draw on one status line.
#[derive(Debug, PartialEq, Eq)]
pub struct StatusRow {
    /// The terminal line.
    pub line: usize,
    /// The text.
    pub text: String,
    /// Drawn as a bar (the first and the last line) rather than as plain
    /// text.
    pub bar: bool,
}

pub struct StatusArea {
    start_line: u16,
    width: u16,
    status_lines: Vec<Option<String>>,
    scroll_marker: bool,
}

impl StatusArea {
    /// The status lines, `None` where a line is empty.
    pub closed spec fn lines(&self) -> Seq<Option<String>> {
        self.status_lines@
    }

    /// The terminal line of the first status line.
    pub closed spec fn spec_start(&self) -> int {
        self.start_line as int
    }

    /// Columns of the area.
    pub closed spec fn spec_width(&self) -> int {
        self.width as int
    }

    /// Whether the scroll marker shows.
    pub closed spec fn marker(&self) -> bool {
        self.scroll_marker
    }

    /// An area of `height` empty lines (clamped to the allowed heights)
    /// starting on terminal line `start_line`.
    pub fn new(height: u16, start_line: u16, width: u16) -> (r: StatusArea)
        ensures
            r.lines() == empty_lines(clamped_height(height)),
            r.spec_start() == start_line,
            r.spec_width() == width,
            !r.marker(),
    {
        let n = Self::clamp_height(height);
        StatusArea { start_line, width, status_lines: nones(n), scroll_marker: false }
    }

    /// Shows or hides the scroll marker.
    pub fn set_scroll_marker(&mut self, value: bool)
        ensures
            final(self).marker() == value,
            final(self).lines() == old(self).lines(),
            final(self).spec_start() == old(self).spec_start(),
            final(self).spec_width() == old(self).spec_width(),
    {
        self.scroll_marker = value;
    }

    /// The number of lines kept for a requested height.
    pub fn clamp_height(height: u16) -> (r: usize)
        ensures
            r == clamped_height(height),
    {
        if height < STATUS_HEIGHT_MIN {
            STATUS_HEIGHT_MIN as usize
        } else if height > STATUS_HEIGHT_MAX {
            STATUS_HEIGHT_MAX as usize
        } else {
            height as usize
        }
    }

    /// The line a request for line `index` addresses.
    pub fn clamp_index(&self, index: usize) -> (r: usize)
        requires
            self.lines().len() > 0,
        ensures
            r == clamped_index(index as int, self.lines().len() as int),
    {
        if index < self.status_lines.len() - 1 {
            index
        } else {
            self.status_lines.len() - 1
        }
    }

    /// Empties the area and gives it `height` lines (clamped), starting on
    /// terminal line `start_line`.
    pub fn set_height(&mut self, height: u16, start_line: u16)
        ensures
            final(self).lines() == empty_lines(clamped_height(height)),
            final(self).spec_start() == start_line,
            final(self).spec_width() == old(self).spec_width(),
            final(self).marker() == old(self).marker(),
    {
        let n = Self::clamp_height(height);
        self.status_lines = nones(n);
        self.update_pos(start_line);
    }

    /// Moves the area to start on terminal line `start_line`.
    pub fn update_pos(&mut self, start_line: u16)
        ensures
            final(self).spec_start() == start_line,
            final(self).lines() == old(self).lines(),
            final(self).spec_width() == old(self).spec_width(),
            final(self).marker() == old(self).marker(),
    {
        self.start_line = start_line;
    }

    /// Sets the area's width.
    pub fn set_width(&mut self, width: u16)
        ensures
            final(self).spec_width() == width,
            final(self).lines() == old(self).lines(),
            final(self).spec_start() == old(self).spec_start(),
            final(self).marker() == old(self).marker(),
    {
        self.width = width;
    }

    /// Sets status line `index` (the last one when past the end); a blank
    /// text empties it.
    pub fn set_status_line(&mut self, index: usize, line: String)
        requires
            old(self).lines().len() > 0,
        ensures
            final(self).lines() == old(self).lines().update(
                clamped_index(index as int, old(self).lines().len() as int),
                if spec_is_blank(line@) {
                    None
                } else {
                    Some(line)
                },
            ),
            final(self).spec_start() == old(self).spec_start(),
            final(self).spec_width() == old(self).spec_width(),
            final(self).marker() == old(self).marker(),
    {
        let i = self.clamp_index(index);
        let cs = chars_of(line.as_str());
        let value = if is_blank(cs.as_slice()) {
            None
        } else {
            Some(line)
        };
        self.status_lines.set(i, value);
    }

    /// Empties every status line.
    pub fn clear(&mut self)
        ensures
            final(self).lines() == empty_lines(old(self).lines().len() as int),
            final(self).spec_start() == old(self).spec_start(),
            final(self).spec_width() == old(self).spec_width(),
            final(self).marker() == old(self).marker(),
    {
        self.status_lines = nones(self.status_lines.len());
    }

    /// What to draw for status line `line_no` (the last one when past the
    /// end).
    pub fn row(&self, line_no: usize) -> (r: StatusRow)
        requires
            self.lines().len() > 0,
            self.spec_start() + self.lines().len() <= usize::MAX,
        ensures
            ({
                let k = clamped_index(line_no as int, self.lines().len() as int);
                &&& r.line == self.spec_start() + k
                &&& r.text@ == row_text(self.lines(), self.marker(), k)
                &&& r.bar == (k == 0 || k == self.lines().len() - 1)
            }),
    {
        let k = self.clamp_index(line_no);
        let mut cs: Vec<char> = Vec::new();
        let marked = self.scroll_marker && k == 0;
        if marked {
            push_str(&mut cs, "(more) ");
        }
        match &self.status_lines[k] {
            Some(custom) => {
                if !marked {
                    cs = chars_of(custom.as_str());
                } else {
                    push_str(&mut cs, "━ ");
                    push_str(&mut cs, custom.as_str());
                    push_str(&mut cs, " ");
                }
            },
            None => {},
        }
        proof {
            reveal_strlit("(more) ");
        }
        StatusRow {
            line: self.start_line as usize + k,
            text: string_of(cs.as_slice()),
            bar: k == 0 || k == self.status_lines.len() - 1,
        }
    }

    /// The number of status lines.
    pub fn height(&self) -> (r: u16)
        requires
            self.lines().len() <= u16::MAX,
        ensures
            r == self.lines().len(),
    {
        self.status_lines.len() as u16
    }
}

/// `n` empty lines.
fn nones(n: usize) -> (r: Vec<Option<String>>)
    ensures
        r@ == empty_lines(n as int),
{
    let mut out: Vec<Option<String>> = Vec::new();
    let mut i: usize = 0;
    while i < n
        invariant
            i <= n,
            out@ == empty_lines(i as int),
        decreases n - i,
    {
        out.push(None);
        assert(out@ =~= empty_lines((i + 1) as int));
        i += 1;
    }
    out
}

} // verus!
