//! A screen for running without a terminal: every operation succeeds and
//! output is reported as plain tagged lines.
use vstd::prelude::*;
use crate::model::{Line, Pattern};
use crate::text::push_str;
use crate::text::string_of;
use crate::ui::history::History;
use crate::ui::user_interface::{UiError, UserInterface};

verus! {

/// The headless screen has no state.
#[derive(Debug, PartialEq, Eq, Structural)]
pub struct HeadlessScreen {}

/// `tag` followed by a space and `text`.
pub open spec fn tagged(tag: Seq<char>, text: Seq<char>) -> Seq<char> {
    tag + seq![' '] + text
}

fn tagged_line(tag: &str, text: &str) -> (r: String)
    ensures
        r@ == tagged(tag@, text@),
{
    let mut cs: Vec<char> = Vec::new();
    push_str(&mut cs, tag);
    cs.push(' ');
    push_str(&mut cs, text);
    string_of(cs.as_slice())
}

impl HeadlessScreen {
    /// The line reported for an error message.
    pub fn print_error(&mut self, output: &str) -> (r: String)
        ensures
            r@ == tagged("[!!]"@, output@),
    {
        tagged_line("[!!]", output)
    }

    /// The line reported for an informational message.
    pub fn print_info(&mut self, output: &str) -> (r: String)
        ensures
            r@ == tagged("[**]"@, output@),
    {
        tagged_line("[**]", output)
    }

    /// The line reported for a line of game output.
    pub fn print_output(&mut self, line: &Line) -> (r: String)
        ensures
            r@ == tagged("[<<]"@, line.text()),
    {
        tagged_line("[<<]", line.line())
    }

    /// The line reported for a prompt.
    pub fn print_prompt(&mut self, prompt: &Line) -> (r: String)
        ensures
            r@ == tagged("[%%]"@, prompt.text()),
    {
        tagged_line("[%%]", prompt.line())
    }

    /// The line reported for sent input; nothing for a gagged line.
    pub fn print_send(&mut self, send: &Line) -> (r: Option<String>)
        ensures
            r is None <==> send.flags.gag,
            r matches Some(s) ==> s@ == tagged("[>>]"@, send.text()),
    {
        match send.print_line() {
            Some(text) => Some(tagged_line("[>>]", text)),
            None => None,
        }
    }

    /// The input line is not shown.
    pub fn print_prompt_input(&mut self, input: &str, pos: usize)
        ensures
            *final(self) == *old(self),
    {
    }

    /// A headless screen cannot be torn down to hand its writer back.
    pub fn destroy(self) -> (r: Result<History, UiError>)
        ensures
            r matches Err(e) && e.message@ == "Can't destroy a headless ui"@,
    {
        Err(UiError { message: "Can't destroy a headless ui".to_owned() })
    }
}

impl UserInterface for HeadlessScreen {
    fn setup(&mut self) -> (r: Result<(), UiError>)
        ensures
            r is Ok,
    {
        Ok(())
    }

    fn reset(&mut self) -> (r: Result<(), UiError>)
        ensures
            r is Ok,
    {
        Ok(())
    }

    fn reset_scroll(&mut self) -> (r: Result<(), UiError>)
        ensures
            r is Ok,
    {
        Ok(())
    }

    fn scroll_down(&mut self) -> (r: Result<(), UiError>)
        ensures
            r is Ok,
    {
        Ok(())
    }

    fn scroll_lock(&mut self, lock: bool) -> (r: Result<(), UiError>)
        ensures
            r is Ok,
    {
        Ok(())
    }

    fn scroll_to(&mut self, row: usize) -> (r: Result<(), UiError>)
        ensures
            r is Ok,
    {
        Ok(())
    }

    fn scroll_top(&mut self) -> (r: Result<(), UiError>)
        ensures
            r is Ok,
    {
        Ok(())
    }

    fn scroll_up(&mut self) -> (r: Result<(), UiError>)
        ensures
            r is Ok,
    {
        Ok(())
    }

    fn find_up(&mut self, pattern: &Pattern) -> (r: Result<(), UiError>)
        ensures
            r is Ok,
    {
        Ok(())
    }

    fn find_down(&mut self, pattern: &Pattern) -> (r: Result<(), UiError>)
        ensures
            r is Ok,
    {
        Ok(())
    }

    fn set_host(&mut self, host: &str, port: u16) -> (r: Result<(), UiError>)
        ensures
            r is Ok,
    {
        Ok(())
    }

    fn add_tag(&mut self, proto: &str) -> (r: Result<(), UiError>)
        ensures
            r is Ok,
    {
        Ok(())
    }

    fn remove_tag(&mut self, proto: &str) -> (r: Result<(), UiError>)
        ensures
            r is Ok,
    {
        Ok(())
    }

    fn clear_tags(&mut self) -> (r: Result<(), UiError>)
        ensures
            r is Ok,
    {
        Ok(())
    }

    fn set_status_area_height(&mut self, height: u16) -> (r: Result<(), UiError>)
        ensures
            r is Ok,
    {
        Ok(())
    }

    fn set_status_line(&mut self, line: usize, info: String) -> (r: Result<(), UiError>)
        ensures
            r is Ok,
    {
        Ok(())
    }

    fn width(&self) -> (r: u16)
        ensures
            r == 0,
    {
        0
    }

    fn height(&self) -> (r: u16)
        ensures
            r == 0,
    {
        0
    }
}

} // verus!
