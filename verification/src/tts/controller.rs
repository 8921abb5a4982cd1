//! What the speech thread does with each request: queue bookkeeping, and
//! what is handed to the speech engine.
use vstd::prelude::*;
use crate::tts::speech_queue::{
    flushed, has_alnum, input_pushed, moved_next, moved_prev, pushed, read_current, sat_sub,
    scanned_back, scanned_forward, SpeechQueue,
};
use crate::text::{push_str, string_of};

verus! {

/// A request to the speech thread (those that carry no speech rate).
#[derive(Debug, PartialEq, Eq)]
pub enum TtsCommand {
    /// Queue a message, speaking it now when `force` is set or the reader
    /// had caught up.
    Speak(String, bool),
    /// Queue the user's input.
    SpeakInput(String),
    /// Speak at once, bypassing the queue.
    SpeakDirect(String),
    Flush,
    KeyPress(char),
    Next(usize),
    Prev(usize),
    ScanBack(usize),
    ScanForward(usize),
    Begin,
    End,
    Shutdown,
}

/// What the speech engine is to do.
#[derive(Debug, PartialEq, Eq)]
pub enum TtsAction {
    Nothing,
    Speak { text: String, interrupt: bool },
    SpeakKey(char),
    /// Stop speaking.
    Stop,
    /// Stop speaking and end the speech thread.
    Shutdown,
}

/// Speaking `r`, if there is anything to speak.
pub open spec fn speak_opt(r: Option<String>, interrupt: bool) -> TtsAction {
    match r {
        Some(t) => TtsAction::Speak { text: t, interrupt },
        None => TtsAction::Nothing,
    }
}

/// Speaking a scanned message, announcing an empty one as "blank".
pub open spec fn speak_scanned(r: Option<String>, blank: String) -> TtsAction {
    match r {
        Some(t) => if t@.len() == 0 {
            TtsAction::Speak { text: blank, interrupt: true }
        } else {
            TtsAction::Speak { text: t, interrupt: true }
        },
        None => TtsAction::Nothing,
    }
}

/// Whether the queue can carry out `cmd` (the bounds the queue's own
/// operations need).
pub open spec fn command_fits(q: SpeechQueue, cmd: TtsCommand) -> bool {
    &&& q.wf()
    &&& q.spec_capacity() > 0
    &&& q.scanning() < usize::MAX
    &&& match cmd {
        TtsCommand::Next(step) => q.reading() + step <= usize::MAX,
        TtsCommand::End => q.reading() + 1 <= usize::MAX,
        TtsCommand::Prev(step) => step <= i32::MAX && sat_sub(q.reading(), step as int)
            < q.messages().len(),
        TtsCommand::ScanBack(step) => step <= i32::MAX && q.scanning() <= i32::MAX && sat_sub(
            q.scanning(),
            step as int,
        ) < q.messages().len(),
        TtsCommand::ScanForward(step) => q.scanning() + step <= usize::MAX,
        _ => true,
    }
}

/// Whether `queue` can take `cmd` (see `command_fits`); where it cannot,
/// handling the request would read past the queue or overflow a position.
pub fn command_fits_now(queue: &SpeechQueue, cmd: &TtsCommand) -> (r: bool)
    requires
        queue.wf(),
    ensures
        r == command_fits(*queue, *cmd),
{
    let reading = queue.index();
    let scanning = queue.scan_index();
    let len = queue.len();
    if queue.capacity() == 0 || scanning == usize::MAX {
        return false;
    }
    match cmd {
        TtsCommand::Next(step) => *step <= usize::MAX - reading,
        TtsCommand::End => reading < usize::MAX,
        TtsCommand::Prev(step) => {
            *step <= i32::MAX as usize && (if reading >= *step {
                reading - *step
            } else {
                0
            }) < len
        },
        TtsCommand::ScanBack(step) => {
            *step <= i32::MAX as usize && scanning <= i32::MAX as usize && (if scanning >= *step {
                scanning - *step
            } else {
                0
            }) < len
        },
        TtsCommand::ScanForward(step) => *step <= usize::MAX - scanning,
        _ => true,
    }
}

/// Handles one request on the speech queue and says what the speech
/// engine is to do: queued messages are spoken as the queue decides,
/// reading and scanning speak the message they reach (scanning announces
/// an empty one as "blank"), a flush or shutdown stops the engine.
pub fn tts_step(queue: &mut SpeechQueue, cmd: TtsCommand) -> (r: TtsAction)
    requires
        command_fits(*old(queue), cmd),
    ensures
        final(queue).wf(),
        match cmd {
            TtsCommand::Speak(msg, force) => exists|x: Option<String>|
                pushed(*old(queue), *final(queue), msg, force, x) && r == speak_opt(x, force),
            TtsCommand::SpeakInput(msg) => input_pushed(*old(queue), *final(queue), msg) && r
                == TtsAction::Nothing,
            TtsCommand::SpeakDirect(msg) => *final(queue) == *old(queue) && r == if msg@.len() > 0 {
                TtsAction::Speak { text: msg, interrupt: true }
            } else {
                TtsAction::Nothing
            },
            TtsCommand::Next(step) => exists|x: Option<String>|
                moved_next(*old(queue), *final(queue), step, x) && r == speak_opt(x, true),
            TtsCommand::End => exists|x: Option<String>|
                moved_next(*old(queue), *final(queue), 1, x) && r == speak_opt(x, true),
            TtsCommand::Prev(step) => exists|x: Option<String>|
                moved_prev(*old(queue), *final(queue), step, x) && r == speak_opt(x, true),
            TtsCommand::Begin => exists|x: Option<String>|
                read_current(*old(queue), *final(queue), x) && r == speak_opt(x, true),
            TtsCommand::ScanBack(step) => exists|x: Option<String>, blank: String|
                scanned_back(*old(queue), *final(queue), step, x) && blank@ == "blank"@ && r
                    == speak_scanned(x, blank),
            TtsCommand::ScanForward(step) => exists|x: Option<String>, blank: String|
                scanned_forward(*old(queue), *final(queue), step, x) && blank@ == "blank"@ && r
                    == speak_scanned(x, blank),
            TtsCommand::Flush => flushed(*old(queue), *final(queue)) && r == TtsAction::Stop,
            TtsCommand::Shutdown => *final(queue) == *old(queue) && r == TtsAction::Shutdown,
            TtsCommand::KeyPress(c) => *final(queue) == *old(queue) && r == TtsAction::SpeakKey(c),
        },
{
    match cmd {
        TtsCommand::Speak(msg, force) => {
            let x = queue.push(msg, force);
            speak_with(x, force)
        },
        TtsCommand::SpeakInput(msg) => {
            queue.push_input(msg);
            TtsAction::Nothing
        },
        TtsCommand::SpeakDirect(msg) => {
            if msg.as_str().is_empty() {
                TtsAction::Nothing
            } else {
                TtsAction::Speak { text: msg, interrupt: true }
            }
        },
        TtsCommand::Next(step) => speak_now(queue.next(step)),
        TtsCommand::End => speak_now(queue.next(1)),
        TtsCommand::Prev(step) => speak_now(queue.prev(step)),
        TtsCommand::Begin => speak_now(queue.current()),
        TtsCommand::ScanBack(step) => speak_scan(queue.scan_back(step)),
        TtsCommand::ScanForward(step) => speak_scan(queue.scan_forward(step)),
        TtsCommand::Flush => {
            queue.flush();
            TtsAction::Stop
        },
        TtsCommand::Shutdown => TtsAction::Shutdown,
        TtsCommand::KeyPress(c) => TtsAction::SpeakKey(c),
    }
}

/// Speaking a message, if there is one.
fn speak_with(x: Option<String>, interrupt: bool) -> (r: TtsAction)
    ensures
        r == speak_opt(x, interrupt),
{
    match x {
        Some(t) => TtsAction::Speak { text: t, interrupt },
        None => TtsAction::Nothing,
    }
}

/// Speaking a message at once, if there is one.
fn speak_now(x: Option<String>) -> (r: TtsAction)
    ensures
        r == speak_opt(x, true),
{
    speak_with(x, true)
}

/// Speaking a scanned message, "blank" for an empty one.
fn speak_scan(x: Option<String>) -> (r: TtsAction)
    ensures
        exists|blank: String| blank@ == "blank"@ && r == speak_scanned(x, blank),
{
    let blank = "blank".to_owned();
    let ghost b = blank;
    let ghost xx = x;
    let r = match x {
        Some(t) => if t.as_str().is_empty() {
            TtsAction::Speak { text: blank, interrupt: true }
        } else {
            TtsAction::Speak { text: t, interrupt: true }
        },
        None => TtsAction::Nothing,
    };
    assert(r == speak_scanned(xx, b));
    r
}

/// What is spoken when the user sends `line`: the trimmed input, or that it
/// was blank.
pub open spec fn input_announcement(trimmed: Seq<char>) -> Seq<char> {
    if trimmed.len() == 0 {
        "input: blank"@
    } else {
        "input: "@ + trimmed
    }
}

/// The announcement for sent input, given the input with surrounding white
/// space removed.
pub fn announce_input(trimmed: &str) -> (r: String)
    ensures
        r@ == input_announcement(trimmed@),
{
    if trimmed.is_empty() {
        "input: blank".to_owned()
    } else {
        let mut cs: Vec<char> = Vec::new();
        push_str(&mut cs, "input: ");
        push_str(&mut cs, trimmed);
        string_of(cs.as_slice())
    }
}

/// An informational message as spoken.
pub fn announce_info(msg: &str) -> (r: String)
    ensures
        r@ == "info: "@ + msg@,
{
    let mut cs: Vec<char> = Vec::new();
    push_str(&mut cs, "info: ");
    push_str(&mut cs, msg);
    string_of(cs.as_slice())
}

/// An error message as spoken.
pub fn announce_error(msg: &str) -> (r: String)
    ensures
        r@ == "error: "@ + msg@,
{
    let mut cs: Vec<char> = Vec::new();
    push_str(&mut cs, "error: ");
    push_str(&mut cs, msg);
    string_of(cs.as_slice())
}

} // verus!
