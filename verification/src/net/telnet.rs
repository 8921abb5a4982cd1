//! Telnet prompt handling mode.
use vstd::prelude::*;

verus! {

/// How the server marks prompts.
#[derive(Debug, Clone, Copy, PartialEq, Eq, Structural)]
pub enum TelnetMode {
    /// Prompts end with IAC GA / IAC EOR.
    TerminatedPrompt,
    /// Prompts are whatever is left unterminated in the buffer.
    UnterminatedPrompt,
}

impl Default for TelnetMode {
    fn default() -> (r: Self)
        ensures
            r == TelnetMode::UnterminatedPrompt,
    {
        TelnetMode::UnterminatedPrompt
    }
}

} // verus!
