//! Commands sent to a running download's control socket.

use vstd::prelude::*;
use crate::text::{push_str, string_from_str, trim, trim_vec, chars_of, string_from_chars};

verus! {

#[derive(Debug, Clone, Copy, PartialEq, Eq, Structural)]
pub enum ControlCommand {
    Pause,
    Resume,
    Cancel,
    Status,
}

pub open spec fn wire_text(c: ControlCommand) -> Seq<char> {
    match c {
        ControlCommand::Pause => "pause"@,
        ControlCommand::Resume => "resume"@,
        ControlCommand::Cancel => "cancel"@,
        ControlCommand::Status => "status"@,
    }
}

impl ControlCommand {
    /// The command's word on the wire.
    pub fn wire(self) -> (s: &'static str)
        ensures
            s@ == wire_text(self),
    {
        match self {
            ControlCommand::Pause => "pause",
            ControlCommand::Resume => "resume",
            ControlCommand::Cancel => "cancel",
            ControlCommand::Status => "status",
        }
    }

    /// The line sent for this command: its word and a newline.
    pub fn line(self) -> (s: String)
        ensures
            s@ == wire_text(self) + "\n"@,
    {
        let mut s = string_from_str(self.wire());
        push_str(&mut s, "\n");
        s
    }
}

/// The reply line as it is shown: surrounding whitespace trimmed.
pub fn reply_text(line: &str) -> (s: String)
    ensures
        s@ == trim(line@),
{
    let cs = chars_of(line);
    let t = trim_vec(cs.as_slice());
    string_from_chars(t.as_slice())
}

/// The error shown when no process answers on `socket`.
pub fn unreachable_message(socket: &str, cause: &str) -> (m: String)
    ensures
        m@ == "no live process for "@ + socket@ + " ("@ + cause@ + "); the entry may be stale or dead"@,
{
    let mut m = string_from_str("no live process for ");
    push_str(&mut m, socket);
    push_str(&mut m, " (");
    push_str(&mut m, cause);
    push_str(&mut m, "); the entry may be stale or dead");
    m
}

} // verus!
