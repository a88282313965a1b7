//! Pause, resume and cancel: the two flags a running download is steered
//! by, and the line protocol of its control socket.

use vstd::prelude::*;
use crate::text::{chars_eq_str, chars_of, debug_quoted, debug_quoted_of, push_str, string_from_str, trim, trim_vec};

verus! {

/// The steering flags of one download. Cancelling is final: nothing clears it.
#[derive(Debug, Clone, Copy, PartialEq, Eq, Structural)]
pub struct ControlState {
    paused: bool,
    cancelled: bool,
}

impl ControlState {
    pub closed spec fn spec_paused(self) -> bool {
        self.paused
    }

    pub closed spec fn spec_cancelled(self) -> bool {
        self.cancelled
    }

    /// Neither paused nor cancelled.
    pub fn new() -> (s: ControlState)
        ensures
            !s.spec_paused(),
            !s.spec_cancelled(),
    {
        ControlState { paused: false, cancelled: false }
    }

    pub fn pause(&mut self)
        ensures
            final(self).spec_paused(),
            final(self).spec_cancelled() == old(self).spec_cancelled(),
    {
        self.paused = true;
    }

    pub fn resume(&mut self)
        ensures
            !final(self).spec_paused(),
            final(self).spec_cancelled() == old(self).spec_cancelled(),
    {
        self.paused = false;
    }

    pub fn cancel(&mut self)
        ensures
            final(self).spec_cancelled(),
            final(self).spec_paused() == old(self).spec_paused(),
    {
        self.cancelled = true;
    }

    pub fn is_paused(&self) -> (b: bool)
        ensures
            b == self.spec_paused(),
    {
        self.paused
    }

    pub fn is_cancelled(&self) -> (b: bool)
        ensures
            b == self.spec_cancelled(),
    {
        self.cancelled
    }

    /// Whether a worker parked while paused may go on: the download was
    /// resumed or cancelled.
    pub fn pause_is_over(&self) -> (b: bool)
        ensures
            b == (!self.spec_paused() || self.spec_cancelled()),
    {
        !self.paused || self.cancelled
    }
}

/// One command line of the control socket, as it arrives.
#[derive(Debug, Clone, Copy, PartialEq, Eq, Structural)]
pub enum SocketCommand {
    Pause,
    Resume,
    Cancel,
    Status,
    Unknown,
}

/// The command a line names once surrounding whitespace is trimmed.
pub open spec fn spec_socket_command(line: Seq<char>) -> SocketCommand {
    let t = trim(line);
    if t == "pause"@ {
        SocketCommand::Pause
    } else if t == "resume"@ {
        SocketCommand::Resume
    } else if t == "cancel"@ {
        SocketCommand::Cancel
    } else if t == "status"@ {
        SocketCommand::Status
    } else {
        SocketCommand::Unknown
    }
}

/// The state after a command: pause, resume and cancel set their flag, the
/// rest leave the state alone.
pub open spec fn spec_apply(s: ControlState, c: SocketCommand) -> (bool, bool) {
    match c {
        SocketCommand::Pause => (true, s.spec_cancelled()),
        SocketCommand::Resume => (false, s.spec_cancelled()),
        SocketCommand::Cancel => (s.spec_paused(), true),
        _ => (s.spec_paused(), s.spec_cancelled()),
    }
}

/// The reply to a line, given the state after the command took effect.
pub open spec fn spec_reply(line: Seq<char>, paused: bool, cancelled: bool) -> Seq<char> {
    match spec_socket_command(line) {
        SocketCommand::Status => if cancelled {
            "cancelled\n"@
        } else if paused {
            "paused\n"@
        } else {
            "running\n"@
        },
        SocketCommand::Unknown => "error unknown command "@ + debug_quoted_of(trim(line)) + "\n"@,
        _ => "ok\n"@,
    }
}

/// Carries out one line received on the control socket and returns the
/// reply to send back.
pub fn answer_line(state: &mut ControlState, line: &str) -> (reply: String)
    ensures
        (final(state).spec_paused(), final(state).spec_cancelled()) == spec_apply(
            *old(state),
            spec_socket_command(line@),
        ),
        reply@ == spec_reply(line@, final(state).spec_paused(), final(state).spec_cancelled()),
{
    let cs = chars_of(line);
    let t = trim_vec(cs.as_slice());
    if chars_eq_str(t.as_slice(), "pause") {
        state.pause();
        string_from_str("ok\n")
    } else if chars_eq_str(t.as_slice(), "resume") {
        state.resume();
        string_from_str("ok\n")
    } else if chars_eq_str(t.as_slice(), "cancel") {
        state.cancel();
        string_from_str("ok\n")
    } else if chars_eq_str(t.as_slice(), "status") {
        if state.is_cancelled() {
            string_from_str("cancelled\n")
        } else if state.is_paused() {
            string_from_str("paused\n")
        } else {
            string_from_str("running\n")
        }
    } else {
        let mut reply = string_from_str("error unknown command ");
        let name = crate::text::string_from_chars(t.as_slice());
        let quoted = debug_quoted(name.as_str());
        push_str(&mut reply, quoted.as_str());
        push_str(&mut reply, "\n");
        reply
    }
}

/// The flags after a whole sequence of commands.
pub open spec fn apply_all(paused: bool, cancelled: bool, cmds: Seq<SocketCommand>) -> (bool, bool)
    decreases cmds.len(),
{
    if cmds.len() == 0 {
        (paused, cancelled)
    } else {
        let next = match cmds[0] {
            SocketCommand::Pause => (true, cancelled),
            SocketCommand::Resume => (false, cancelled),
            SocketCommand::Cancel => (paused, true),
            _ => (paused, cancelled),
        };
        apply_all(next.0, next.1, cmds.drop_first())
    }
}

/// Cancelling is final: after a cancel, no sequence of commands makes the
/// download uncancelled, so its status reads `cancelled` from then on.
pub proof fn lemma_cancel_is_final(paused: bool, cmds: Seq<SocketCommand>)
    ensures
        apply_all(paused, true, cmds).1,
    decreases cmds.len(),
{
    if cmds.len() > 0 {
        let next_paused = match cmds[0] {
            SocketCommand::Pause => true,
            SocketCommand::Resume => false,
            _ => paused,
        };
        lemma_cancel_is_final(next_paused, cmds.drop_first());
    }
}

} // verus!
