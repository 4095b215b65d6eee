//! The decisions of an interactive debugger's command loop: what a command
//! leads to, where a breakpoint goes, and what is remembered of it.

use crate::address::{address_of, number_in, parse_address, parse_decimal};
use crate::debugger_command::{CommandView, DebuggerCommand};
use crate::inferior::Status;
use std::collections::HashMap;
use vstd::prelude::*;
use vstd::string::StrSliceExecFns;

verus! {

broadcast use vstd::std_specs::hash::group_hash_axioms;

/// What the debugger does for a command.
#[derive(Clone, Copy, Debug, PartialEq, Eq, Structural)]
pub enum Step {
    /// Start the program with the command's arguments and let it run. If
    /// `kill_first`, a process is running: kill it before.
    Start { kill_first: bool },
    /// Let the running process run on.
    Resume,
    /// Print the chain of calls of the running process.
    Backtrace,
    /// Say that no process is running.
    NotRunning,
    /// Set a breakpoint where the command says.
    SetBreakpoint,
    /// Leave the debugger. If `kill_first`, a process is running: kill it
    /// before.
    Quit { kill_first: bool },
}

/// The step that a command leads to, given whether a process is running.
pub open spec fn step_for(command: CommandView, running: bool) -> Step {
    match command {
        CommandView::Run(_) => Step::Start { kill_first: running },
        CommandView::Continue => if running {
            Step::Resume
        } else {
            Step::NotRunning
        },
        CommandView::Backtrace => if running {
            Step::Backtrace
        } else {
            Step::NotRunning
        },
        CommandView::Breakpoint(_) => Step::SetBreakpoint,
        CommandView::Quit => Step::Quit { kill_first: running },
    }
}

/// Decides what to do for a command.
pub fn plan(command: &DebuggerCommand, running: bool) -> (step: Step)
    ensures
        step == step_for(command@, running),
{
    match command {
        DebuggerCommand::Run(_) => Step::Start { kill_first: running },
        DebuggerCommand::Continue => if running {
            Step::Resume
        } else {
            Step::NotRunning
        },
        DebuggerCommand::Backtrace => if running {
            Step::Backtrace
        } else {
            Step::NotRunning
        },
        DebuggerCommand::Breakpoint(_) => Step::SetBreakpoint,
        DebuggerCommand::Quit => Step::Quit { kill_first: running },
    }
}

/// Whether a process is still there after it was waited for: it is gone
/// once it has exited.
pub fn survives(status: Status) -> (there: bool)
    ensures
        there == !(status is Exited),
{
    match status {
        Status::Exited(_) => false,
        _ => true,
    }
}

/// Where a breakpoint is asked for.
#[derive(Clone, Copy, Debug, PartialEq, Eq, Structural)]
pub enum BreakTarget {
    /// At an address, given behind a star; none if it cannot be read.
    Address(Option<usize>),
    /// At a line, given by its number.
    Line(usize),
    /// At a function, given by its name: anything else.
    Function,
}

/// The target that a text names.
pub open spec fn target_of(text: Seq<char>) -> BreakTarget {
    if text.len() > 0 && text[0] == '*' {
        BreakTarget::Address(address_of(text.skip(1)))
    } else if number_in(text, 10).is_some() {
        BreakTarget::Line(number_in(text, 10).unwrap())
    } else {
        BreakTarget::Function
    }
}

/// Reads where a breakpoint is asked for.
pub fn break_target(text: &str) -> (target: BreakTarget)
    ensures
        target == target_of(text@),
{
    let length: usize = text.unicode_len();
    if length > 0 && text.get_char(0) == '*' {
        let rest = text.substring_char(1, length);
        assert(rest@ =~= text@.skip(1));
        BreakTarget::Address(parse_address(rest))
    } else {
        match parse_decimal(text) {
            Some(line) => BreakTarget::Line(line),
            None => BreakTarget::Function,
        }
    }
}

/// What comes of a request for a breakpoint.
#[derive(Clone, Copy, Debug, PartialEq, Eq, Structural)]
pub enum Resolution {
    /// The breakpoint goes to this address.
    At(usize),
    /// The address could not be read. This is said, and the breakpoint goes
    /// to address zero.
    InvalidAddress,
    /// No code belongs to the line. This is said, and nothing is set.
    InvalidLine,
    /// No function has the name. The usage is shown, and nothing is set.
    UnknownFunction,
}

/// The resolution of a target. `found` is the address that the debugging
/// symbols give for the line or the function, if they know one.
pub open spec fn resolution_of(target: BreakTarget, found: Option<usize>) -> Resolution {
    match target {
        BreakTarget::Address(Some(address)) => Resolution::At(address),
        BreakTarget::Address(None) => Resolution::InvalidAddress,
        BreakTarget::Line(_) => match found {
            Some(address) => Resolution::At(address),
            None => Resolution::InvalidLine,
        },
        BreakTarget::Function => match found {
            Some(address) => Resolution::At(address),
            None => Resolution::UnknownFunction,
        },
    }
}

/// Resolves a target to an address, with what the debugging symbols found
/// for its line or function.
pub fn resolve(target: BreakTarget, found: Option<usize>) -> (resolution: Resolution)
    ensures
        resolution == resolution_of(target, found),
{
    match target {
        BreakTarget::Address(Some(address)) => Resolution::At(address),
        BreakTarget::Address(None) => Resolution::InvalidAddress,
        BreakTarget::Line(_) => match found {
            Some(address) => Resolution::At(address),
            None => Resolution::InvalidLine,
        },
        BreakTarget::Function => match found {
            Some(address) => Resolution::At(address),
            None => Resolution::UnknownFunction,
        },
    }
}

/// The address that a breakpoint is set at after a resolution, if any.
pub fn breakpoint_address(resolution: Resolution) -> (address: Option<usize>)
    ensures
        address == match resolution {
            Resolution::At(a) => Some(a),
            Resolution::InvalidAddress => Some(0usize),
            _ => None,
        },
{
    match resolution {
        Resolution::At(a) => Some(a),
        Resolution::InvalidAddress => Some(0),
        _ => None,
    }
}

/// The number under which a breakpoint at `address` is announced: the
/// count of the breakpoints so far. A breakpoint that is there already is
/// not announced again.
pub fn announce(breakpoints: &HashMap<usize, u8>, address: usize) -> (number: Option<usize>)
    ensures
        breakpoints@.contains_key(address) ==> number.is_none(),
        !breakpoints@.contains_key(address) ==> number == Some(breakpoints@.len() as usize),
{
    if breakpoints.contains_key(&address) {
        None
    } else {
        Some(breakpoints.len())
    }
}

/// The table after a breakpoint was asked for at `address`. With no process
/// running the address is noted with a zero byte, to be set when a process
/// starts. With one running, `written` is the byte that stood at the
/// address before the breakpoint was written there, or none if writing
/// failed; then nothing is noted.
pub open spec fn noted(
    table: Map<usize, u8>,
    address: usize,
    running: bool,
    written: Option<u8>,
) -> Map<usize, u8> {
    if !running {
        table.insert(address, 0)
    } else {
        match written {
            Some(byte) => table.insert(address, byte),
            None => table,
        }
    }
}

/// Notes a breakpoint in the table. Says whether it was noted.
pub fn note_breakpoint(
    breakpoints: &mut HashMap<usize, u8>,
    address: usize,
    running: bool,
    written: Option<u8>,
) -> (stored: bool)
    ensures
        final(breakpoints)@ == noted(old(breakpoints)@, address, running, written),
        stored == (!running || written.is_some()),
{
    if !running {
        breakpoints.insert(address, 0);
        true
    } else {
        match written {
            Some(byte) => {
                breakpoints.insert(address, byte);
                true
            },
            None => false,
        }
    }
}

} // verus!
