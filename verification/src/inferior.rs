//! The decisions taken while a traced process is resumed: whether it stands
//! at a breakpoint, and what to do once the instruction under the
//! breakpoint has been stepped over.

use std::collections::HashMap;
use vstd::prelude::*;

verus! {

broadcast use vstd::std_specs::hash::group_hash_axioms;

/// The state of a traced process after it was waited for.
#[derive(Clone, Copy, Debug, PartialEq, Eq, Structural)]
pub enum Status {
    /// Stopped by the signal with this number, at this instruction pointer.
    Stopped(i32, usize),
    /// Exited with this status code.
    Exited(i32),
    /// Killed by the signal with this number.
    Signaled(i32),
}

/// A breakpoint: its address and the byte that stood there before it was
/// set.
pub struct Breakpoint {
    pub address: usize,
    pub saved: u8,
}

/// The breakpoint that a process stopped at `rip` has just run into, if
/// any: the one whose address is the byte before `rip`.
pub open spec fn hit_at(breakpoints: Map<usize, u8>, rip: usize) -> Option<Breakpoint>
    recommends
        rip > 0,
{
    let address = (rip - 1) as usize;
    if breakpoints.contains_key(address) {
        Some(Breakpoint { address, saved: breakpoints[address] })
    } else {
        None
    }
}

/// Looks for the breakpoint that a process stopped at `rip` has just run
/// into. The byte saved with it is to be put back and the instruction run again
/// from the breakpoint's address.
pub fn breakpoint_behind(breakpoints: &HashMap<usize, u8>, rip: usize) -> (hit: Option<Breakpoint>)
    requires
        rip > 0,
    ensures
        hit == hit_at(breakpoints@, rip),
{
    let address: usize = rip - 1;
    match breakpoints.get(&address) {
        Some(saved) => Some(Breakpoint { address, saved: *saved }),
        None => None,
    }
}

/// What follows the single step over the instruction under a breakpoint.
#[derive(Clone, Copy, Debug, PartialEq, Eq, Structural)]
pub enum AfterStep {
    /// The process is gone: report this status.
    Report(Status),
    /// The process stands behind the instruction: set the breakpoint again
    /// and let the process run on.
    RearmAndResume,
}

/// The decision for a status, as a function.
pub open spec fn decision_after(status: Status) -> AfterStep {
    match status {
        Status::Stopped(_, _) => AfterStep::RearmAndResume,
        _ => AfterStep::Report(status),
    }
}

/// Decides what follows the single step over the instruction under a
/// breakpoint, from the status that the step ended with.
pub fn after_single_step(status: Status) -> (next: AfterStep)
    ensures
        next == decision_after(status),
{
    match status {
        Status::Signaled(signal) => AfterStep::Report(Status::Signaled(signal)),
        Status::Exited(code) => AfterStep::Report(Status::Exited(code)),
        Status::Stopped(_, _) => AfterStep::RearmAndResume,
    }
}

} // verus!
