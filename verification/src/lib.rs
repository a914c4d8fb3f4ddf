//! A runtime for session-typed concurrent processes.
//!
//! A protocol describes the exact sequence of value exchanges, channel
//! exchanges, branching choices and recursive repetitions two communicating
//! parties must follow.  From a protocol-shaped description of each party
//! this library builds a pair of dual processes and executes them as a
//! cooperative step machine over one-shot channels, tracking every channel
//! endpoint as a linear resource: held in exactly one place, used exactly
//! once.

use vstd::prelude::*;

pub mod channel;
pub mod context;
pub mod executor;
pub mod prism;
pub mod protocol;
pub mod session;
pub mod value;

verus! {

/// How a session run can fail.
///
/// A construction violation is a programmer error in how builders were
/// composed (a slot consumed twice, a context left non-empty at
/// termination); it is fatal.  A protocol violation is a message whose
/// shape does not match the step that consumed it.  A delivery failure
/// means a peer endpoint was dropped, or no task could make progress,
/// before the session completed.
#[derive(Clone, Copy, PartialEq, Eq, Debug)]
pub enum RunError {
    ConstructionViolation,
    ProtocolViolation,
    DeliveryFailure,
    OutOfFuel,
}

} // verus!
