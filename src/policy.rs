use vstd::prelude::*;

verus! {

/// What to do with an error met during synchronization, as decided by the
/// caller's error policy.
#[derive(Clone, Copy, PartialEq, Eq, Structural, Debug)]
pub enum ErrorHandlingType {
    /// Stop synchronizing.
    Fail,
    /// Skip the current element and continue synchronizing.
    Skip,
    /// Continue as if no error happened.
    Ignore,
}

/// How the engine goes on after an error policy has decided.
#[derive(Clone, Copy, PartialEq, Eq, Structural, Debug)]
pub enum Flow {
    /// Go on with the same piece of work.
    Continue,
    /// Give up the current piece of work and report it as done.
    Abandon,
    /// Stop the whole synchronization and report failure.
    Abort,
}

/// The flow after a failed step of a tree scan (an unreadable entry, or its
/// metadata): the scan itself is the piece of work.
pub open spec fn scan_flow(d: ErrorHandlingType) -> Flow {
    match d {
        ErrorHandlingType::Fail => Flow::Abort,
        ErrorHandlingType::Skip => Flow::Abandon,
        ErrorHandlingType::Ignore => Flow::Continue,
    }
}

/// The flow after a failed file system operation (a copy, a creation, a
/// removal, a time stamp): the entry being settled is the piece of work.
pub open spec fn step_flow(d: ErrorHandlingType) -> Flow {
    match d {
        ErrorHandlingType::Fail => Flow::Abort,
        ErrorHandlingType::Skip | ErrorHandlingType::Ignore => Flow::Abandon,
    }
}

/// During a scan, `Skip` gives up the scan (and with it the work that needed
/// it), `Ignore` leaves the failing entry out and goes on, `Fail` aborts.
pub fn after_scan_error(d: ErrorHandlingType) -> (r: Flow)
    ensures
        r == scan_flow(d),
{
    match d {
        ErrorHandlingType::Fail => Flow::Abort,
        ErrorHandlingType::Skip => Flow::Abandon,
        ErrorHandlingType::Ignore => Flow::Continue,
    }
}

/// For a single operation, `Skip` and `Ignore` both give up the entry being
/// settled and let the run go on with the next one; `Fail` aborts the run.
pub fn after_step_error(d: ErrorHandlingType) -> (r: Flow)
    ensures
        r == step_flow(d),
{
    match d {
        ErrorHandlingType::Fail => Flow::Abort,
        ErrorHandlingType::Skip => Flow::Abandon,
        ErrorHandlingType::Ignore => Flow::Abandon,
    }
}

} // verus!
