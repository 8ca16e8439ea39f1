use vstd::prelude::*;
use crate::coverage::CoverageSignature;

verus! {

/// How one run of the target ended, as the engine judges it.
#[derive(Clone, Copy, Debug, PartialEq, Eq, Structural)]
pub enum RunStatus {
    Completed,
    Crashed,
    TimedOut,
    Killed,
}

/// The signal that ended a crashed run and, where known, the faulting address.
#[derive(Clone, Copy, Debug, PartialEq, Eq, Structural)]
pub struct FaultInfo {
    pub signal: i32,
    pub address: Option<u64>,
}

/// How the unit that hosted the run terminated, as the host reports it.
#[derive(Clone, Copy, Debug, PartialEq, Eq, Structural)]
pub enum HostExit {
    Exited { code: i32 },
    Signaled { signal: i32, address: Option<u64> },
}

/// What the watchdog does about a run that is still going.
#[derive(Clone, Copy, Debug, PartialEq, Eq, Structural)]
pub enum WatchAction {
    Wait,
    Kill,
}

/// The outcome of one run, handed to the feedback evaluator.
pub struct ExecutionResult {
    pub status: RunStatus,
    pub signature: CoverageSignature,
    pub duration_ms: u64,
    pub fault: Option<FaultInfo>,
}

/// The watchdog's decision after `elapsed_ms` of a run with a budget of
/// `budget_ms`: a run is killed as soon as it has overrun its budget.
pub open spec fn watch_spec(elapsed_ms: u64, budget_ms: u64) -> WatchAction {
    if elapsed_ms > budget_ms {
        WatchAction::Kill
    } else {
        WatchAction::Wait
    }
}

/// The status of a finished run. Overrunning the budget decides first; then
/// a kill that the session ordered; then a signal, which is a crash.
pub open spec fn status_spec(exit: HostExit, elapsed_ms: u64, budget_ms: u64, cancelled: bool) -> RunStatus {
    if elapsed_ms > budget_ms {
        RunStatus::TimedOut
    } else if cancelled {
        RunStatus::Killed
    } else {
        match exit {
            HostExit::Exited { .. } => RunStatus::Completed,
            HostExit::Signaled { .. } => RunStatus::Crashed,
        }
    }
}

pub open spec fn fault_spec(exit: HostExit, elapsed_ms: u64, budget_ms: u64, cancelled: bool) -> Option<FaultInfo> {
    match exit {
        HostExit::Signaled { signal, address } => if status_spec(exit, elapsed_ms, budget_ms, cancelled)
            == RunStatus::Crashed {
            Some(FaultInfo { signal, address })
        } else {
            None
        },
        HostExit::Exited { .. } => None,
    }
}

pub fn watch(elapsed_ms: u64, budget_ms: u64) -> (r: WatchAction)
    ensures
        r == watch_spec(elapsed_ms, budget_ms),
{
    if elapsed_ms > budget_ms {
        WatchAction::Kill
    } else {
        WatchAction::Wait
    }
}

pub fn classify(exit: HostExit, elapsed_ms: u64, budget_ms: u64, cancelled: bool) -> (r: RunStatus)
    ensures
        r == status_spec(exit, elapsed_ms, budget_ms, cancelled),
{
    if elapsed_ms > budget_ms {
        RunStatus::TimedOut
    } else if cancelled {
        RunStatus::Killed
    } else {
        match exit {
            HostExit::Exited { .. } => RunStatus::Completed,
            HostExit::Signaled { .. } => RunStatus::Crashed,
        }
    }
}

impl ExecutionResult {
    /// The result of a run that ended with `exit` after `elapsed_ms`, with the
    /// hit counts `hits` that it left in its coverage buffer.
    pub fn from_run(
        exit: HostExit,
        elapsed_ms: u64,
        budget_ms: u64,
        cancelled: bool,
        hits: Vec<u8>,
    ) -> (r: ExecutionResult)
        ensures
            r.status == status_spec(exit, elapsed_ms, budget_ms, cancelled),
            r.fault == fault_spec(exit, elapsed_ms, budget_ms, cancelled),
            r.signature.hits@ == hits@,
            r.duration_ms == elapsed_ms,
    {
        let status = classify(exit, elapsed_ms, budget_ms, cancelled);
        let fault = match exit {
            HostExit::Signaled { signal, address } => if status == RunStatus::Crashed {
                Some(FaultInfo { signal, address })
            } else {
                None
            },
            HostExit::Exited { .. } => None,
        };
        ExecutionResult {
            status,
            signature: CoverageSignature::new(hits),
            duration_ms: elapsed_ms,
            fault,
        }
    }
}

/// A run that overruns its budget is killed by the watchdog at the first
/// check past the budget, and whatever way it then ends it is reported as
/// timed out.
pub proof fn lemma_timeout_enforced(exit: HostExit, elapsed_ms: u64, budget_ms: u64, cancelled: bool)
    requires
        elapsed_ms > budget_ms,
    ensures
        watch_spec(elapsed_ms, budget_ms) == WatchAction::Kill,
        status_spec(exit, elapsed_ms, budget_ms, cancelled) == RunStatus::TimedOut,
        fault_spec(exit, elapsed_ms, budget_ms, cancelled) == None::<FaultInfo>,
{
}

} // verus!
