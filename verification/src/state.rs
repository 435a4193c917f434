//! The overall run as a state machine: discovery produces tasks, the
//! workers drain them, the main flow waits for every worker, and only
//! then is the run done. There is no retry state: nothing ever moves a
//! run backwards.

use vstd::prelude::*;

verus! {

/// The phases of one run, in the order they are passed through.
#[derive(Debug, Clone, Copy, PartialEq, Eq)]
pub enum RunState {
    /// Traversal and opening are still producing scan tasks.
    Discovering,
    /// Every task is submitted; the workers are draining the queue.
    Scanning,
    /// The queue is empty; in-flight scans are being waited for.
    Draining,
    /// Every dispatched scan finished; the process may exit.
    Done,
}

/// The milestones that move a run forward.
#[derive(Debug, Clone, Copy, PartialEq, Eq)]
pub enum RunEvent {
    /// The last discovered file was handed to the pool.
    SubmittedAll,
    /// The pending-task queue became empty.
    QueueDrained,
    /// The last worker finished its scan.
    WorkersJoined,
}

/// How far along a run is; later phases rank higher.
pub open spec fn phase_rank(s: RunState) -> nat {
    match s {
        RunState::Discovering => 0,
        RunState::Scanning => 1,
        RunState::Draining => 2,
        RunState::Done => 3,
    }
}

/// The transition relation of a run: each milestone ends exactly one
/// phase; any other event leaves the phase as it is.
pub open spec fn spec_advance(s: RunState, e: RunEvent) -> RunState {
    match (s, e) {
        (RunState::Discovering, RunEvent::SubmittedAll) => RunState::Scanning,
        (RunState::Scanning, RunEvent::QueueDrained) => RunState::Draining,
        (RunState::Draining, RunEvent::WorkersJoined) => RunState::Done,
        (_, _) => s,
    }
}

/// Advance a run by one observed milestone.
pub fn advance(s: RunState, e: RunEvent) -> (r: RunState)
    ensures
        r == spec_advance(s, e),
{
    match (s, e) {
        (RunState::Discovering, RunEvent::SubmittedAll) => RunState::Scanning,
        (RunState::Scanning, RunEvent::QueueDrained) => RunState::Draining,
        (RunState::Draining, RunEvent::WorkersJoined) => RunState::Done,
        (_, _) => s,
    }
}

/// A run only moves forward: no event — in particular no non-fatal
/// failure — ever returns it to an earlier phase; there is no retry.
pub proof fn lemma_run_never_moves_backwards(s: RunState, e: RunEvent)
    ensures
        phase_rank(spec_advance(s, e)) >= phase_rank(s),
{
}

/// Done is terminal: once every dispatched scan has finished, no event
/// changes the run's phase again.
pub proof fn lemma_done_is_terminal(e: RunEvent)
    ensures
        spec_advance(RunState::Done, e) == RunState::Done,
{
}

} // verus!
