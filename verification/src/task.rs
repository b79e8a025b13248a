//! The life of one package-add task, as a state machine: a permit is
//! acquired, the bytes are fetched, verified and written. Any non-terminal
//! state fails on an error and leaves quietly on a cancel; the permit is
//! held from fetching through writing.

use vstd::prelude::*;
use crate::error::MirrorError;

verus! {

/// The state of one package-add task.
pub enum AddTaskState {
    /// Not started; holds no permit.
    Pending,
    /// Permit acquired, fetching the source bytes.
    Fetching,
    /// Bytes fetched, checking them against the declared hash.
    Verifying,
    /// Bytes verified, writing to the destination.
    Writing,
    /// Written; the permit is released.
    Done,
    /// Ended with an error; the permit is released.
    Failed(MirrorError),
    /// Cancelled by a sibling failure; never reported as an error itself.
    Cancelled,
}

/// What can happen to a package-add task.
pub enum AddTaskEvent {
    /// A permit of the global pool became ours.
    PermitAcquired,
    /// The source bytes arrived.
    FetchOk,
    /// The bytes matched the declared hash, or none was declared.
    VerifyOk,
    /// The destination write completed.
    WriteOk,
    /// Fetching, verifying or writing failed.
    Failure(MirrorError),
    /// A sibling failure asks the task to stop.
    Cancel,
}

/// A state no event leaves.
pub open spec fn spec_terminal(s: AddTaskState) -> bool {
    s is Done || s is Failed || s is Cancelled
}

/// The states in which the task holds a permit.
pub open spec fn spec_holds_permit(s: AddTaskState) -> bool {
    s is Fetching || s is Verifying || s is Writing
}

/// The transition table of a package-add task.
pub open spec fn spec_add_step(s: AddTaskState, e: AddTaskEvent) -> AddTaskState {
    if spec_terminal(s) {
        s
    } else {
        match e {
            AddTaskEvent::Failure(k) => AddTaskState::Failed(k),
            AddTaskEvent::Cancel => AddTaskState::Cancelled,
            AddTaskEvent::PermitAcquired => if s is Pending {
                AddTaskState::Fetching
            } else {
                s
            },
            AddTaskEvent::FetchOk => if s is Fetching {
                AddTaskState::Verifying
            } else {
                s
            },
            AddTaskEvent::VerifyOk => if s is Verifying {
                AddTaskState::Writing
            } else {
                s
            },
            AddTaskEvent::WriteOk => if s is Writing {
                AddTaskState::Done
            } else {
                s
            },
        }
    }
}

/// Advances a package-add task by one event.
pub fn add_task_step(s: AddTaskState, e: AddTaskEvent) -> (next: AddTaskState)
    ensures
        next == spec_add_step(s, e),
{
    match s {
        AddTaskState::Done | AddTaskState::Failed(_) | AddTaskState::Cancelled => s,
        _ => match e {
            AddTaskEvent::Failure(k) => AddTaskState::Failed(k),
            AddTaskEvent::Cancel => AddTaskState::Cancelled,
            AddTaskEvent::PermitAcquired => match s {
                AddTaskState::Pending => AddTaskState::Fetching,
                _ => s,
            },
            AddTaskEvent::FetchOk => match s {
                AddTaskState::Fetching => AddTaskState::Verifying,
                _ => s,
            },
            AddTaskEvent::VerifyOk => match s {
                AddTaskState::Verifying => AddTaskState::Writing,
                _ => s,
            },
            AddTaskEvent::WriteOk => match s {
                AddTaskState::Writing => AddTaskState::Done,
                _ => s,
            },
        },
    }
}

/// The permit discipline: a step only ever puts the task in a
/// permit-holding state if it already held one, or the event is the permit
/// grant itself to a pending task.
pub proof fn lemma_permit_discipline(s: AddTaskState, e: AddTaskEvent)
    ensures
        spec_holds_permit(spec_add_step(s, e)) ==> (spec_holds_permit(s) || (s is Pending
            && e is PermitAcquired)),
{
}

} // verus!
