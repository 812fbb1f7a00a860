use vstd::prelude::*;

verus! {

/// Where a worker stands in its life.
#[derive(Clone, Copy, Debug, PartialEq, Eq, Structural)]
pub enum WorkerState {
    /// Blocked on the queue, ready to claim the next task.
    Waiting,
    /// Executing one task on its own thread.
    Running,
    /// The queue was closed and drained; the worker has exited for good.
    Stopped,
}

/// What a worker observes between two states.
#[derive(Clone, Copy, Debug, PartialEq, Eq, Structural)]
pub enum WorkerEvent {
    /// A task was removed from the queue for this worker.
    Dequeued,
    /// The task the worker ran has returned.
    Completed,
    /// The queue reported that no task is pending and none will come.
    QueueClosed,
}

/// The worker's transition relation; `None` where the event cannot happen in
/// that state.
pub open spec fn transition(s: WorkerState, e: WorkerEvent) -> Option<WorkerState> {
    match (s, e) {
        (WorkerState::Waiting, WorkerEvent::Dequeued) => Some(WorkerState::Running),
        (WorkerState::Running, WorkerEvent::Completed) => Some(WorkerState::Waiting),
        (WorkerState::Waiting, WorkerEvent::QueueClosed) => Some(WorkerState::Stopped),
        _ => None,
    }
}

impl WorkerState {
    /// The state after `e`, or `None` where `e` cannot happen in this state.
    pub fn next(self, e: WorkerEvent) -> (r: Option<WorkerState>)
        ensures
            r == transition(self, e),
    {
        match (self, e) {
            (WorkerState::Waiting, WorkerEvent::Dequeued) => Some(WorkerState::Running),
            (WorkerState::Running, WorkerEvent::Completed) => Some(WorkerState::Waiting),
            (WorkerState::Waiting, WorkerEvent::QueueClosed) => Some(WorkerState::Stopped),
            _ => None,
        }
    }
}

/// Nothing leaves the stopped state.
pub proof fn lemma_stopped_is_terminal(e: WorkerEvent)
    ensures
        transition(WorkerState::Stopped, e) is None,
{
}

} // verus!
