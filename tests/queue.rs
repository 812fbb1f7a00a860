use worker_pool::queue::{Dequeue, DispatchQueue, SubmitError};
use worker_pool::worker::{WorkerEvent, WorkerState};

#[test]
fn queue_is_first_in_first_out() {
    let mut q: DispatchQueue<u8> = DispatchQueue::new();
    assert_eq!(q.enqueue(1), Ok(()));
    assert_eq!(q.enqueue(2), Ok(()));
    assert_eq!(q.pending_len(), 2);
    assert!(matches!(q.dequeue(), Dequeue::Item(1)));
    assert!(matches!(q.dequeue(), Dequeue::Item(2)));
    assert!(matches!(q.dequeue(), Dequeue::Empty));
}

#[test]
fn closed_queue_refuses_and_drains() {
    let mut q: DispatchQueue<u8> = DispatchQueue::new();
    assert_eq!(q.enqueue(5), Ok(()));
    q.close();
    assert!(q.closed());
    assert_eq!(q.enqueue(6), Err(SubmitError::Closed));
    assert!(matches!(q.dequeue(), Dequeue::Item(5)));
    assert!(matches!(q.dequeue(), Dequeue::Closed));
}

#[test]
fn worker_transitions() {
    assert_eq!(WorkerState::Waiting.next(WorkerEvent::Dequeued), Some(WorkerState::Running));
    assert_eq!(WorkerState::Running.next(WorkerEvent::Completed), Some(WorkerState::Waiting));
    assert_eq!(WorkerState::Waiting.next(WorkerEvent::QueueClosed), Some(WorkerState::Stopped));
    assert_eq!(WorkerState::Waiting.next(WorkerEvent::Completed), None);
    assert_eq!(WorkerState::Running.next(WorkerEvent::Dequeued), None);
    assert_eq!(WorkerState::Running.next(WorkerEvent::QueueClosed), None);
}

#[test]
fn stopped_worker_stays_stopped() {
    assert_eq!(WorkerState::Stopped.next(WorkerEvent::Dequeued), None);
    assert_eq!(WorkerState::Stopped.next(WorkerEvent::Completed), None);
    assert_eq!(WorkerState::Stopped.next(WorkerEvent::QueueClosed), None);
}
