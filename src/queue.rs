use std::collections::VecDeque;
use vstd::prelude::*;

verus! {

/// The one way a submission can fail.
#[derive(Clone, Copy, Debug, PartialEq, Eq, Structural)]
pub enum SubmitError {
    /// The submission side was released; the task was not queued.
    Closed,
}

/// What a dequeue attempt finds.
pub enum Dequeue<T> {
    /// The front task, now removed from the queue.
    Item(T),
    /// No task is pending but more may come: the caller should block.
    Empty,
    /// No task is pending and none will come.
    Closed,
}

/// An unbounded multi-producer queue of pending tasks.
///
/// Besides the pending tasks it records, as ghost state, every task it ever
/// accepted and every task it handed out, in order.
pub struct DispatchQueue<T> {
    pending: VecDeque<T>,
    closed: bool,
    accepted: Ghost<Seq<T>>,
    taken: Ghost<Seq<T>>,
}

impl<T> DispatchQueue<T> {
    /// Tasks queued and not yet handed out, front first.
    pub closed spec fn pending(&self) -> Seq<T> {
        self.pending@
    }

    /// Whether the submission side has been released.
    pub closed spec fn is_closed(&self) -> bool {
        self.closed
    }

    /// Every task ever accepted, in order of acceptance.
    pub closed spec fn accepted(&self) -> Seq<T> {
        self.accepted@
    }

    /// Every task ever handed out, in order of dequeue.
    pub closed spec fn taken(&self) -> Seq<T> {
        self.taken@
    }

    /// What was accepted is exactly what was taken followed by what is pending.
    pub closed spec fn wf(&self) -> bool {
        self.accepted@ == self.taken@ + self.pending@
    }

    /// Every accepted task was either handed out or is still pending, in
    /// order of acceptance.
    pub proof fn lemma_accepted_is_taken_then_pending(&self)
        requires
            self.wf(),
        ensures
            self.accepted() == self.taken() + self.pending(),
    {
    }

    /// An open, empty queue.
    pub fn new() -> (r: Self)
        ensures
            r.wf(),
            !r.is_closed(),
            r.pending() == Seq::<T>::empty(),
            r.accepted() == Seq::<T>::empty(),
            r.taken() == Seq::<T>::empty(),
    {
        DispatchQueue {
            pending: VecDeque::new(),
            closed: false,
            accepted: Ghost(Seq::empty()),
            taken: Ghost(Seq::empty()),
        }
    }

    /// Appends `task` unless the queue is closed. Never blocks.
    pub fn enqueue(&mut self, task: T) -> (r: Result<(), SubmitError>)
        requires
            old(self).wf(),
        ensures
            final(self).wf(),
            old(self).is_closed() ==> r == Err::<(), SubmitError>(SubmitError::Closed)
                && *final(self) == *old(self),
            !old(self).is_closed() ==> r is Ok
                && final(self).pending() == old(self).pending().push(task)
                && final(self).accepted() == old(self).accepted().push(task)
                && final(self).taken() == old(self).taken()
                && !final(self).is_closed(),
    {
        if self.closed {
            return Err(SubmitError::Closed);
        }
        proof {
            assert(self.accepted@.push(task) =~= self.taken@ + self.pending@.push(task));
            self.accepted@ = self.accepted@.push(task);
        }
        self.pending.push_back(task);
        Ok(())
    }

    /// Removes the front task if there is one; otherwise reports whether more
    /// can come.
    pub fn dequeue(&mut self) -> (r: Dequeue<T>)
        requires
            old(self).wf(),
        ensures
            final(self).wf(),
            final(self).is_closed() == old(self).is_closed(),
            final(self).accepted() == old(self).accepted(),
            old(self).pending().len() > 0 ==> r == Dequeue::Item(old(self).pending()[0])
                && final(self).pending() == old(self).pending().drop_first()
                && final(self).taken() == old(self).taken().push(old(self).pending()[0]),
            old(self).pending().len() == 0 ==> final(self).pending() == old(self).pending()
                && final(self).taken() == old(self).taken()
                && (if old(self).is_closed() {
                r is Closed
            } else {
                r is Empty
            }),
    {
        match self.pending.pop_front() {
            Some(task) => {
                proof {
                    let front = old(self).pending@[0];
                    assert(self.taken@.push(front) + self.pending@ =~= old(self).taken@
                        + old(self).pending@);
                    self.taken@ = self.taken@.push(front);
                }
                Dequeue::Item(task)
            },
            None => {
                if self.closed {
                    Dequeue::Closed
                } else {
                    Dequeue::Empty
                }
            },
        }
    }

    /// Releases the submission side: later submissions fail, pending tasks
    /// stay to be drained.
    pub fn close(&mut self)
        requires
            old(self).wf(),
        ensures
            final(self).wf(),
            final(self).is_closed(),
            final(self).pending() == old(self).pending(),
            final(self).accepted() == old(self).accepted(),
            final(self).taken() == old(self).taken(),
    {
        self.closed = true;
    }

    /// Number of tasks waiting to be claimed.
    pub fn pending_len(&self) -> (r: usize)
        ensures
            r == self.pending().len(),
    {
        self.pending.len()
    }

    /// Whether the submission side has been released.
    pub fn closed(&self) -> (r: bool)
        ensures
            r == self.is_closed(),
    {
        self.closed
    }
}

} // verus!
