use crate::queue::{Dequeue, DispatchQueue, SubmitError};
use crate::worker::{transition, WorkerEvent, WorkerState};
use vstd::prelude::*;

verus! {

/// What a worker is told to do after asking for work.
pub enum Claim<T> {
    /// The claimed task, to be executed; the worker has moved to `Running`.
    Run(T),
    /// Nothing is pending yet: block until a submission or a close.
    Wait,
    /// The queue is closed and drained: exit; the worker is now `Stopped`.
    Exit,
}

/// Number of workers in `s` that are running a task.
pub open spec fn running_count(s: Seq<WorkerState>) -> nat
    decreases s.len(),
{
    if s.len() == 0 {
        0
    } else {
        running_count(s.drop_last()) + if s.last() is Running {
            1nat
        } else {
            0nat
        }
    }
}

/// The state of a pool of a fixed number of workers around one shared queue.
///
/// Every operation of the pool is a method here, to be called under one lock.
/// Ghost state records, for each task ever handed out, the worker that took
/// it, and how many tasks have returned.
pub struct PoolCore<T> {
    queue: DispatchQueue<T>,
    workers: Vec<WorkerState>,
    claimed_by: Ghost<Seq<nat>>,
    completed: Ghost<nat>,
}

impl<T> PoolCore<T> {
    /// Tasks queued and not yet claimed, front first.
    pub closed spec fn pending(&self) -> Seq<T> {
        self.queue.pending()
    }

    /// Every task ever accepted, in order of submission.
    pub closed spec fn accepted(&self) -> Seq<T> {
        self.queue.accepted()
    }

    /// Every task ever claimed by a worker, in order of claim.
    pub closed spec fn taken(&self) -> Seq<T> {
        self.queue.taken()
    }

    /// For the k-th claimed task, the index of the worker that claimed it.
    pub closed spec fn claimed_by(&self) -> Seq<nat> {
        self.claimed_by@
    }

    /// How many claimed tasks have returned.
    pub closed spec fn completed(&self) -> nat {
        self.completed@
    }

    /// The state of each worker, by index.
    pub closed spec fn workers(&self) -> Seq<WorkerState> {
        self.workers@
    }

    /// Whether the submission side has been released.
    pub closed spec fn is_closed(&self) -> bool {
        self.queue.is_closed()
    }

    pub closed spec fn wf(&self) -> bool {
        &&& self.queue.wf()
        &&& self.claimed_by@.len() == self.queue.taken().len()
        &&& forall|k: int|
            0 <= k < self.claimed_by@.len() ==> #[trigger] self.claimed_by@[k]
                < self.workers@.len()
        &&& self.queue.taken().len() == self.completed@ + running_count(self.workers@)
        &&& forall|i: int|
            0 <= i < self.workers@.len() && #[trigger] self.workers@[i] is Stopped
                ==> self.queue.is_closed() && self.queue.pending().len() == 0
    }

    /// A pool of `worker_count` waiting workers around an open, empty queue.
    pub fn new(worker_count: usize) -> (r: Self)
        ensures
            r.wf(),
            !r.is_closed(),
            r.workers() == Seq::new(worker_count as nat, |i: int| WorkerState::Waiting),
            r.pending() == Seq::<T>::empty(),
            r.accepted() == Seq::<T>::empty(),
            r.taken() == Seq::<T>::empty(),
            r.completed() == 0,
    {
        let mut workers: Vec<WorkerState> = Vec::new();
        let mut i: usize = 0;
        while i < worker_count
            invariant
                i <= worker_count,
                workers@ == Seq::new(i as nat, |j: int| WorkerState::Waiting),
            decreases worker_count - i,
        {
            workers.push(WorkerState::Waiting);
            i = i + 1;
            assert(workers@ =~= Seq::new(i as nat, |j: int| WorkerState::Waiting));
        }
        let r = PoolCore {
            queue: DispatchQueue::new(),
            workers,
            claimed_by: Ghost(Seq::empty()),
            completed: Ghost(0),
        };
        proof {
            lemma_running_count_none(r.workers@);
        }
        r
    }

    /// Queues `task` for the next waiting worker, unless the pool is closed.
    /// Never blocks; the workers' states are untouched.
    pub fn submit(&mut self, task: T) -> (r: Result<(), SubmitError>)
        requires
            old(self).wf(),
        ensures
            final(self).wf(),
            final(self).workers() == old(self).workers(),
            final(self).claimed_by() == old(self).claimed_by(),
            final(self).completed() == old(self).completed(),
            final(self).taken() == old(self).taken(),
            final(self).is_closed() == old(self).is_closed(),
            old(self).is_closed() ==> r == Err::<(), SubmitError>(SubmitError::Closed)
                && final(self).pending() == old(self).pending()
                && final(self).accepted() == old(self).accepted(),
            !old(self).is_closed() ==> r is Ok
                && final(self).pending() == old(self).pending().push(task)
                && final(self).accepted() == old(self).accepted().push(task),
    {
        self.queue.enqueue(task)
    }

    /// Worker `w`, waiting, asks for work. It gets the front task and starts
    /// running; or, with nothing pending, it waits while the queue is open and
    /// stops once it is closed.
    pub fn claim(&mut self, w: usize) -> (r: Claim<T>)
        requires
            old(self).wf(),
            w < old(self).workers().len(),
            old(self).workers()[w as int] is Waiting,
        ensures
            final(self).wf(),
            final(self).accepted() == old(self).accepted(),
            final(self).completed() == old(self).completed(),
            final(self).is_closed() == old(self).is_closed(),
            old(self).pending().len() > 0 ==> r == Claim::Run(old(self).pending()[0])
                && final(self).pending() == old(self).pending().drop_first()
                && final(self).taken() == old(self).taken().push(old(self).pending()[0])
                && final(self).claimed_by() == old(self).claimed_by().push(w as nat)
                && final(self).workers() == old(self).workers().update(
                w as int,
                WorkerState::Running,
            ),
            old(self).pending().len() == 0 ==> final(self).pending() == old(self).pending()
                && final(self).taken() == old(self).taken()
                && final(self).claimed_by() == old(self).claimed_by(),
            old(self).pending().len() == 0 && old(self).is_closed() ==> r is Exit
                && final(self).workers() == old(self).workers().update(
                w as int,
                WorkerState::Stopped,
            ),
            old(self).pending().len() == 0 && !old(self).is_closed() ==> r is Wait
                && final(self).workers() == old(self).workers(),
    {
        match self.queue.dequeue() {
            Dequeue::Item(task) => {
                let ghost ws = self.workers@;
                let event = WorkerEvent::Dequeued;
                if let Some(s) = self.workers[w].next(event) {
                    self.workers.set(w, s);
                }
                proof {
                    assert(transition(WorkerState::Waiting, event) == Some(WorkerState::Running));
                    lemma_running_count_update(ws, w as int, WorkerState::Running);
                    self.claimed_by@ = self.claimed_by@.push(w as nat);
                    assert forall|k: int| 0 <= k < self.claimed_by@.len() implies #[trigger]
                        self.claimed_by@[k] < self.workers@.len() by {
                        if k < old(self).claimed_by@.len() {
                            assert(self.claimed_by@[k] == old(self).claimed_by@[k]);
                        }
                    }
                    assert forall|i: int|
                        0 <= i < self.workers@.len()
                            && #[trigger] self.workers@[i] is Stopped implies false by {
                        assert(ws[i] is Stopped);
                    }
                }
                Claim::Run(task)
            },
            Dequeue::Empty => Claim::Wait,
            Dequeue::Closed => {
                let ghost ws = self.workers@;
                let event = WorkerEvent::QueueClosed;
                if let Some(s) = self.workers[w].next(event) {
                    self.workers.set(w, s);
                }
                proof {
                    assert(transition(WorkerState::Waiting, event) == Some(WorkerState::Stopped));
                    lemma_running_count_update(ws, w as int, WorkerState::Stopped);
                }
                Claim::Exit
            },
        }
    }

    /// Worker `w`'s task has returned: it waits for work again.
    pub fn finish(&mut self, w: usize)
        requires
            old(self).wf(),
            w < old(self).workers().len(),
            old(self).workers()[w as int] is Running,
        ensures
            final(self).wf(),
            final(self).workers() == old(self).workers().update(w as int, WorkerState::Waiting),
            final(self).completed() == old(self).completed() + 1,
            final(self).pending() == old(self).pending(),
            final(self).accepted() == old(self).accepted(),
            final(self).taken() == old(self).taken(),
            final(self).claimed_by() == old(self).claimed_by(),
            final(self).is_closed() == old(self).is_closed(),
    {
        let ghost ws = self.workers@;
        let event = WorkerEvent::Completed;
        if let Some(s) = self.workers[w].next(event) {
            self.workers.set(w, s);
        }
        proof {
            assert(transition(WorkerState::Running, event) == Some(WorkerState::Waiting));
            lemma_running_count_update(ws, w as int, WorkerState::Waiting);
            self.completed@ = self.completed@ + 1;
            assert forall|i: int|
                0 <= i < self.workers@.len() && #[trigger] self.workers@[i] is Stopped implies
                self.queue.is_closed() && self.queue.pending().len() == 0 by {
                assert(ws[i] is Stopped);
            }
        }
    }

    /// Releases the submission side: later submissions fail with `Closed`;
    /// pending tasks stay to be drained by the workers.
    pub fn close(&mut self)
        requires
            old(self).wf(),
        ensures
            final(self).wf(),
            final(self).is_closed(),
            final(self).workers() == old(self).workers(),
            final(self).pending() == old(self).pending(),
            final(self).accepted() == old(self).accepted(),
            final(self).taken() == old(self).taken(),
            final(self).claimed_by() == old(self).claimed_by(),
            final(self).completed() == old(self).completed(),
    {
        self.queue.close();
    }

    /// Number of workers, fixed for the pool's lifetime.
    pub fn worker_count(&self) -> (r: usize)
        ensures
            r == self.workers().len(),
    {
        self.workers.len()
    }

    /// The state of worker `w`, or `None` if there is no such worker.
    pub fn state_of(&self, w: usize) -> (r: Option<WorkerState>)
        ensures
            w < self.workers().len() ==> r == Some(self.workers()[w as int]),
            w >= self.workers().len() ==> r is None,
    {
        if w < self.workers.len() {
            Some(self.workers[w])
        } else {
            None
        }
    }

    /// Number of tasks waiting to be claimed.
    pub fn pending_len(&self) -> (r: usize)
        ensures
            r == self.pending().len(),
    {
        self.queue.pending_len()
    }

    /// Whether the submission side has been released.
    pub fn closed(&self) -> (r: bool)
        ensures
            r == self.is_closed(),
    {
        self.queue.closed()
    }
}

/// No task is lost or duplicated, whatever the interleaving of submissions
/// and claims: the tasks accepted are, as a multiset, exactly those claimed
/// plus those still pending.
pub proof fn lemma_no_task_lost_or_duplicated<T>(p: PoolCore<T>)
    requires
        p.wf(),
    ensures
        p.accepted() == p.taken() + p.pending(),
        p.accepted().to_multiset() == p.taken().to_multiset().add(p.pending().to_multiset()),
        p.accepted().len() == p.taken().len() + p.pending().len(),
{
    p.queue.lemma_accepted_is_taken_then_pending();
    vstd::seq_lib::lemma_multiset_commutative(p.taken(), p.pending());
}

/// Once the queue is drained, every accepted task has been claimed exactly
/// once, in order of submission, each by one worker of the pool.
pub proof fn lemma_drained_pool_claimed_each_task_once<T>(p: PoolCore<T>)
    requires
        p.wf(),
        p.pending().len() == 0,
    ensures
        p.taken() == p.accepted(),
        p.claimed_by().len() == p.accepted().len(),
        forall|k: int| 0 <= k < p.claimed_by().len() ==> #[trigger] p.claimed_by()[k] < p.workers().len(),
{
    p.queue.lemma_accepted_is_taken_then_pending();
    assert(p.taken() + p.pending() =~= p.taken());
}

/// A pool without workers never claims a task: whatever was accepted is
/// still pending.
pub proof fn lemma_no_workers_claim_nothing<T>(p: PoolCore<T>)
    requires
        p.wf(),
        p.workers().len() == 0,
    ensures
        p.taken().len() == 0,
        p.pending() == p.accepted(),
{
    if p.claimed_by().len() > 0 {
        assert(p.claimed_by()[0] < p.workers().len());
    }
    p.queue.lemma_accepted_is_taken_then_pending();
    assert(p.taken() + p.pending() =~= p.pending());
}

/// Each worker runs at most one task at a time: the tasks claimed and not yet
/// returned are as many as the running workers, and no more than the
/// workers. So while no task returns, at most one task per worker is claimed
/// and all others stay pending.
pub proof fn lemma_one_task_per_worker<T>(p: PoolCore<T>)
    requires
        p.wf(),
    ensures
        p.taken().len() == p.completed() + running_count(p.workers()),
        p.taken().len() <= p.completed() + p.workers().len(),
        p.completed() == 0 ==> p.pending().len() >= p.accepted().len() - p.workers().len(),
{
    p.queue.lemma_accepted_is_taken_then_pending();
    lemma_running_count_bound(p.workers());
}

/// A sequence with no running worker counts zero.
proof fn lemma_running_count_none(s: Seq<WorkerState>)
    requires
        forall|i: int| 0 <= i < s.len() ==> !(#[trigger] s[i] is Running),
    ensures
        running_count(s) == 0,
    decreases s.len(),
{
    if s.len() > 0 {
        lemma_running_count_none(s.drop_last());
    }
}

/// No more workers run than there are workers.
proof fn lemma_running_count_bound(s: Seq<WorkerState>)
    ensures
        running_count(s) <= s.len(),
    decreases s.len(),
{
    if s.len() > 0 {
        lemma_running_count_bound(s.drop_last());
    }
}

/// How changing one worker's state changes the running count.
proof fn lemma_running_count_update(s: Seq<WorkerState>, i: int, v: WorkerState)
    requires
        0 <= i < s.len(),
    ensures
        running_count(s.update(i, v)) + (if s[i] is Running {
            1int
        } else {
            0int
        }) == running_count(s) + (if v is Running {
            1int
        } else {
            0int
        }),
    decreases s.len(),
{
    let t = s.update(i, v);
    if i == s.len() - 1 {
        assert(t.drop_last() =~= s.drop_last());
    } else {
        assert(t.drop_last() =~= s.drop_last().update(i, v));
        lemma_running_count_update(s.drop_last(), i, v);
    }
}

/// A worker stops only after the submission side was released and the queue
/// drained; from then on nothing is pending.
pub proof fn lemma_stopped_only_after_drain<T>(p: PoolCore<T>, w: int)
    requires
        p.wf(),
        0 <= w < p.workers().len(),
        p.workers()[w] is Stopped,
    ensures
        p.is_closed(),
        p.pending().len() == 0,
{
}

} // verus!
