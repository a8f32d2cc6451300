//! The worker pool: a queue of jobs that a fixed number of workers drains.
//!
//! The pool is the queue and what it knows of its workers. It starts no thread. Whoever
//! runs the workers keeps the pool behind a lock; each worker asks it for its next job
//! with `next`, inside the lock, and runs the job outside it.

use vstd::prelude::*;
use std::collections::VecDeque;

verus! {

/// What a worker does, as the pool's history tells it.
pub enum Worker {
    /// It waits for a job.
    Idle,
    /// It runs the job that was submitted at this index.
    Busy(int),
    /// It has seen the queue closed and empty, and has ended.
    Exited,
}

/// The history of a pool.
pub struct PoolView<J> {
    /// Every job that was submitted, in order.
    pub submitted: Seq<J>,
    /// How many of them were handed to a worker: the first `taken`.
    pub taken: int,
    /// Whether jobs can still be submitted.
    pub open: bool,
    /// The workers.
    pub workers: Seq<Worker>,
    /// Of each submitted job, how many times it has run to its end.
    pub runs: Seq<nat>,
}

impl<J> PoolView<J> {
    /// Whether some worker runs the job of index `k`.
    pub open spec fn held(self, k: int) -> bool {
        exists|w: int| 0 <= w < self.workers.len() && #[trigger] self.workers[w] == Worker::Busy(k)
    }

    /// What holds of a pool at all times.
    pub open spec fn inv(self) -> bool {
        &&& self.workers.len() > 0
        &&& 0 <= self.taken <= self.submitted.len()
        &&& self.runs.len() == self.submitted.len()
        &&& forall|w: int|
            0 <= w < self.workers.len() ==> (#[trigger] self.workers[w] matches Worker::Busy(k)
                ==> 0 <= k < self.taken)
        &&& forall|v: int, w: int|
            0 <= v < w < self.workers.len() && self.workers[v] is Busy ==> #[trigger] self.workers[v]
                != #[trigger] self.workers[w]
        &&& forall|k: int|
            0 <= k < self.runs.len() ==> #[trigger] self.runs[k] == if k < self.taken && !self.held(
                k,
            ) {
                1nat
            } else {
                0nat
            }
        &&& forall|w: int|
            0 <= w < self.workers.len() && #[trigger] self.workers[w] is Exited ==> !self.open
                && self.taken == self.submitted.len()
    }

    /// The jobs that wait in the queue.
    pub open spec fn pending(self) -> Seq<J> {
        self.submitted.skip(self.taken)
    }

    /// Whether every worker has ended.
    pub open spec fn terminated(self) -> bool {
        forall|w: int| 0 <= w < self.workers.len() ==> #[trigger] self.workers[w] is Exited
    }

    /// A new pool of `size` workers.
    pub open spec fn initial(size: nat) -> PoolView<J> {
        PoolView {
            submitted: Seq::empty(),
            taken: 0,
            open: true,
            workers: Seq::new(size, |w: int| Worker::Idle),
            runs: Seq::empty(),
        }
    }

    /// The pool after `job` was submitted.
    pub open spec fn submit(self, job: J) -> PoolView<J> {
        PoolView { submitted: self.submitted.push(job), runs: self.runs.push(0), ..self }
    }

    /// The pool after it was closed.
    pub open spec fn close(self) -> PoolView<J> {
        PoolView { open: false, ..self }
    }

    /// The pool after worker `w` came back from the job it ran, if it ran one.
    pub open spec fn finish(self, w: int) -> PoolView<J> {
        match self.workers[w] {
            Worker::Busy(k) => PoolView {
                workers: self.workers.update(w, Worker::Idle),
                runs: self.runs.update(k, self.runs[k] + 1),
                ..self
            },
            _ => self,
        }
    }

    /// The pool after worker `w`, which runs nothing, asked for a job: it gets the first
    /// that waits; where none waits it goes on waiting while the pool is open, and ends
    /// when it is closed.
    pub open spec fn take(self, w: int) -> PoolView<J> {
        if self.workers[w] is Exited {
            self
        } else if self.taken < self.submitted.len() {
            PoolView {
                workers: self.workers.update(w, Worker::Busy(self.taken)),
                taken: self.taken + 1,
                ..self
            }
        } else if self.open {
            PoolView { workers: self.workers.update(w, Worker::Idle), ..self }
        } else {
            PoolView { workers: self.workers.update(w, Worker::Exited), ..self }
        }
    }

    /// The pool after worker `w` came back and asked for its next job.
    pub open spec fn next(self, w: int) -> PoolView<J> {
        self.finish(w).take(w)
    }

    /// How far a closed pool is from its end: two for each job that waits, one for each
    /// worker that has not ended.
    pub open spec fn work_left(self) -> nat {
        2 * self.pending().len() + alive(self.workers)
    }
}

/// The number of workers that have not ended.
pub open spec fn alive(workers: Seq<Worker>) -> nat
    decreases workers.len(),
{
    if workers.len() == 0 {
        0
    } else {
        alive(workers.drop_last()) + if workers.last() is Exited {
            0nat
        } else {
            1nat
        }
    }
}

/// A new pool is as `inv` says.
pub proof fn lemma_initial_inv<J>(size: nat)
    requires
        size > 0,
    ensures
        PoolView::<J>::initial(size).inv(),
{
}

/// Submitting a job keeps `inv`.
pub proof fn lemma_submit_inv<J>(pool: PoolView<J>, job: J)
    requires
        pool.inv(),
        pool.open,
    ensures
        pool.submit(job).inv(),
{
    let after = pool.submit(job);
    assert forall|k: int| 0 <= k < after.runs.len() implies #[trigger] after.runs[k] == if k
        < after.taken && !after.held(k) {
        1nat
    } else {
        0nat
    } by {
        if k < pool.runs.len() {
            assert(after.runs[k] == pool.runs[k]);
            assert(after.held(k) == pool.held(k));
        }
    }
    assert forall|w: int| 0 <= w < after.workers.len() implies !(#[trigger] after.workers[w]
        is Exited) by {
        assert(pool.workers[w] == after.workers[w]);
    }
}

/// Closing the pool keeps `inv`.
pub proof fn lemma_close_inv<J>(pool: PoolView<J>)
    requires
        pool.inv(),
    ensures
        pool.close().inv(),
{
    let after = pool.close();
    assert forall|k: int| 0 <= k < after.runs.len() implies #[trigger] after.runs[k] == if k
        < after.taken && !after.held(k) {
        1nat
    } else {
        0nat
    } by {
        assert(after.held(k) == pool.held(k));
    }
}

proof fn lemma_finish_inv<J>(pool: PoolView<J>, w: int)
    requires
        pool.inv(),
        0 <= w < pool.workers.len(),
    ensures
        pool.finish(w).inv(),
        !(pool.finish(w).workers[w] is Busy),
        pool.finish(w).workers[w] is Exited == pool.workers[w] is Exited,
{
    let after = pool.finish(w);
    match pool.workers[w] {
        Worker::Busy(job) => {
            assert forall|k: int| 0 <= k < after.runs.len() implies #[trigger] after.runs[k]
                == if k < after.taken && !after.held(k) {
                1nat
            } else {
                0nat
            } by {
                if k == job {
                    assert(pool.held(job));
                    if after.held(job) {
                        let v = choose|v: int|
                            0 <= v < after.workers.len() && #[trigger] after.workers[v]
                                == Worker::Busy(job);
                        assert(pool.workers[v] == Worker::Busy(job));
                        assert(v != w);
                        if v < w {
                            assert(pool.workers[v] != pool.workers[w]);
                        } else {
                            assert(pool.workers[w] != pool.workers[v]);
                        }
                    }
                } else {
                    if pool.held(k) {
                        let v = choose|v: int|
                            0 <= v < pool.workers.len() && #[trigger] pool.workers[v]
                                == Worker::Busy(k);
                        assert(after.workers[v] == Worker::Busy(k));
                    }
                    if after.held(k) {
                        let v = choose|v: int|
                            0 <= v < after.workers.len() && #[trigger] after.workers[v]
                                == Worker::Busy(k);
                        assert(pool.workers[v] == Worker::Busy(k));
                    }
                }
            }
            assert forall|v: int, u: int|
                0 <= v < u < after.workers.len() && after.workers[v] is Busy implies #[trigger] after.workers[v]
                != #[trigger] after.workers[u] by {
                if u != w {
                    assert(pool.workers[v] != pool.workers[u]);
                }
            }
            assert forall|v: int|
                0 <= v < after.workers.len() && #[trigger] after.workers[v] is Exited implies !after.open
                && after.taken == after.submitted.len() by {
                assert(pool.workers[v] is Exited);
            }
        },
        _ => {},
    }
}

proof fn lemma_take_inv<J>(pool: PoolView<J>, w: int)
    requires
        pool.inv(),
        0 <= w < pool.workers.len(),
        !(pool.workers[w] is Busy),
    ensures
        pool.take(w).inv(),
{
    let after = pool.take(w);
    if pool.workers[w] is Exited {
    } else {
        assert forall|k: int| 0 <= k < after.runs.len() implies #[trigger] after.runs[k] == if k
            < after.taken && !after.held(k) {
            1nat
        } else {
            0nat
        } by {
            if pool.held(k) {
                let v = choose|v: int|
                    0 <= v < pool.workers.len() && #[trigger] pool.workers[v] == Worker::Busy(k);
                assert(after.workers[v] == Worker::Busy(k));
            }
            if after.held(k) {
                let v = choose|v: int|
                    0 <= v < after.workers.len() && #[trigger] after.workers[v] == Worker::Busy(k);
                if v != w {
                    assert(pool.workers[v] == Worker::Busy(k));
                } else {
                    assert(k == pool.taken);
                }
            }
            if k == pool.taken && pool.taken < pool.submitted.len() {
                assert(after.workers[w] == Worker::Busy(k));
            }
        }
        assert forall|v: int, u: int|
            0 <= v < u < after.workers.len() && after.workers[v] is Busy implies #[trigger] after.workers[v]
            != #[trigger] after.workers[u] by {
            if v != w && u != w {
                assert(pool.workers[v] != pool.workers[u]);
            } else if v == w {
                assert(pool.workers[u] == after.workers[u]);
            } else {
                assert(pool.workers[v] == after.workers[v]);
            }
        }
        assert forall|v: int|
            0 <= v < after.workers.len() && #[trigger] after.workers[v] is Exited implies !after.open
            && after.taken == after.submitted.len() by {
            if v != w {
                assert(pool.workers[v] is Exited);
            }
        }
        assert forall|v: int| 0 <= v < after.workers.len() implies (#[trigger] after.workers[v] matches Worker::Busy(
            k,
        ) ==> 0 <= k < after.taken) by {
            if v != w {
                assert(pool.workers[v] == after.workers[v]);
            }
        }
    }
}

/// A worker that comes back and asks for its next job keeps `inv`.
pub proof fn lemma_next_inv<J>(pool: PoolView<J>, w: int)
    requires
        pool.inv(),
        0 <= w < pool.workers.len(),
    ensures
        pool.next(w).inv(),
{
    lemma_finish_inv(pool, w);
    lemma_take_inv(pool.finish(w), w);
}

/// A closed pool is closed for good, and it takes no job: no worker opens it when it asks
/// for its next job, and neither closing nor asking adds to the jobs that were submitted.
/// What was not submitted before the pool was closed is never handed to a worker.
pub proof fn lemma_closed_pool_stays_closed<J>(pool: PoolView<J>, w: int)
    ensures
        !pool.close().open,
        pool.close().submitted == pool.submitted,
        !pool.open ==> !pool.next(w).open,
        pool.next(w).submitted == pool.submitted,
{
}

proof fn lemma_alive_update(workers: Seq<Worker>, w: int, state: Worker)
    requires
        0 <= w < workers.len(),
    ensures
        alive(workers.update(w, state)) + (if workers[w] is Exited {
            0nat
        } else {
            1nat
        }) == alive(workers) + (if state is Exited {
            0nat
        } else {
            1nat
        }),
    decreases workers.len(),
{
    let after = workers.update(w, state);
    if w == workers.len() - 1 {
        assert(after.drop_last() =~= workers.drop_last());
    } else {
        assert(after.drop_last() =~= workers.drop_last().update(w, state));
        lemma_alive_update(workers.drop_last(), w, state);
    }
}

proof fn lemma_alive_zero(workers: Seq<Worker>)
    requires
        alive(workers) == 0,
    ensures
        forall|w: int| 0 <= w < workers.len() ==> #[trigger] workers[w] is Exited,
    decreases workers.len(),
{
    if workers.len() > 0 {
        lemma_alive_zero(workers.drop_last());
        assert forall|w: int| 0 <= w < workers.len() implies #[trigger] workers[w] is Exited by {
            if w < workers.len() - 1 {
                assert(workers.drop_last()[w] == workers[w]);
            }
        }
    }
}

/// In a closed pool, every answer to a worker that has not ended brings the end nearer: it
/// takes a job out of the queue or ends the worker.
pub proof fn lemma_closed_pool_makes_progress<J>(pool: PoolView<J>, w: int)
    requires
        pool.inv(),
        !pool.open,
        0 <= w < pool.workers.len(),
        !(pool.workers[w] is Exited),
    ensures
        pool.next(w).work_left() < pool.work_left(),
{
    let rested = pool.finish(w);
    lemma_finish_inv(pool, w);
    assert(alive(rested.workers) == alive(pool.workers)) by {
        if pool.workers[w] is Busy {
            lemma_alive_update(pool.workers, w, Worker::Idle);
        }
    }
    assert(rested.pending() == pool.pending());
    let after = rested.take(w);
    if rested.taken < rested.submitted.len() {
        lemma_alive_update(rested.workers, w, Worker::Busy(rested.taken));
        assert(after.pending().len() == rested.pending().len() - 1);
    } else {
        lemma_alive_update(rested.workers, w, Worker::Exited);
    }
}

/// A pool with no work left has ended: every worker has.
pub proof fn lemma_no_work_left_is_terminated<J>(pool: PoolView<J>)
    requires
        pool.work_left() == 0,
    ensures
        pool.terminated(),
{
    lemma_alive_zero(pool.workers);
}

/// Once every worker has ended, the pool is closed, no job waits, and every job that was
/// ever submitted has run to its end exactly once.
pub proof fn lemma_terminated_pool_ran_every_job<J>(pool: PoolView<J>)
    requires
        pool.inv(),
        pool.terminated(),
    ensures
        !pool.open,
        pool.pending().len() == 0,
        pool.runs.len() == pool.submitted.len(),
        forall|k: int| 0 <= k < pool.submitted.len() ==> #[trigger] pool.runs[k] == 1,
{
    assert(pool.workers[0] is Exited);
    assert forall|k: int| 0 <= k < pool.submitted.len() implies #[trigger] pool.runs[k] == 1 by {
        if pool.held(k) {
            let w = choose|w: int|
                0 <= w < pool.workers.len() && #[trigger] pool.workers[w] == Worker::Busy(k);
            assert(pool.workers[w] is Exited);
        }
    }
}

/// What the pool keeps of each worker.
#[derive(Debug, Clone, Copy, PartialEq, Eq, Structural)]
pub enum WorkerState {
    /// The worker waits for a job.
    Idle,
    /// The worker runs a job.
    Busy,
    /// The worker has ended.
    Exited,
}

/// What a worker gets when it asks for a job.
pub enum Dequeued<J> {
    /// The job to run next.
    Job(J),
    /// No job waits and the pool is open: the worker has to wait and ask again.
    Empty,
    /// No job waits and the pool is closed: the worker has to end.
    Closed,
}

/// What the pool keeps of a worker that its history shows in the state `worker`.
pub open spec fn state_of(worker: Worker) -> WorkerState {
    match worker {
        Worker::Idle => WorkerState::Idle,
        Worker::Busy(_) => WorkerState::Busy,
        Worker::Exited => WorkerState::Exited,
    }
}

/// A pool of a fixed number of workers with one queue of jobs of type `J`.
pub struct ThreadPool<J> {
    queue: VecDeque<J>,
    open: bool,
    workers: Vec<WorkerState>,
    history: Ghost<PoolView<J>>,
}

impl<J> View for ThreadPool<J> {
    type V = PoolView<J>;

    closed spec fn view(&self) -> PoolView<J> {
        self.history@
    }
}

impl<J> ThreadPool<J> {
    /// What holds of every pool: its history is as `PoolView::inv` says, and the queue,
    /// the flag and the workers' states are those of the history.
    pub closed spec fn wf(&self) -> bool {
        &&& self.history@.inv()
        &&& self.queue@ == self.history@.pending()
        &&& self.open == self.history@.open
        &&& self.workers@.len() == self.history@.workers.len()
        &&& forall|w: int|
            0 <= w < self.workers@.len() ==> #[trigger] self.workers@[w] == state_of(
                self.history@.workers[w],
            )
    }

    /// A well-formed pool has a history as `PoolView::inv` says.
    pub proof fn lemma_wf_inv(&self)
        requires
            self.wf(),
        ensures
            self@.inv(),
    {
    }

    /// A pool of `size` workers, open, with an empty queue.
    pub fn new(size: usize) -> (r: ThreadPool<J>)
        requires
            size > 0,
        ensures
            r.wf(),
            r@ == PoolView::<J>::initial(size as nat),
    {
        let mut workers: Vec<WorkerState> = Vec::new();
        let mut i: usize = 0;
        while i < size
            invariant
                i <= size,
                workers@.len() == i,
                forall|w: int| 0 <= w < i ==> workers@[w] == WorkerState::Idle,
            decreases size - i,
        {
            workers.push(WorkerState::Idle);
            i = i + 1;
        }
        let ghost history = PoolView::<J>::initial(size as nat);
        proof {
            lemma_initial_inv::<J>(size as nat);
            assert(history.pending() =~= Seq::<J>::empty());
        }
        ThreadPool { queue: VecDeque::new(), open: true, workers, history: Ghost(history) }
    }

    /// The number of workers.
    pub fn size(&self) -> (r: usize)
        requires
            self.wf(),
        ensures
            r == self@.workers.len(),
            r > 0,
    {
        self.workers.len()
    }

    /// Whether jobs can be submitted.
    pub fn is_open(&self) -> (r: bool)
        requires
            self.wf(),
        ensures
            r == self@.open,
    {
        self.open
    }

    /// The number of jobs that wait.
    pub fn pending(&self) -> (r: usize)
        requires
            self.wf(),
        ensures
            r == self@.pending().len(),
    {
        self.queue.len()
    }

    /// Whether every worker has ended.
    pub fn is_terminated(&self) -> (r: bool)
        requires
            self.wf(),
        ensures
            r == self@.terminated(),
    {
        let mut i: usize = 0;
        while i < self.workers.len()
            invariant
                i <= self.workers.len(),
                self.wf(),
                forall|w: int| 0 <= w < i ==> #[trigger] self@.workers[w] is Exited,
            decreases self.workers.len() - i,
        {
            if self.workers[i] != WorkerState::Exited {
                assert(!(self@.workers[i as int] is Exited));
                return false;
            }
            i = i + 1;
        }
        true
    }

    /// Puts `job` at the end of the queue. The pool must be open.
    pub fn execute(&mut self, job: J)
        requires
            old(self).wf(),
            old(self)@.open,
        ensures
            final(self).wf(),
            final(self)@ == old(self)@.submit(job),
    {
        let ghost before = self.history@;
        proof {
            lemma_submit_inv(before, job);
            assert(before.submit(job).pending() =~= before.pending().push(job));
        }
        self.queue.push_back(job);
        self.history = Ghost(before.submit(job));
    }

    /// Puts `job` at the end of the queue of an open pool. A closed pool refuses it: the
    /// job comes back, the pool stays as it is, and so the job is never handed to a worker.
    pub fn try_execute(&mut self, job: J) -> (r: Result<(), J>)
        requires
            old(self).wf(),
        ensures
            final(self).wf(),
            match r {
                Ok(()) => old(self)@.open && final(self)@ == old(self)@.submit(job),
                Err(refused) => !old(self)@.open && refused == job && final(self)@ == old(self)@,
            },
    {
        if self.open {
            self.execute(job);
            Ok(())
        } else {
            Err(job)
        }
    }

    /// Closes the pool: no job can be submitted any more. The jobs that wait stay in the
    /// queue, and the workers go on until it is empty.
    pub fn stop(&mut self)
        requires
            old(self).wf(),
        ensures
            final(self).wf(),
            final(self)@ == old(self)@.close(),
            !final(self)@.open,
    {
        let ghost before = self.history@;
        proof {
            lemma_close_inv(before);
        }
        self.open = false;
        self.history = Ghost(before.close());
    }

    /// Tells worker `worker` what to do next. The job that it had, if any, counts as run.
    /// It gets the first job that waits. Where none waits it is told to wait while the
    /// pool is open, and to end once the pool is closed; a worker that has ended is told
    /// so again.
    pub fn next(&mut self, worker: usize) -> (r: Dequeued<J>)
        requires
            old(self).wf(),
            worker < old(self)@.workers.len(),
        ensures
            final(self).wf(),
            final(self)@ == old(self)@.next(worker as int),
            match r {
                Dequeued::Job(job) => {
                    &&& !(old(self)@.workers[worker as int] is Exited)
                    &&& old(self)@.pending().len() > 0
                    &&& job == old(self)@.pending()[0]
                },
                Dequeued::Empty => {
                    &&& !(old(self)@.workers[worker as int] is Exited)
                    &&& old(self)@.pending().len() == 0
                    &&& old(self)@.open
                },
                Dequeued::Closed => old(self)@.workers[worker as int] is Exited || (old(
                    self,
                )@.pending().len() == 0 && !old(self)@.open),
            },
    {
        let ghost before = self.history@;
        let ghost w = worker as int;
        let ghost after = before.next(w);
        proof {
            lemma_finish_inv(before, w);
            lemma_next_inv(before, w);
            assert(before.finish(w).pending() == before.pending());
        }
        if self.workers[worker] == WorkerState::Exited {
            assert(before.workers[w] is Exited);
            assert(after == before);
            return Dequeued::Closed;
        }
        assert(!(before.workers[w] is Exited));
        let (state, r) = match self.queue.pop_front() {
            Some(job) => (WorkerState::Busy, Dequeued::Job(job)),
            None => if self.open {
                (WorkerState::Idle, Dequeued::Empty)
            } else {
                (WorkerState::Exited, Dequeued::Closed)
            },
        };
        self.workers[worker] = state;
        self.history = Ghost(after);
        proof {
            assert(self.queue@ =~= after.pending());
            assert forall|v: int| 0 <= v < self.workers@.len() implies #[trigger] self.workers@[v]
                == state_of(after.workers[v]) by {
                if v != w {
                    assert(old(self).workers@[v] == state_of(before.workers[v]));
                    assert(after.workers[v] == before.workers[v]);
                }
            }
        }
        r
    }
}

} // verus!
