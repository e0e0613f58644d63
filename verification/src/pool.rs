//! The books of the worker pool.
//!
//! A pool has a fixed number of workers and one queue of jobs. The threads
//! themselves belong to the caller; what is kept here, behind the caller's
//! lock, is the queue and the count of who does what. Every decision of
//! the pool is taken here: which job runs next, whether a worker waits or
//! leaves, and whether a job is still admitted.
//!
//! - [`WorkerPool::execute`] queues a job, unless the pool is shut down.
//! - A worker without a job calls [`WorkerPool::next`] and runs the job it
//!   gets, waits, or leaves.
//! - A worker that has run its job calls [`WorkerPool::finished`], however
//!   the job ended: a job that fails costs the pool no worker.
//! - [`WorkerPool::shutdown`] stops admission. The jobs that are queued
//!   are still run; a worker leaves when it finds the queue empty.

use std::collections::VecDeque;
use vstd::prelude::*;

verus! {

/// What a worker without a job is to do.
#[derive(Debug, PartialEq, Eq)]
pub enum Dispatch<T> {
    /// Run this job, then report with `finished`.
    Run(T),
    /// Wait until the pool changes, then ask again.
    Wait,
    /// Leave: the pool is shut down and nothing is queued.
    Exit,
}

/// Something that happens to a pool.
pub enum Op<T> {
    /// A job is handed in.
    Execute(T),
    /// A worker without a job asks what to do.
    Next,
    /// A worker reports that its job has ended.
    Finished,
    /// The pool is shut down.
    Shutdown,
}

/// The pool as a mathematical value.
pub struct PoolView<T> {
    /// The number of workers that the pool was made with.
    pub workers: nat,
    /// The jobs that wait, the oldest first.
    pub queue: Seq<T>,
    /// The number of jobs that are running.
    pub active: nat,
    /// The number of workers that have not left.
    pub alive: nat,
    /// Whether the pool is shut down.
    pub closed: bool,
    /// The jobs that were ever admitted, in the order in which they came.
    pub admitted: Seq<T>,
    /// The jobs that were ever handed to a worker, in the order in which
    /// they were.
    pub started: Seq<T>,
    /// The number of jobs that have ended.
    pub completed: nat,
}

impl<T> PoolView<T> {
    /// A new pool of `n` workers.
    pub open spec fn created(n: nat) -> Self {
        PoolView {
            workers: n,
            queue: Seq::empty(),
            active: 0,
            alive: n,
            closed: false,
            admitted: Seq::empty(),
            started: Seq::empty(),
            completed: 0,
        }
    }

    /// What holds of every pool: it has a worker; no more jobs run than
    /// workers are left, and no more workers are left than there were; a
    /// worker has left only once the pool was shut down and the queue was
    /// empty; the jobs that were admitted are those that were handed to a
    /// worker and then those that wait, all in the order in which they came;
    /// and every job that was handed to a worker runs or has ended.
    pub open spec fn wf(self) -> bool {
        &&& self.workers > 0
        &&& self.active <= self.alive <= self.workers
        &&& self.alive < self.workers ==> self.closed && self.queue.len() == 0
        &&& self.admitted == self.started + self.queue
        &&& self.started.len() == self.active + self.completed
    }

    /// Whether every worker has left.
    pub open spec fn terminated(self) -> bool {
        self.alive == 0
    }

    /// Whether a job that is handed in is admitted.
    pub open spec fn admits(self) -> bool {
        !self.closed
    }

    /// The pool after `job` was handed in: it waits behind all others, if
    /// the pool admits it.
    pub open spec fn execute(self, job: T) -> Self {
        if self.admits() {
            PoolView { queue: self.queue.push(job), admitted: self.admitted.push(job), ..self }
        } else {
            self
        }
    }

    /// What a worker without a job is told. There is such a worker only
    /// while fewer jobs run than workers are left; it gets the oldest job
    /// that waits, leaves if none waits and the pool is shut down, and waits
    /// otherwise.
    pub open spec fn dispatch(self) -> Dispatch<T> {
        if self.active >= self.alive {
            Dispatch::Wait
        } else if self.queue.len() > 0 {
            Dispatch::Run(self.queue[0])
        } else if self.closed {
            Dispatch::Exit
        } else {
            Dispatch::Wait
        }
    }

    /// The pool after a worker without a job was told what to do.
    pub open spec fn next(self) -> Self {
        match self.dispatch() {
            Dispatch::Run(job) => PoolView {
                queue: self.queue.drop_first(),
                active: self.active + 1,
                started: self.started.push(job),
                ..self
            },
            Dispatch::Exit => PoolView { alive: (self.alive - 1) as nat, ..self },
            Dispatch::Wait => self,
        }
    }

    /// The pool after a worker reported the end of its job. The worker
    /// stays, however the job ended.
    pub open spec fn finished(self) -> Self {
        if self.active > 0 {
            PoolView {
                active: (self.active - 1) as nat,
                completed: self.completed + 1,
                ..self
            }
        } else {
            self
        }
    }

    /// The pool after it was shut down.
    pub open spec fn shutdown(self) -> Self {
        PoolView { closed: true, ..self }
    }

    /// The pool after `op`.
    pub open spec fn apply(self, op: Op<T>) -> Self {
        match op {
            Op::Execute(job) => self.execute(job),
            Op::Next => self.next(),
            Op::Finished => self.finished(),
            Op::Shutdown => self.shutdown(),
        }
    }

    /// The pool after `ops`, one after the other.
    pub open spec fn apply_all(self, ops: Seq<Op<T>>) -> Self
        decreases ops.len(),
    {
        if ops.len() == 0 {
            self
        } else {
            self.apply_all(ops.drop_last()).apply(ops.last())
        }
    }
}

/// Nothing that happens to a pool breaks what holds of every pool.
pub proof fn lemma_apply_keeps_wf<T>(pool: PoolView<T>, op: Op<T>)
    requires
        pool.wf(),
    ensures
        pool.apply(op).wf(),
{
    match op {
        Op::Execute(job) => {
            assert(pool.started + pool.queue.push(job) =~= (pool.started + pool.queue).push(job));
        },
        Op::Next => {
            if pool.dispatch() is Run {
                assert(pool.started.push(pool.queue[0]) + pool.queue.drop_first() =~= pool.started
                    + pool.queue);
            }
        },
        _ => {},
    }
}

/// Whatever happens to a new pool of `n` workers, in whatever order, at no
/// time do more than `n` jobs run.
pub proof fn lemma_bounded_concurrency<T>(n: nat, ops: Seq<Op<T>>)
    requires
        n > 0,
    ensures
        PoolView::<T>::created(n).apply_all(ops).wf(),
        PoolView::<T>::created(n).apply_all(ops).workers == n,
        PoolView::<T>::created(n).apply_all(ops).active <= n,
    decreases ops.len(),
{
    if ops.len() > 0 {
        lemma_bounded_concurrency(n, ops.drop_last());
        lemma_apply_keeps_wf(PoolView::<T>::created(n).apply_all(ops.drop_last()), ops.last());
    }
}

/// Once every worker has left, the pool is shut down, no job waits or
/// runs, and every job that was ever admitted was handed to a worker and
/// has ended.
pub proof fn lemma_terminated_is_drained<T>(pool: PoolView<T>)
    requires
        pool.wf(),
        pool.terminated(),
    ensures
        pool.closed,
        pool.queue.len() == 0,
        pool.active == 0,
        pool.started == pool.admitted,
        pool.completed == pool.admitted.len(),
{
    assert(pool.started + pool.queue =~= pool.started);
}

/// Once every worker has left, nothing changes any more: a job that is
/// handed in is turned away, and nobody is told to run one.
pub proof fn lemma_terminated_is_final<T>(pool: PoolView<T>, ops: Seq<Op<T>>)
    requires
        pool.wf(),
        pool.terminated(),
    ensures
        pool.apply_all(ops) == pool,
    decreases ops.len(),
{
    if ops.len() > 0 {
        lemma_terminated_is_final(pool, ops.drop_last());
    }
}

/// Each job is handed to a worker once, and the jobs are handed out in the
/// order in which they came: whatever happens to a new pool, the jobs that
/// were handed to workers are the first of the jobs that were admitted, and
/// the rest of these are the jobs that wait.
pub proof fn lemma_each_job_once_in_order<T>(n: nat, ops: Seq<Op<T>>)
    requires
        n > 0,
    ensures
        PoolView::<T>::created(n).apply_all(ops).started.is_prefix_of(
            PoolView::<T>::created(n).apply_all(ops).admitted,
        ),
        PoolView::<T>::created(n).apply_all(ops).admitted == PoolView::<T>::created(n).apply_all(
            ops,
        ).started + PoolView::<T>::created(n).apply_all(ops).queue,
{
    lemma_bounded_concurrency(n, ops);
    let pool = PoolView::<T>::created(n).apply_all(ops);
    assert((pool.started + pool.queue).subrange(0, pool.started.len() as int) =~= pool.started);
}

/// Whether `ops` holds a shutdown.
pub open spec fn shuts_down<T>(ops: Seq<Op<T>>) -> bool {
    exists|i: int| 0 <= i < ops.len() && #[trigger] ops[i] is Shutdown
}

/// No job costs the pool a worker: until a new pool is shut down, all of
/// its workers are left, whatever else happens to it and however its jobs
/// end.
pub proof fn lemma_capacity_until_shutdown<T>(n: nat, ops: Seq<Op<T>>)
    requires
        n > 0,
        !shuts_down(ops),
    ensures
        PoolView::<T>::created(n).apply_all(ops).alive == n,
        !PoolView::<T>::created(n).apply_all(ops).closed,
    decreases ops.len(),
{
    if ops.len() > 0 {
        let earlier = ops.drop_last();
        assert forall|i: int| 0 <= i < earlier.len() implies !(#[trigger] earlier[i]
            is Shutdown) by {
            assert(earlier[i] == ops[i]);
        }
        lemma_capacity_until_shutdown(n, earlier);
        assert(!(ops[ops.len() - 1] is Shutdown));
    }
}

/// The books of a worker pool whose jobs are of type `T`.
pub struct WorkerPool<T> {
    workers: usize,
    queue: VecDeque<T>,
    active: usize,
    alive: usize,
    closed: bool,
    started: Ghost<Seq<T>>,
    completed: Ghost<nat>,
}

impl<T> View for WorkerPool<T> {
    type V = PoolView<T>;

    closed spec fn view(&self) -> PoolView<T> {
        PoolView {
            workers: self.workers as nat,
            queue: self.queue@,
            active: self.active as nat,
            alive: self.alive as nat,
            closed: self.closed,
            admitted: self.started@ + self.queue@,
            started: self.started@,
            completed: self.completed@,
        }
    }
}

impl<T> WorkerPool<T> {
    /// What holds of every pool: `create` makes it so and every method
    /// keeps it so. As the fields are private, no other pool can come to
    /// be.
    pub open spec fn wf(&self) -> bool {
        self@.wf()
    }

    /// A pool of `n` workers, none of which has a job yet.
    pub fn create(n: usize) -> (pool: Self)
        requires
            n > 0,
        ensures
            pool@ == PoolView::<T>::created(n as nat),
            pool.wf(),
    {
        WorkerPool {
            workers: n,
            queue: VecDeque::new(),
            active: 0,
            alive: n,
            closed: false,
            started: Ghost(Seq::empty()),
            completed: Ghost(0),
        }
    }

    /// Queues `job` behind all others. A pool that is shut down admits no
    /// job and hands it back.
    pub fn execute(&mut self, job: T) -> (admitted: Result<(), T>)
        ensures
            old(self).wf() ==> final(self).wf(),
            final(self)@ == old(self)@.execute(job),
            match admitted {
                Ok(_) => old(self)@.admits(),
                Err(back) => !old(self)@.admits() && back == job,
            },
    {
        if self.closed {
            return Err(job);
        }
        self.queue.push_back(job);
        assert(self@.admitted =~= old(self)@.admitted.push(job));
        Ok(())
    }

    /// Tells a worker without a job what to do.
    pub fn next(&mut self) -> (dispatch: Dispatch<T>)
        ensures
            old(self).wf() ==> final(self).wf(),
            final(self)@ == old(self)@.next(),
            dispatch == old(self)@.dispatch(),
    {
        if self.active >= self.alive {
            return Dispatch::Wait;
        }
        match self.queue.pop_front() {
            Some(job) => {
                self.active = self.active + 1;
                proof {
                    self.started@ = self.started@.push(job);
                }
                assert(self.queue@ =~= old(self).queue@.drop_first());
                assert(self@.admitted =~= old(self)@.admitted);
                Dispatch::Run(job)
            },
            None => {
                if self.closed {
                    self.alive = self.alive - 1;
                    Dispatch::Exit
                } else {
                    Dispatch::Wait
                }
            },
        }
    }

    /// Takes note that a worker's job has ended, well or badly. The worker
    /// stays with the pool.
    pub fn finished(&mut self)
        ensures
            old(self).wf() ==> final(self).wf(),
            final(self)@ == old(self)@.finished(),
    {
        if self.active > 0 {
            self.active = self.active - 1;
            proof {
                self.completed@ = self.completed@ + 1;
            }
        }
    }

    /// Shuts the pool down: from now on no job is admitted. The jobs that
    /// wait are still run, and each worker leaves when it finds none.
    pub fn shutdown(&mut self)
        ensures
            old(self).wf() ==> final(self).wf(),
            final(self)@ == old(self)@.shutdown(),
    {
        self.closed = true;
    }

    /// The number of workers that the pool was made with.
    pub fn workers(&self) -> (n: usize)
        ensures
            n == self@.workers,
    {
        self.workers
    }

    /// The number of jobs that are running: never more than there are
    /// workers.
    pub fn active(&self) -> (n: usize)
        ensures
            n == self@.active,
            self.wf() ==> n <= self@.workers,
    {
        self.active
    }

    /// The number of workers that have not left.
    pub fn alive(&self) -> (n: usize)
        ensures
            n == self@.alive,
    {
        self.alive
    }

    /// The number of jobs that wait.
    pub fn queued(&self) -> (n: usize)
        ensures
            n == self@.queue.len(),
    {
        self.queue.len()
    }

    /// Whether the pool is shut down.
    pub fn is_closed(&self) -> (b: bool)
        ensures
            b == self@.closed,
    {
        self.closed
    }

    /// Whether every worker has left. Then the pool is shut down, no job
    /// waits or runs, and every job that was ever admitted has ended.
    pub fn is_terminated(&self) -> (b: bool)
        ensures
            b == self@.terminated(),
            b && self.wf() ==> self@.closed && self@.queue.len() == 0 && self@.active == 0
                && self@.completed == self@.admitted.len(),
    {
        self.alive == 0
    }
}

} // verus!
