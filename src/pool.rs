//! The shared state of a fixed-size worker pool: a first-in, first-out queue
//! of jobs, an intake that is open or closed, and the status of each worker.
//!
//! Every decision of the pool is made here, on this state, under whatever lock
//! the threads share: whether a job is accepted, which job a worker runs next,
//! and when a worker stops.
use std::collections::VecDeque;
use vstd::prelude::*;

verus! {

/// Whether the pool still accepts jobs.
#[derive(PartialEq, Eq, Structural, Clone, Copy, Debug)]
pub enum Intake {
    Open,
    Closed,
}

/// Where a worker stands: it runs until it has seen the pool closed and drained.
#[derive(PartialEq, Eq, Structural, Clone, Copy, Debug)]
pub enum WorkerStatus {
    Running,
    Terminated,
}

/// What a worker does after asking for work.
pub enum Step<T> {
    /// Run this job, outside the lock.
    Run(T),
    /// Nothing is queued yet: wait for a job or for the pool to close.
    Wait,
    /// The pool is closed and drained: leave the loop.
    Exit,
}

/// The abstract state of a pool.
pub struct PoolView<T> {
    /// Jobs accepted and not yet handed to a worker, oldest first.
    pub pending: Seq<T>,
    pub intake: Intake,
    /// One status per worker, by creation index.
    pub workers: Seq<WorkerStatus>,
    /// Every job ever accepted, in order of acceptance.
    pub submitted: Seq<T>,
    /// Every job ever handed to a worker, in order.
    pub handed_out: Seq<T>,
}

/// The shared state of a pool with a fixed number of workers.
pub struct PoolState<T> {
    pending: VecDeque<T>,
    intake: Intake,
    workers: Vec<WorkerStatus>,
    submitted: Ghost<Seq<T>>,
    handed_out: Ghost<Seq<T>>,
}

impl<T> View for PoolState<T> {
    type V = PoolView<T>;

    closed spec fn view(&self) -> PoolView<T> {
        PoolView {
            pending: self.pending@,
            intake: self.intake,
            workers: self.workers@,
            submitted: self.submitted@,
            handed_out: self.handed_out@,
        }
    }
}

impl<T> PoolState<T> {
    /// The state is consistent: each accepted job has either been handed out
    /// or is still queued, in order of acceptance; and a worker has stopped
    /// only once the intake was closed and the queue drained.
    pub open spec fn wf(&self) -> bool {
        &&& self@.submitted == self@.handed_out + self@.pending
        &&& self@.workers.len() > 0
        &&& forall|w: int|
            0 <= w < self@.workers.len() && #[trigger] self@.workers[w]
                == WorkerStatus::Terminated ==> {
                &&& self@.intake == Intake::Closed
                &&& self@.pending.len() == 0
            }
    }

    /// A pool of `size` running workers, open, with nothing queued.
    pub fn new(size: usize) -> (r: Self)
        requires
            size > 0,
        ensures
            r.wf(),
            r@.workers == Seq::new(size as nat, |i: int| WorkerStatus::Running),
            r@.intake == Intake::Open,
            r@.pending == Seq::<T>::empty(),
            r@.submitted == Seq::<T>::empty(),
            r@.handed_out == Seq::<T>::empty(),
    {
        let mut workers: Vec<WorkerStatus> = Vec::with_capacity(size);
        let mut i: usize = 0;
        while i < size
            invariant
                0 <= i <= size,
                workers@ == Seq::new(i as nat, |k: int| WorkerStatus::Running),
            decreases size - i,
        {
            workers.push(WorkerStatus::Running);
            i = i + 1;
            assert(workers@ =~= Seq::new(i as nat, |k: int| WorkerStatus::Running));
        }
        let r = PoolState {
            pending: VecDeque::new(),
            intake: Intake::Open,
            workers,
            submitted: Ghost(Seq::empty()),
            handed_out: Ghost(Seq::empty()),
        };
        assert(r@.submitted =~= r@.handed_out + r@.pending);
        r
    }

    /// The number of workers, fixed when the pool was made.
    pub fn size(&self) -> (r: usize)
        ensures
            r == self@.workers.len(),
    {
        self.workers.len()
    }

    /// Whether the intake is closed.
    pub fn is_closed(&self) -> (r: bool)
        ensures
            r == (self@.intake == Intake::Closed),
    {
        self.intake == Intake::Closed
    }

    /// The status of worker `w`.
    pub fn status(&self, w: usize) -> (r: WorkerStatus)
        requires
            w < self@.workers.len(),
        ensures
            r == self@.workers[w as int],
    {
        self.workers[w]
    }

    /// Queues `job` at the back while the intake is open. Once it is closed the
    /// job is refused, handed back, and the state is left as it was.
    pub fn submit(&mut self, job: T) -> (r: Result<(), T>)
        requires
            old(self).wf(),
        ensures
            final(self).wf(),
            old(self)@.intake == Intake::Open ==> {
                &&& r is Ok
                &&& final(self)@.pending == old(self)@.pending.push(job)
                &&& final(self)@.submitted == old(self)@.submitted.push(job)
                &&& final(self)@.handed_out == old(self)@.handed_out
                &&& final(self)@.intake == old(self)@.intake
                &&& final(self)@.workers == old(self)@.workers
            },
            old(self)@.intake == Intake::Closed ==> {
                &&& r == Err::<(), T>(job)
                &&& final(self)@ == old(self)@
            },
    {
        match self.intake {
            Intake::Open => {
                self.pending.push_back(job);
                self.submitted = Ghost(self.submitted@.push(job));
                assert(self@.submitted =~= self@.handed_out + self@.pending);
                Ok(())
            },
            Intake::Closed => Err(job),
        }
    }

    /// Decides what running worker `w` does next. The oldest queued job goes
    /// to it; with nothing queued it waits while the intake is open, and stops
    /// for good once it is closed.
    pub fn next_step(&mut self, w: usize) -> (r: Step<T>)
        requires
            old(self).wf(),
            w < old(self)@.workers.len(),
            old(self)@.workers[w as int] == WorkerStatus::Running,
        ensures
            final(self).wf(),
            final(self)@.submitted == old(self)@.submitted,
            final(self)@.intake == old(self)@.intake,
            old(self)@.pending.len() > 0 ==> {
                &&& r == Step::Run(old(self)@.pending[0])
                &&& final(self)@.pending == old(self)@.pending.drop_first()
                &&& final(self)@.handed_out == old(self)@.handed_out.push(old(self)@.pending[0])
                &&& final(self)@.workers == old(self)@.workers
            },
            old(self)@.pending.len() == 0 && old(self)@.intake == Intake::Open ==> {
                &&& r is Wait
                &&& final(self)@ == old(self)@
            },
            old(self)@.pending.len() == 0 && old(self)@.intake == Intake::Closed ==> {
                &&& r is Exit
                &&& final(self)@.pending == old(self)@.pending
                &&& final(self)@.handed_out == old(self)@.handed_out
                &&& final(self)@.workers == old(self)@.workers.update(
                    w as int,
                    WorkerStatus::Terminated,
                )
            },
    {
        match self.pending.pop_front() {
            Some(job) => {
                self.handed_out = Ghost(self.handed_out@.push(job));
                assert(self@.submitted =~= self@.handed_out + self@.pending);
                Step::Run(job)
            },
            None => match self.intake {
                Intake::Open => Step::Wait,
                Intake::Closed => {
                    self.workers.set(w, WorkerStatus::Terminated);
                    Step::Exit
                },
            },
        }
    }

    /// Closes the intake; what is queued stays queued for the workers.
    pub fn close(&mut self)
        requires
            old(self).wf(),
        ensures
            final(self).wf(),
            final(self)@.intake == Intake::Closed,
            final(self)@.pending == old(self)@.pending,
            final(self)@.workers == old(self)@.workers,
            final(self)@.submitted == old(self)@.submitted,
            final(self)@.handed_out == old(self)@.handed_out,
    {
        self.intake = Intake::Closed;
    }
}

/// No job is handed out twice or out of turn: the jobs handed to workers are
/// exactly the oldest accepted ones, in order of acceptance.
pub proof fn lemma_handed_out_in_order<T>(s: &PoolState<T>)
    requires
        s.wf(),
    ensures
        s@.handed_out.len() <= s@.submitted.len(),
        s@.handed_out == s@.submitted.take(s@.handed_out.len() as int),
{
    assert(s@.handed_out =~= s@.submitted.take(s@.handed_out.len() as int));
}

/// Once the intake is closed and the queue drained, every accepted job has
/// been handed to a worker exactly once, in order of acceptance.
pub proof fn lemma_drained_hands_out_all<T>(s: &PoolState<T>)
    requires
        s.wf(),
        s@.intake == Intake::Closed,
        s@.pending.len() == 0,
    ensures
        s@.handed_out == s@.submitted,
{
    assert(s@.handed_out + s@.pending =~= s@.handed_out);
}

/// A worker stops only after the intake was closed and every accepted job
/// was handed out; so waiting for all workers to stop waits for every job.
pub proof fn lemma_stopped_worker_saw_all<T>(s: &PoolState<T>, w: int)
    requires
        s.wf(),
        0 <= w < s@.workers.len(),
        s@.workers[w] == WorkerStatus::Terminated,
    ensures
        s@.intake == Intake::Closed,
        s@.pending.len() == 0,
        s@.handed_out == s@.submitted,
{
    lemma_drained_hands_out_all(s);
}

} // verus!
