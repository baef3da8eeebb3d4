//! The book-keeping of a pool of workers: which jobs wait, which worker runs
//! which job, and which jobs are done.
//!
//! The pool itself runs on threads and holds the work to do; this ledger
//! decides. Whoever runs the threads asks it, under one lock, what a worker
//! has to do next, and does that.

use std::collections::VecDeque;
use vstd::prelude::*;

verus! {

/// A pool was asked for that would have no worker.
#[derive(Debug)]
pub struct PoolCreationError;

impl PoolCreationError {
    /// The error in words.
    pub fn to_string(&self) -> (text: String)
        ensures
            text@ == "a pool needs at least one worker"@,
    {
        "a pool needs at least one worker".to_owned()
    }
}

/// Why a job was not accepted.
#[derive(Debug)]
pub enum SubmitError {
    /// The pool is shutting down.
    ShutDown,
    /// The pool has handed out every job number that there is.
    Overloaded,
}

impl SubmitError {
    /// The error in words.
    pub fn to_string(&self) -> (text: String)
        ensures
            text@ == match self {
                SubmitError::ShutDown => "the pool is shutting down"@,
                SubmitError::Overloaded => "the pool cannot take more jobs"@,
            },
    {
        match self {
            SubmitError::ShutDown => "the pool is shutting down".to_owned(),
            SubmitError::Overloaded => "the pool cannot take more jobs".to_owned(),
        }
    }
}

/// What a worker has to do next.
#[derive(Debug)]
pub enum WorkerStep {
    /// Run the job with this number, then ask again.
    Run(u64),
    /// Nothing to do: wait until the pool changes, then ask again.
    Wait,
    /// Leave.
    Exit,
}

/// The state of a pool, as mathematical values.
pub struct PoolView {
    /// The jobs that wait, the one that waits longest first.
    pub queued: Seq<u64>,
    /// For each worker the job that it runs, if it runs one.
    pub running: Seq<Option<u64>>,
    /// How many jobs were accepted so far; they carry the numbers below.
    pub submitted: nat,
    /// The jobs that were run to their end.
    pub finished: Set<u64>,
    /// Whether new jobs are accepted.
    pub accepting: bool,
}

impl PoolView {
    /// A pool of `size` idle workers that has seen no job yet.
    pub open spec fn fresh(size: nat) -> PoolView {
        PoolView {
            queued: Seq::empty(),
            running: Seq::new(size, |i: int| None::<u64>),
            submitted: 0,
            finished: Set::empty(),
            accepting: true,
        }
    }

    /// The job `id` waits.
    pub open spec fn waits(self, id: u64) -> bool {
        self.queued.contains(id)
    }

    /// Some worker runs the job `id`.
    pub open spec fn runs(self, id: u64) -> bool {
        self.running.contains(Some(id))
    }

    /// The jobs that run at this moment, in the order of their workers.
    pub open spec fn executing(self) -> Seq<Option<u64>> {
        self.running.filter(|job: Option<u64>| job is Some)
    }

    /// All workers are idle and no job waits.
    pub open spec fn idle(self) -> bool {
        &&& self.queued.len() == 0
        &&& forall|w: int| 0 <= w < self.running.len() ==> self.running[w] is None
    }

    /// The pool is in order: it has a worker, and every job accepted so far
    /// is in exactly one place: it waits once, or one worker runs it, or it
    /// is done. No other job is anywhere.
    pub open spec fn wf(self) -> bool {
        &&& self.running.len() >= 1
        &&& self.submitted <= u64::MAX
        &&& self.queued.no_duplicates()
        &&& forall|v: int, w: int|
            0 <= v < self.running.len() && 0 <= w < self.running.len() && v != w
                && self.running[v] is Some ==> self.running[v] != self.running[w]
        &&& forall|id: u64| !(self.waits(id) && self.runs(id))
        &&& forall|id: u64| !(self.waits(id) && self.finished.contains(id))
        &&& forall|id: u64| !(self.runs(id) && self.finished.contains(id))
        &&& forall|id: u64|
            (self.waits(id) || self.runs(id) || self.finished.contains(id)) <==> id
                < self.submitted
    }
}

/// The pool after a job was accepted: the job gets the next number and
/// waits behind the others.
pub open spec fn submitted_step(pool: PoolView) -> PoolView {
    PoolView {
        queued: pool.queued.push(pool.submitted as u64),
        submitted: pool.submitted + 1,
        ..pool
    }
}

/// The pool after `worker` said that it is free: the job that it ran is
/// done.
pub open spec fn released(pool: PoolView, worker: int) -> PoolView {
    if 0 <= worker < pool.running.len() && pool.running[worker] is Some {
        PoolView {
            running: pool.running.update(worker, None),
            finished: pool.finished.insert(pool.running[worker].unwrap()),
            ..pool
        }
    } else {
        pool
    }
}

/// The pool after the free `worker` took the job that waited longest.
pub open spec fn claimed(pool: PoolView, worker: int) -> PoolView {
    PoolView {
        queued: pool.queued.skip(1),
        running: pool.running.update(worker, Some(pool.queued[0])),
        ..pool
    }
}

/// The pool after `worker` asked what to do next. The job that it ran is
/// done; if a job waits, the worker takes it. A worker that the pool does
/// not have changes nothing.
pub open spec fn next_pool(pool: PoolView, worker: int) -> PoolView {
    if 0 <= worker < pool.running.len() {
        let free = released(pool, worker);
        if free.queued.len() > 0 {
            claimed(free, worker)
        } else {
            free
        }
    } else {
        pool
    }
}

/// What `worker` is told when it asks what to do next: to run the job that
/// waits longest; with no job waiting, to wait while the pool accepts jobs
/// and to leave once it does not. A worker that the pool does not have is
/// told to leave.
pub open spec fn next_step(pool: PoolView, worker: int) -> WorkerStep {
    if 0 <= worker < pool.running.len() {
        if pool.queued.len() > 0 {
            WorkerStep::Run(pool.queued[0])
        } else if pool.accepting {
            WorkerStep::Wait
        } else {
            WorkerStep::Exit
        }
    } else {
        WorkerStep::Exit
    }
}

/// A fresh pool is in order.
pub proof fn lemma_fresh_wf(size: nat)
    requires
        size >= 1,
    ensures
        PoolView::fresh(size).wf(),
        PoolView::fresh(size).running.len() == size,
        PoolView::fresh(size).idle(),
{
}

/// Accepting a job keeps the pool in order.
pub proof fn lemma_submitted_wf(pool: PoolView)
    requires
        pool.wf(),
        pool.submitted < u64::MAX,
    ensures
        submitted_step(pool).wf(),
        submitted_step(pool).waits(pool.submitted as u64),
{
    let after = submitted_step(pool);
    let new = pool.submitted as u64;
    assert forall|id: u64| after.waits(id) <==> (pool.waits(id) || id == new) by {
        if pool.waits(id) {
            let i = choose|i: int| 0 <= i < pool.queued.len() && pool.queued[i] == id;
            assert(after.queued[i] == id);
        }
        if id == new {
            assert(after.queued[after.queued.len() - 1] == id);
        }
        if after.waits(id) {
            let i = choose|i: int| 0 <= i < after.queued.len() && after.queued[i] == id;
        }
    }
    assert(after.queued.no_duplicates()) by {
        assert forall|i: int, j: int|
            0 <= i < after.queued.len() && 0 <= j < after.queued.len() && i != j implies after.queued[i]
            != after.queued[j] by {
            if i < pool.queued.len() {
                assert(pool.waits(after.queued[i]));
            }
            if j < pool.queued.len() {
                assert(pool.waits(after.queued[j]));
            }
        }
    }
    assert forall|id: u64| after.runs(id) == pool.runs(id) by {}
    assert forall|id: u64| !(after.waits(id) && after.runs(id)) by {}
    assert forall|id: u64| !(after.waits(id) && after.finished.contains(id)) by {}
    assert forall|id: u64| !(after.runs(id) && after.finished.contains(id)) by {}
    assert forall|id: u64|
        (after.waits(id) || after.runs(id) || after.finished.contains(id)) <==> id
            < after.submitted by {
        assert((pool.waits(id) || pool.runs(id) || pool.finished.contains(id)) <==> id
            < pool.submitted);
    }
}

/// A worker that becomes free keeps the pool in order; the job that it ran
/// is then done and runs nowhere.
pub proof fn lemma_released_wf(pool: PoolView, worker: int)
    requires
        pool.wf(),
        0 <= worker < pool.running.len(),
    ensures
        released(pool, worker).wf(),
        released(pool, worker).running[worker] is None,
        pool.running[worker] matches Some(id) ==> released(pool, worker).finished.contains(id)
            && !released(pool, worker).runs(id),
{
    let after = released(pool, worker);
    match pool.running[worker] {
        Some(done) => {
            assert forall|id: u64| after.runs(id) <==> (pool.runs(id) && id != done) by {
                if after.runs(id) {
                    let w = choose|w: int|
                        0 <= w < after.running.len() && after.running[w] == Some(id);
                    assert(pool.running[w] == Some(id));
                }
                if pool.runs(id) && id != done {
                    let w = choose|w: int| 0 <= w < pool.running.len() && pool.running[w] == Some(id);
                    assert(after.running[w] == Some(id));
                }
            }
            assert forall|id: u64| after.waits(id) == pool.waits(id) by {}
            assert forall|id: u64| !(after.waits(id) && after.runs(id)) by {}
            assert forall|id: u64| !(after.waits(id) && after.finished.contains(id)) by {}
            assert forall|id: u64| !(after.runs(id) && after.finished.contains(id)) by {}
            assert forall|id: u64|
                (after.waits(id) || after.runs(id) || after.finished.contains(id)) <==> id
                    < after.submitted by {
                assert((pool.waits(id) || pool.runs(id) || pool.finished.contains(id)) <==> id
                    < pool.submitted);
            }
            assert forall|v: int, w: int|
                0 <= v < after.running.len() && 0 <= w < after.running.len() && v != w
                    && after.running[v] is Some implies after.running[v] != after.running[w] by {}
        },
        None => {},
    }
}

/// A free worker that takes the job that waits longest keeps the pool in
/// order; the job then runs and waits no more.
pub proof fn lemma_claimed_wf(pool: PoolView, worker: int)
    requires
        pool.wf(),
        0 <= worker < pool.running.len(),
        pool.running[worker] is None,
        pool.queued.len() > 0,
    ensures
        claimed(pool, worker).wf(),
        claimed(pool, worker).runs(pool.queued[0]),
        !claimed(pool, worker).waits(pool.queued[0]),
{
    let after = claimed(pool, worker);
    let job = pool.queued[0];
    assert(after.running[worker] == Some(job));
    assert forall|id: u64| after.waits(id) <==> (pool.waits(id) && id != job) by {
        if after.waits(id) {
            let i = choose|i: int| 0 <= i < after.queued.len() && after.queued[i] == id;
        }
        if pool.waits(id) && id != job {
            let i = choose|i: int| 0 <= i < pool.queued.len() && pool.queued[i] == id;
            assert(after.queued[i - 1] == id);
        }
    }
    assert forall|id: u64| after.runs(id) <==> (pool.runs(id) || id == job) by {
        if after.runs(id) {
            let w = choose|w: int| 0 <= w < after.running.len() && after.running[w] == Some(id);
        }
        if pool.runs(id) {
            let w = choose|w: int| 0 <= w < pool.running.len() && pool.running[w] == Some(id);
            assert(after.running[w] == Some(id));
        }
    }
    assert(after.queued.no_duplicates()) by {
        assert forall|i: int, j: int|
            0 <= i < after.queued.len() && 0 <= j < after.queued.len() && i != j implies after.queued[i]
            != after.queued[j] by {}
    }
    assert forall|v: int, w: int|
        0 <= v < after.running.len() && 0 <= w < after.running.len() && v != w
            && after.running[v] is Some implies after.running[v] != after.running[w] by {
        if v == worker && after.running[w] == Some(job) {
            assert(pool.runs(job));
        }
    }
}

/// Whatever worker asks what to do next, the pool stays in order, as many
/// workers as before, and a job that it is told to run waited before and
/// runs now, on that worker alone.
pub proof fn lemma_next_wf(pool: PoolView, worker: int)
    requires
        pool.wf(),
    ensures
        next_pool(pool, worker).wf(),
        next_pool(pool, worker).running.len() == pool.running.len(),
        next_step(pool, worker) matches WorkerStep::Run(id) ==> pool.waits(id)
            && !next_pool(pool, worker).waits(id) && next_pool(pool, worker).running[worker]
            == Some(id),
{
    if 0 <= worker < pool.running.len() {
        lemma_released_wf(pool, worker);
        let free = released(pool, worker);
        if free.queued.len() > 0 {
            lemma_claimed_wf(free, worker);
        }
    }
}

/// No more jobs run at one moment than the pool has workers.
pub proof fn lemma_executing_bound(pool: PoolView)
    ensures
        pool.executing().len() <= pool.running.len(),
{
    pool.running.lemma_filter_len(|job: Option<u64>| job is Some);
}

/// In a pool that is in order and idle, every job accepted so far is done:
/// none was lost, and by the order of the pool none is anywhere else.
pub proof fn lemma_idle_all_done(pool: PoolView)
    requires
        pool.wf(),
        pool.idle(),
    ensures
        forall|id: u64| id < pool.submitted <==> pool.finished.contains(id),
{
    assert forall|id: u64| id < pool.submitted <==> pool.finished.contains(id) by {
        if pool.runs(id) {
            let w = choose|w: int| 0 <= w < pool.running.len() && pool.running[w] == Some(id);
        }
    }
}

/// The ledger of a pool of workers.
pub struct Pool {
    queue: VecDeque<u64>,
    running: Vec<Option<u64>>,
    next_job: u64,
    finished: Ghost<Set<u64>>,
    accepting: bool,
    verbose: bool,
}

impl View for Pool {
    type V = PoolView;

    closed spec fn view(&self) -> PoolView {
        PoolView {
            queued: self.queue@,
            running: self.running@,
            submitted: self.next_job as nat,
            finished: self.finished@,
            accepting: self.accepting,
        }
    }
}

impl Pool {
    /// Whether the workers report what they do.
    pub closed spec fn verbose_mode(&self) -> bool {
        self.verbose
    }

    /// The ledger of a pool of `size` workers, all idle; an error for a
    /// pool without workers.
    pub fn new(size: usize) -> (pool: Result<Pool, PoolCreationError>)
        ensures
            pool is Ok <==> size >= 1,
            pool matches Ok(p) ==> p@ == PoolView::fresh(size as nat) && p@.wf()
                && !p.verbose_mode(),
    {
        if size == 0 {
            return Err(PoolCreationError);
        }
        let mut running: Vec<Option<u64>> = Vec::new();
        let mut i: usize = 0;
        while i < size
            invariant
                i <= size,
                running@.len() == i,
                forall|w: int| 0 <= w < i ==> running@[w] is None,
            decreases size - i,
        {
            running.push(None);
            i += 1;
        }
        let pool = Pool {
            queue: VecDeque::new(),
            running,
            next_job: 0,
            finished: Ghost(Set::empty()),
            accepting: true,
            verbose: false,
        };
        proof {
            assert(pool@.running =~= PoolView::fresh(size as nat).running);
            lemma_fresh_wf(size as nat);
        }
        Ok(pool)
    }

    /// The number of workers.
    pub fn size(&self) -> (size: usize)
        ensures
            size == self@.running.len(),
    {
        self.running.len()
    }

    /// The number of jobs that wait.
    pub fn waiting(&self) -> (n: usize)
        ensures
            n == self@.queued.len(),
    {
        self.queue.len()
    }

    /// Whether the workers report what they do.
    pub fn verbose(&self) -> (verbose: bool)
        ensures
            verbose == self.verbose_mode(),
    {
        self.verbose
    }

    /// Says whether the workers report what they do. Nothing else changes.
    pub fn set_verbose_mode(&mut self, verbose: bool)
        ensures
            final(self)@ == old(self)@,
            final(self).verbose_mode() == verbose,
    {
        self.verbose = verbose;
    }

    /// Accepts a job and gives it its number, unless the pool is shutting
    /// down or has no number left.
    pub fn submit(&mut self) -> (job: Result<u64, SubmitError>)
        ensures
            final(self).verbose_mode() == old(self).verbose_mode(),
            match job {
                Ok(id) => {
                    &&& old(self)@.accepting
                    &&& old(self)@.submitted < u64::MAX
                    &&& id == old(self)@.submitted
                    &&& final(self)@ == submitted_step(old(self)@)
                },
                Err(SubmitError::ShutDown) => !old(self)@.accepting && final(self)@ == old(self)@,
                Err(SubmitError::Overloaded) => {
                    &&& old(self)@.accepting
                    &&& old(self)@.submitted >= u64::MAX
                    &&& final(self)@ == old(self)@
                },
            },
            old(self)@.wf() ==> final(self)@.wf(),
    {
        if !self.accepting {
            return Err(SubmitError::ShutDown);
        }
        if self.next_job == u64::MAX {
            return Err(SubmitError::Overloaded);
        }
        let id = self.next_job;
        proof {
            if self@.wf() {
                lemma_submitted_wf(self@);
            }
        }
        self.queue.push_back(id);
        self.next_job = id + 1;
        Ok(id)
    }

    /// Tells `worker` what to do next. The job that the worker ran is
    /// thereby done.
    pub fn next(&mut self, worker: usize) -> (step: WorkerStep)
        ensures
            final(self)@ == next_pool(old(self)@, worker as int),
            step == next_step(old(self)@, worker as int),
            final(self).verbose_mode() == old(self).verbose_mode(),
            old(self)@.wf() ==> final(self)@.wf(),
    {
        proof {
            if self@.wf() {
                lemma_next_wf(self@, worker as int);
            }
        }
        if worker >= self.running.len() {
            return WorkerStep::Exit;
        }
        match self.running[worker] {
            Some(id) => {
                self.running.set(worker, None);
                self.finished = Ghost(self.finished@.insert(id));
            },
            None => {},
        }
        match self.queue.pop_front() {
            Some(id) => {
                self.running.set(worker, Some(id));
                WorkerStep::Run(id)
            },
            None => {
                if self.accepting {
                    WorkerStep::Wait
                } else {
                    WorkerStep::Exit
                }
            },
        }
    }

    /// Stops the pool from accepting jobs. The jobs that wait are still
    /// run; a worker that then finds none is told to leave.
    pub fn shutdown(&mut self)
        ensures
            final(self)@ == (PoolView { accepting: false, ..old(self)@ }),
            final(self).verbose_mode() == old(self).verbose_mode(),
            old(self)@.wf() ==> final(self)@.wf(),
    {
        self.accepting = false;
        proof {
            let before = old(self)@;
            let after = self@;
            assert forall|id: u64| after.waits(id) == before.waits(id) by {}
            assert forall|id: u64| after.runs(id) == before.runs(id) by {}
        }
    }
}

} // verus!
