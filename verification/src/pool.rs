//! The worker pool's delivery discipline, as a verified model.
//!
//! The pool itself is threads, a shared queue and a lock, which live
//! outside this library; what can be verified is the bookkeeping they
//! must respect. Jobs are numbered in submission order. A job waits in
//! the shared queue, is then taken by exactly one worker — taking is
//! the step the lock makes atomic — runs on that worker, and finishes.
//! The invariant pins delivery at most once: the queue holds exactly
//! the submitted-but-untaken jobs in submission order, no two workers
//! run the same job, and a finished job is never run again.
use vstd::prelude::*;

verus! {

/// The bookkeeping state of a pool with a fixed set of workers: how
/// many jobs were submitted, which of them wait in the queue, which
/// job each worker is running, and which have finished.
pub struct PoolModel {
    /// The fixed number of workers.
    pub size: usize,
    /// Jobs numbered `0 .. submitted` have been submitted.
    pub submitted: usize,
    /// The submitted-but-untaken jobs, oldest first.
    pub queue: Vec<usize>,
    /// For each worker, the job it is running, if any.
    pub running: Vec<Option<usize>>,
    /// The finished jobs, in completion order.
    pub finished: Vec<usize>,
}

impl PoolModel {
    /// The number of jobs that have left the queue.
    pub open spec fn taken(self) -> int {
        self.submitted - self.queue@.len()
    }

    /// The pool's invariant: the queue holds exactly the untaken jobs
    /// in submission order; every running or finished job was taken;
    /// no two workers run the same job; no job both runs and is
    /// finished; and no job finishes twice.
    pub open spec fn inv(self) -> bool {
        &&& self.running@.len() == self.size
        &&& self.queue@.len() <= self.submitted
        &&& forall|i: int| 0 <= i < self.queue@.len() ==> self.queue@[i] == self.taken() + i
        &&& forall|w: int|
            0 <= w < self.running@.len() ==> (#[trigger] self.running@[w] matches Some(id)
                ==> id < self.taken())
        &&& forall|i: int| 0 <= i < self.finished@.len() ==> self.finished@[i] < self.taken()
        &&& forall|w1: int, w2: int|
            0 <= w1 < self.running@.len() && 0 <= w2 < self.running@.len() && w1 != w2
                ==> !(self.running@[w1] is Some && self.running@[w1] == self.running@[w2])
        &&& forall|w: int, i: int|
            0 <= w < self.running@.len() && 0 <= i < self.finished@.len()
                ==> self.running@[w] != Some(self.finished@[i])
        &&& forall|i: int, j: int|
            0 <= i < self.finished@.len() && 0 <= j < self.finished@.len() && i != j
                ==> self.finished@[i] != self.finished@[j]
    }

    /// A worker may take a job: it is idle and a job is waiting.
    pub open spec fn can_take(self, w: int) -> bool {
        &&& 0 <= w < self.size
        &&& self.running@[w] is None
        &&& self.queue@.len() > 0
    }

    /// An empty pool with `size` idle workers.
    pub fn new(size: usize) -> (r: PoolModel)
        ensures
            r.inv(),
            r.size == size,
            r.submitted == 0,
            r.queue@.len() == 0,
            r.finished@.len() == 0,
            forall|w: int| 0 <= w < size ==> r.running@[w] is None,
    {
        let mut running: Vec<Option<usize>> = Vec::new();
        let mut w: usize = 0;
        while w < size
            invariant
                0 <= w <= size,
                running@.len() == w,
                forall|i: int| 0 <= i < w ==> running@[i] is None,
            decreases size - w,
        {
            running.push(None);
            w += 1;
        }
        PoolModel { size, submitted: 0, queue: Vec::new(), running, finished: Vec::new() }
    }

    /// Submits one job: it gets the next number and joins the back of
    /// the queue.
    pub fn submit(&mut self) -> (id: usize)
        requires
            old(self).inv(),
            old(self).submitted < usize::MAX,
        ensures
            final(self).inv(),
            id == old(self).submitted,
            final(self).submitted == old(self).submitted + 1,
            final(self).queue@ == old(self).queue@.push(id),
            final(self).running == old(self).running,
            final(self).finished == old(self).finished,
            final(self).size == old(self).size,
    {
        let id = self.submitted;
        self.queue.push(id);
        self.submitted = self.submitted + 1;
        id
    }

    /// An idle worker takes the job at the front of the queue: the
    /// oldest waiting job, delivered to this worker and to no other.
    /// This is the step the pool's lock makes atomic.
    pub fn take(&mut self, w: usize) -> (id: usize)
        requires
            old(self).inv(),
            old(self).can_take(w as int),
        ensures
            final(self).inv(),
            id == old(self).queue@[0],
            final(self).queue@ == old(self).queue@.drop_first(),
            final(self).running@ == old(self).running@.update(w as int, Some(id)),
            final(self).submitted == old(self).submitted,
            final(self).finished == old(self).finished,
            final(self).size == old(self).size,
    {
        let id = self.queue.remove(0);
        self.running[w] = Some(id);
        proof {
            assert(final(self).queue@ =~= old(self).queue@.drop_first());
            assert(forall|i: int|
                0 <= i < final(self).queue@.len() ==> final(self).queue@[i] == final(self).taken()
                    + i);
        }
        id
    }

    /// The worker finishes its job; it becomes idle again and the job
    /// is recorded as done.
    pub fn finish(&mut self, w: usize) -> (id: usize)
        requires
            old(self).inv(),
            0 <= w < old(self).size,
            old(self).running@[w as int] is Some,
        ensures
            final(self).inv(),
            Some(id) == old(self).running@[w as int],
            final(self).running@ == old(self).running@.update(w as int, None),
            final(self).finished@ == old(self).finished@.push(id),
            final(self).queue == old(self).queue,
            final(self).submitted == old(self).submitted,
            final(self).size == old(self).size,
    {
        let id = self.running[w].unwrap();
        self.running[w] = None;
        self.finished.push(id);
        id
    }
}

/// A job is run by at most one worker: two workers running the same
/// job are the same worker.
pub proof fn lemma_job_exclusive(p: PoolModel, w1: int, w2: int)
    requires
        p.inv(),
        0 <= w1 < p.size,
        0 <= w2 < p.size,
        p.running@[w1] is Some,
        p.running@[w1] == p.running@[w2],
    ensures
        w1 == w2,
{
}

/// A finished job never runs again: no worker is running a job that is
/// already recorded as done.
pub proof fn lemma_finished_stays_finished(p: PoolModel, w: int, i: int)
    requires
        p.inv(),
        0 <= w < p.size,
        0 <= i < p.finished@.len(),
    ensures
        p.running@[w] != Some(p.finished@[i]),
{
}

/// Under a pool of one worker, jobs are strictly serialized: while the
/// worker is running a job, no worker can take another, so a second
/// job starts only after the first finishes.
pub proof fn lemma_single_worker_serializes(p: PoolModel)
    requires
        p.inv(),
        p.size == 1,
        p.running@[0] is Some,
    ensures
        forall|w: int| !p.can_take(w),
{
}

} // verus!
