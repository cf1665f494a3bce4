//! The pool: a FIFO job queue, the workers that serve it, and the ghost
//! record of every job's passage through the system.

use vstd::prelude::*;
use std::collections::VecDeque;

verus! {

use vstd::multiset::Multiset;
use crate::worker::Worker;
use crate::worker::WorkerState;
use crate::worker::job_of;
use crate::worker::running_jobs;
use crate::worker::busy_count;

/// Why constructing a pool can fail. A pool with no workers could never run
/// a job, so a requested size of zero is rejected before anything is built.
#[derive(Debug, PartialEq, Eq)]
pub enum PoolCreationError {
    ZeroSize,
}

/// What a worker's request for the next job came back with.
pub enum Received<J> {
    /// The job at the front of the queue; the worker now runs it.
    Job(J),
    /// The queue is empty but the sending end is still alive: the worker
    /// stays idle and waits for a submission to wake it.
    Empty,
    /// The queue is empty and the sending end is gone: the worker leaves its
    /// loop and terminates.
    Closed,
}

/// A fixed-size worker pool. `workers` is the bounded set of long-lived
/// workers, in creation order; `queue` is the unbounded FIFO channel of jobs
/// submitted but not yet handed to a worker; `sender_alive` records whether
/// the submitting end still exists (it is dropped first at teardown).
///
/// Three ghost fields record the history the contracts speak of:
/// `submitted` is every job ever accepted by `execute`, in submission order;
/// `started` is every job handed to a worker, in hand-off order; `finished`
/// is the collection of jobs that ran to completion, with no order, since
/// workers complete independently.
pub struct ThreadPool<J> {
    pub workers: Vec<Worker<J>>,
    pub queue: VecDeque<J>,
    pub sender_alive: bool,
    pub submitted: Ghost<Seq<J>>,
    pub started: Ghost<Seq<J>>,
    pub finished: Ghost<Multiset<J>>,
}

impl<J> ThreadPool<J> {
    /// The pool's invariant, established by `new` and preserved by every
    /// operation:
    /// - there is at least one worker, and each carries its index as its id;
    /// - the jobs handed out so far followed by the jobs still queued are
    ///   exactly the jobs submitted, in order (FIFO discipline);
    /// - the jobs handed out are exactly the finished ones plus the ones the
    ///   workers are running now (each hand-off runs exactly once);
    /// - no worker terminates while the sending end is alive;
    /// - the workers only all terminate once the queue has been drained.
    pub open spec fn wf(&self) -> bool {
        &&& self.workers@.len() >= 1
        &&& (forall|i: int|
            0 <= i < self.workers@.len() ==> (#[trigger] self.workers@[i]).id == i)
        &&& self.started@ + self.queue@ == self.submitted@
        &&& self.finished@.add(running_jobs(self.workers@)) == self.started@.to_multiset()
        &&& (self.sender_alive ==> forall|i: int|
            0 <= i < self.workers@.len() ==> !((#[trigger] self.workers@[i]).state is Done))
        &&& ((forall|i: int|
            0 <= i < self.workers@.len() ==> (#[trigger] self.workers@[i]).state is Done)
            ==> self.queue@.len() == 0)
    }

    /// Build a pool of exactly `size` workers sharing one empty queue.
    /// A size of zero is the one rejected input; any positive size succeeds,
    /// with every worker idle and nothing yet submitted.
    pub fn new(size: usize) -> (r: Result<ThreadPool<J>, PoolCreationError>)
        ensures
            r is Err <==> size == 0,
            r matches Err(e) ==> e is ZeroSize,
            r matches Ok(p) ==> {
                &&& p.wf()
                &&& p.workers@.len() == size
                &&& (forall|i: int|
                    0 <= i < size ==> (#[trigger] p.workers@[i]).state is Idle)
                &&& p.queue@ == Seq::<J>::empty()
                &&& p.sender_alive
                &&& p.submitted@ == Seq::<J>::empty()
                &&& p.started@ == Seq::<J>::empty()
                &&& p.finished@ == Multiset::<J>::empty()
            },
    {
        if size == 0 {
            return Err(PoolCreationError::ZeroSize);
        }
        let mut workers: Vec<Worker<J>> = Vec::with_capacity(size);
        let mut id: usize = 0;
        while id < size
            invariant
                id <= size,
                workers@.len() == id,
                forall|i: int|
                    0 <= i < id ==> (#[trigger] workers@[i]).id == i
                        && workers@[i].state is Idle,
                running_jobs(workers@) == Multiset::<J>::empty(),
            decreases size - id,
        {
            let w = Worker::new(id);
            proof {
                crate::worker::lemma_running_jobs_push(workers@, w);
                broadcast use vstd::multiset::group_multiset_axioms;

                assert(running_jobs(workers@.push(w)) =~= Multiset::<J>::empty());
            }
            workers.push(w);
            id = id + 1;
        }
        let pool = ThreadPool {
            workers,
            queue: VecDeque::new(),
            sender_alive: true,
            submitted: Ghost(Seq::empty()),
            started: Ghost(Seq::empty()),
            finished: Ghost(Multiset::empty()),
        };
        proof {
            broadcast use vstd::multiset::group_multiset_axioms;

            assert(pool.started@ + pool.queue@ =~= pool.submitted@);
            pool.started@.to_multiset_ensures();
            vstd::multiset::lemma_multiset_empty_len(pool.started@.to_multiset());
            assert(pool.finished@.add(running_jobs(pool.workers@)) =~= pool.started@.to_multiset());
        }
        Ok(pool)
    }

    /// Submit a job. While the sending end is alive the job is appended to
    /// the queue and the call returns at once, without waiting for the job
    /// to run. Once the pool has begun shutting down the job is handed back
    /// unrun: a submission after teardown is a caller lifecycle error and is
    /// reported, never silently swallowed.
    pub fn execute(&mut self, job: J) -> (r: Result<(), J>)
        requires
            old(self).wf(),
        ensures
            final(self).wf(),
            old(self).sender_alive ==> {
                &&& r is Ok
                &&& final(self).queue@ == old(self).queue@.push(job)
                &&& final(self).submitted@ == old(self).submitted@.push(job)
                &&& final(self).workers@ == old(self).workers@
                &&& final(self).started@ == old(self).started@
                &&& final(self).finished@ == old(self).finished@
                &&& final(self).sender_alive
            },
            !old(self).sender_alive ==> {
                &&& r matches Err(j) && j == job
                &&& *final(self) == *old(self)
            },
    {
        if !self.sender_alive {
            return Err(job);
        }
        self.submitted = Ghost(self.submitted@.push(job));
        self.queue.push_back(job);
        proof {
            assert(self.started@ + self.queue@ =~= self.submitted@);
            assert(!(self.workers@[0].state is Done));
        }
        Ok(())
    }

    /// An idle worker asks for its next job. Exactly one of three things
    /// happens, decided by the queue and the sending end:
    /// - the queue holds a job: the worker takes the front one (submission
    ///   order) and runs it;
    /// - the queue is empty but submissions may still come: the worker keeps
    ///   waiting;
    /// - the queue is empty and the sending end is gone: the worker
    ///   terminates. Because a closed signal is only ever seen on an empty
    ///   queue, no queued job is abandoned by teardown.
    pub fn recv(&mut self, wid: usize) -> (r: Received<J>)
        requires
            old(self).wf(),
            wid < old(self).workers@.len(),
            old(self).workers@[wid as int].state is Idle,
        ensures
            final(self).wf(),
            final(self).workers@.len() == old(self).workers@.len(),
            final(self).submitted@ == old(self).submitted@,
            final(self).finished@ == old(self).finished@,
            final(self).sender_alive == old(self).sender_alive,
            r is Job <==> old(self).queue@.len() > 0,
            r is Empty <==> (old(self).queue@.len() == 0 && old(self).sender_alive),
            r is Closed <==> (old(self).queue@.len() == 0 && !old(self).sender_alive),
            r matches Received::Job(j) ==> {
                &&& j == old(self).queue@[0]
                &&& final(self).queue@ == old(self).queue@.drop_first()
                &&& final(self).started@ == old(self).started@.push(j)
                &&& final(self).workers@[wid as int].id == wid
                &&& final(self).workers@[wid as int].state matches WorkerState::Running(g)
                    && g@ == j
                &&& (forall|i: int|
                    0 <= i < old(self).workers@.len() && i != wid
                        ==> final(self).workers@[i] == old(self).workers@[i])
            },
            r is Empty ==> {
                &&& final(self).queue@ == old(self).queue@
                &&& final(self).started@ == old(self).started@
                &&& final(self).workers@ == old(self).workers@
            },
            r is Closed ==> {
                &&& final(self).queue@ == old(self).queue@
                &&& final(self).started@ == old(self).started@
                &&& final(self).workers@[wid as int].id == wid
                &&& final(self).workers@[wid as int].state is Done
                &&& (forall|i: int|
                    0 <= i < old(self).workers@.len() && i != wid
                        ==> final(self).workers@[i] == old(self).workers@[i])
            },
    {
        match self.queue.pop_front() {
            Some(j) => {
                let ghost ws0 = self.workers@;
                self.started = Ghost(self.started@.push(j));
                let w = Worker { id: wid, state: WorkerState::Running(Ghost(j)) };
                proof {
                    crate::worker::lemma_running_jobs_update(ws0, wid as int, w);
                }
                self.workers[wid] = w;
                proof {
                    broadcast use vstd::multiset::group_multiset_axioms;

                    vstd::seq_lib::to_multiset_build(old(self).started@, j);
                    assert(self.started@ + self.queue@ =~= self.submitted@);
                    assert(job_of(ws0[wid as int]) =~= Multiset::<J>::empty());
                    assert(job_of(w) =~= Multiset::<J>::singleton(j));
                    assert forall|v: J|
                        self.finished@.add(running_jobs(self.workers@)).count(v)
                            == self.started@.to_multiset().count(v) by {
                        assert(running_jobs(self.workers@).add(job_of(ws0[wid as int])).count(v)
                            == running_jobs(ws0).add(job_of(w)).count(v));
                        assert(old(self).finished@.add(running_jobs(ws0)).count(v)
                            == old(self).started@.to_multiset().count(v));
                        assert(self.started@.to_multiset().count(v)
                            == old(self).started@.to_multiset().add(
                            Multiset::<J>::singleton(j),
                        ).count(v));
                    }
                    assert(self.finished@.add(running_jobs(self.workers@))
                        =~= self.started@.to_multiset());
                    assert(!(self.workers@[wid as int].state is Done));
                }
                Received::Job(j)
            },
            None => {
                if self.sender_alive {
                    Received::Empty
                } else {
                    let ghost ws0 = self.workers@;
                    let w = Worker { id: wid, state: WorkerState::Done };
                    proof {
                        crate::worker::lemma_running_jobs_update(ws0, wid as int, w);
                    }
                    self.workers[wid] = w;
                    proof {
                        broadcast use vstd::multiset::group_multiset_axioms;

                        assert(job_of(ws0[wid as int]) =~= Multiset::<J>::empty());
                        assert(job_of(w) =~= Multiset::<J>::empty());
                        assert forall|v: J|
                            running_jobs(self.workers@).count(v) == running_jobs(ws0).count(
                                v,
                            ) by {
                            assert(running_jobs(self.workers@).add(
                                job_of(ws0[wid as int]),
                            ).count(v) == running_jobs(ws0).add(job_of(w)).count(v));
                        }
                        assert(running_jobs(self.workers@) =~= running_jobs(ws0));
                        assert(self.finished@.add(running_jobs(self.workers@))
                            =~= self.started@.to_multiset());
                    }
                    Received::Closed
                }
            },
        }
    }

    /// The worker `wid` reports that the job it was running has run to
    /// completion; the worker is idle again and the job joins the finished
    /// record, exactly once.
    pub fn finish(&mut self, wid: usize)
        requires
            old(self).wf(),
            wid < old(self).workers@.len(),
            old(self).workers@[wid as int].state is Running,
        ensures
            final(self).wf(),
            final(self).workers@.len() == old(self).workers@.len(),
            final(self).workers@[wid as int].id == wid,
            final(self).workers@[wid as int].state is Idle,
            forall|i: int|
                0 <= i < old(self).workers@.len() && i != wid
                    ==> final(self).workers@[i] == old(self).workers@[i],
            final(self).queue@ == old(self).queue@,
            final(self).submitted@ == old(self).submitted@,
            final(self).started@ == old(self).started@,
            final(self).sender_alive == old(self).sender_alive,
            final(self).finished@ == old(self).finished@.insert(
                old(self).workers@[wid as int].state->0@,
            ),
    {
        let ghost ws0 = self.workers@;
        let ghost j = ws0[wid as int].state->0@;
        self.finished = Ghost(self.finished@.insert(j));
        let w = Worker { id: wid, state: WorkerState::Idle };
        proof {
            crate::worker::lemma_running_jobs_update(ws0, wid as int, w);
        }
        self.workers[wid] = w;
        proof {
            broadcast use vstd::multiset::group_multiset_axioms;

            assert(job_of(ws0[wid as int]) =~= Multiset::<J>::singleton(j));
            assert(job_of(w) =~= Multiset::<J>::empty());
            assert forall|v: J|
                self.finished@.add(running_jobs(self.workers@)).count(v)
                    == self.started@.to_multiset().count(v) by {
                assert(running_jobs(self.workers@).add(job_of(ws0[wid as int])).count(v)
                    == running_jobs(ws0).add(job_of(w)).count(v));
                assert(old(self).finished@.add(running_jobs(ws0)).count(v)
                    == old(self).started@.to_multiset().count(v));
                assert(self.finished@.count(v) == old(self).finished@.add(
                    Multiset::<J>::singleton(j),
                ).count(v));
            }
            assert(self.finished@.add(running_jobs(self.workers@))
                =~= self.started@.to_multiset());
            assert(!(self.workers@[wid as int].state is Done));
        }
    }

    /// Drop the sending end: the pool stops accepting submissions, and once
    /// the queue has drained each worker's next request reports the closed
    /// channel. Teardown closes the sending end before joining the workers;
    /// joining first would wait forever on workers still blocked on a queue
    /// that can never close.
    pub fn close(&mut self)
        requires
            old(self).wf(),
        ensures
            final(self).wf(),
            !final(self).sender_alive,
            final(self).workers@ == old(self).workers@,
            final(self).queue@ == old(self).queue@,
            final(self).submitted@ == old(self).submitted@,
            final(self).started@ == old(self).started@,
            final(self).finished@ == old(self).finished@,
    {
        self.sender_alive = false;
    }

    /// How many workers the pool was built with.
    pub fn worker_count(&self) -> (n: usize)
        ensures
            n == self.workers@.len(),
    {
        self.workers.len()
    }

    /// How many submitted jobs have not yet been handed to a worker.
    pub fn queued_count(&self) -> (n: usize)
        ensures
            n == self.queue@.len(),
    {
        self.queue.len()
    }

    /// Whether the sending end of the channel is still alive, that is,
    /// whether a submission would still be accepted.
    pub fn is_open(&self) -> (b: bool)
        ensures
            b == self.sender_alive,
    {
        self.sender_alive
    }

    /// Whether the worker `wid` is idle and could take a job.
    pub fn worker_is_idle(&self, wid: usize) -> (b: bool)
        requires
            wid < self.workers@.len(),
        ensures
            b == (self.workers@[wid as int].state is Idle),
    {
        match self.workers[wid].state {
            WorkerState::Idle => true,
            _ => false,
        }
    }

    /// How many workers are running a job right now.
    pub fn running_count(&self) -> (n: usize)
        ensures
            n == busy_count(self.workers@),
            n <= self.workers@.len(),
    {
        let ghost ws = self.workers@;
        let mut n: usize = 0;
        let mut i: usize = 0;
        while i < self.workers.len()
            invariant
                i <= ws.len(),
                ws == self.workers@,
                n == busy_count(ws.take(i as int)),
                n <= i,
            decreases ws.len() - i,
        {
            proof {
                assert(ws.take(i + 1).drop_last() =~= ws.take(i as int));
                assert(ws.take(i + 1).last() == ws[i as int]);
            }
            match self.workers[i].state {
                WorkerState::Running(_) => {
                    n = n + 1;
                },
                _ => {},
            }
            i = i + 1;
        }
        proof {
            assert(ws.take(ws.len() as int) =~= ws);
        }
        n
    }
}

/// Jobs are handed to workers in submission order: the hand-off record is
/// exactly the first `started` submissions, unreordered. In particular, a
/// job submitted strictly before another is handed out strictly before it.
pub proof fn lemma_starts_follow_submission_order<J>(p: &ThreadPool<J>)
    requires
        p.wf(),
    ensures
        p.started@.len() <= p.submitted@.len(),
        p.started@ == p.submitted@.take(p.started@.len() as int),
{
    assert(p.submitted@.take(p.started@.len() as int) =~= p.started@);
}

/// Once the queue is drained and no worker is mid-job, every submitted job
/// has finished, each exactly as often as it was submitted: no job is lost
/// and none runs twice.
pub proof fn lemma_drained_pool_ran_every_job_once<J>(p: &ThreadPool<J>)
    requires
        p.wf(),
        p.queue@.len() == 0,
        forall|i: int| 0 <= i < p.workers@.len() ==> !((#[trigger] p.workers@[i]).state is Running),
    ensures
        p.finished@ == p.submitted@.to_multiset(),
{
    broadcast use vstd::multiset::group_multiset_axioms;

    crate::worker::lemma_no_busy_no_running(p.workers@);
    assert(p.started@ =~= p.started@ + p.queue@);
    assert(p.finished@ =~= p.finished@.add(running_jobs(p.workers@)));
}

/// Teardown is clean: when every worker has terminated, the sending end was
/// gone, the queue had been drained first, and every job submitted before
/// the close ran to completion exactly once. Workers never terminate with
/// queued work left behind, and no worker is leaked mid-job.
pub proof fn lemma_teardown_complete<J>(p: &ThreadPool<J>)
    requires
        p.wf(),
        forall|i: int| 0 <= i < p.workers@.len() ==> (#[trigger] p.workers@[i]).state is Done,
    ensures
        !p.sender_alive,
        p.queue@.len() == 0,
        p.finished@ == p.submitted@.to_multiset(),
{
    assert(p.workers@[0].state is Done);
    lemma_drained_pool_ran_every_job_once(p);
}

/// At most `worker count` jobs are ever in execution at once: each busy
/// worker runs exactly one job, and there is no other way for a job to run.
pub proof fn lemma_concurrency_bounded<J>(p: &ThreadPool<J>)
    requires
        p.wf(),
    ensures
        running_jobs(p.workers@).len() == busy_count(p.workers@),
        busy_count(p.workers@) <= p.workers@.len(),
{
    crate::worker::lemma_running_jobs_len(p.workers@);
}

/// When as many jobs are running as there are workers, no worker is idle,
/// so no further job can be handed out (`recv` asks for an idle worker)
/// until one of the running jobs finishes.
pub proof fn lemma_full_pool_blocks_new_starts<J>(p: &ThreadPool<J>)
    requires
        p.wf(),
        busy_count(p.workers@) == p.workers@.len(),
    ensures
        forall|i: int| 0 <= i < p.workers@.len() ==> !((#[trigger] p.workers@[i]).state is Idle),
{
    crate::worker::lemma_all_busy(p.workers@);
}

/// With a single worker, execution is strictly serial: whenever the worker
/// is idle — in particular at the instant it takes its next job — every job
/// handed out so far has already finished. A job submitted earlier therefore
/// completes before a later one starts.
pub proof fn lemma_single_worker_serial<J>(p: &ThreadPool<J>)
    requires
        p.wf(),
        p.workers@.len() == 1,
        p.workers@[0].state is Idle,
    ensures
        p.finished@ == p.started@.to_multiset(),
{
    broadcast use vstd::multiset::group_multiset_axioms;

    crate::worker::lemma_no_busy_no_running(p.workers@);
    assert(p.finished@ =~= p.finished@.add(running_jobs(p.workers@)));
}

} // verus!
