//! Workers and the ghost accounting of the jobs they are running.

use vstd::prelude::*;

verus! {

use vstd::multiset::Multiset;

/// What a single worker is doing at a given moment of the pool's life.
pub enum WorkerState<J> {
    /// Blocked on the shared receiving end, waiting for the next job.
    Idle,
    /// Running the job it pulled from the queue. The job itself was handed
    /// to the worker's thread; a ghost copy stays here for accounting.
    Running(Ghost<J>),
    /// Terminated: the worker observed the closed, drained queue, left its
    /// loop, and its thread exited.
    Done,
}

/// A long-lived worker: a stable identifier plus its current state. The
/// identifier is for diagnostics only and equals the worker's index in the
/// pool that owns it.
pub struct Worker<J> {
    pub id: usize,
    pub state: WorkerState<J>,
}

impl<J> Worker<J> {
    /// A freshly spawned worker: idle, waiting for its first job.
    pub fn new(id: usize) -> (w: Worker<J>)
        ensures
            w.id == id,
            w.state is Idle,
    {
        Worker { id, state: WorkerState::Idle }
    }
}

/// The jobs the worker `w` is running: one job when it is mid-execution,
/// none otherwise.
pub open spec fn job_of<J>(w: Worker<J>) -> Multiset<J> {
    match w.state {
        WorkerState::Running(j) => Multiset::singleton(j@),
        _ => Multiset::empty(),
    }
}

/// All jobs currently in execution across the workers `ws`.
pub open spec fn running_jobs<J>(ws: Seq<Worker<J>>) -> Multiset<J>
    decreases ws.len(),
{
    if ws.len() == 0 {
        Multiset::empty()
    } else {
        running_jobs(ws.drop_last()).add(job_of(ws.last()))
    }
}

/// How many of the workers `ws` are mid-execution.
pub open spec fn busy_count<J>(ws: Seq<Worker<J>>) -> nat
    decreases ws.len(),
{
    if ws.len() == 0 {
        0
    } else {
        busy_count(ws.drop_last()) + (if ws.last().state is Running { 1nat } else { 0nat })
    }
}

/// Appending a worker adds exactly that worker's contribution to the jobs in
/// execution.
pub proof fn lemma_running_jobs_push<J>(ws: Seq<Worker<J>>, w: Worker<J>)
    ensures
        running_jobs(ws.push(w)) == running_jobs(ws).add(job_of(w)),
{
    assert(ws.push(w).drop_last() =~= ws);
    assert(ws.push(w).last() == w);
}

/// Replacing the worker at `i` exchanges its old contribution to the jobs in
/// execution for the new one; every other worker's contribution is untouched.
pub proof fn lemma_running_jobs_update<J>(ws: Seq<Worker<J>>, i: int, w: Worker<J>)
    requires
        0 <= i < ws.len(),
    ensures
        running_jobs(ws.update(i, w)).add(job_of(ws[i])) == running_jobs(ws).add(job_of(w)),
    decreases ws.len(),
{
    broadcast use vstd::multiset::group_multiset_axioms;

    let ws2 = ws.update(i, w);
    if i == ws.len() - 1 {
        assert(ws2.drop_last() =~= ws.drop_last());
        assert(ws2.last() == w);
        assert(running_jobs(ws2).add(job_of(ws[i])) =~= running_jobs(ws).add(job_of(w)));
    } else {
        assert(ws2.drop_last() =~= ws.drop_last().update(i, w));
        assert(ws2.last() == ws.last());
        assert(ws[i] == ws.drop_last()[i]);
        lemma_running_jobs_update(ws.drop_last(), i, w);
        assert(running_jobs(ws2) == running_jobs(ws.drop_last().update(i, w)).add(
            job_of(ws.last()),
        ));
        assert(running_jobs(ws) == running_jobs(ws.drop_last()).add(job_of(ws.last())));
        assert forall|v: J|
            running_jobs(ws2).add(job_of(ws[i])).count(v) == running_jobs(ws).add(
                job_of(w),
            ).count(v) by {
            assert(running_jobs(ws.drop_last().update(i, w)).add(job_of(ws.drop_last()[i])).count(
                v,
            ) == running_jobs(ws.drop_last()).add(job_of(w)).count(v));
        }
        assert(running_jobs(ws2).add(job_of(ws[i])) =~= running_jobs(ws).add(job_of(w)));
    }
}

/// There are exactly as many jobs in execution as there are busy workers.
pub proof fn lemma_running_jobs_len<J>(ws: Seq<Worker<J>>)
    ensures
        running_jobs(ws).len() == busy_count(ws),
        busy_count(ws) <= ws.len(),
    decreases ws.len(),
{
    broadcast use vstd::multiset::group_multiset_axioms;

    if ws.len() > 0 {
        lemma_running_jobs_len(ws.drop_last());
    }
}

/// When no worker is busy, no job is in execution.
pub proof fn lemma_no_busy_no_running<J>(ws: Seq<Worker<J>>)
    requires
        forall|i: int| 0 <= i < ws.len() ==> !((#[trigger] ws[i]).state is Running),
    ensures
        running_jobs(ws) == Multiset::<J>::empty(),
    decreases ws.len(),
{
    broadcast use vstd::multiset::group_multiset_axioms;

    if ws.len() > 0 {
        assert(forall|i: int|
            0 <= i < ws.drop_last().len() ==> !((#[trigger] ws.drop_last()[i]).state is Running));
        lemma_no_busy_no_running(ws.drop_last());
        assert(ws.last() == ws[ws.len() - 1]);
        assert(running_jobs(ws) =~= Multiset::<J>::empty());
    }
}

/// When as many workers are busy as there are workers, every single one of
/// them is busy.
pub proof fn lemma_all_busy<J>(ws: Seq<Worker<J>>)
    requires
        busy_count(ws) == ws.len(),
    ensures
        forall|i: int| 0 <= i < ws.len() ==> (#[trigger] ws[i]).state is Running,
    decreases ws.len(),
{
    if ws.len() > 0 {
        lemma_running_jobs_len(ws.drop_last());
        assert(ws.last().state is Running);
        lemma_all_busy(ws.drop_last());
        assert(forall|i: int|
            0 <= i < ws.len() - 1 ==> (#[trigger] ws[i]) == ws.drop_last()[i]);
    }
}

} // verus!
