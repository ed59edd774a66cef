//! The worker pool: its sizing rule, the worker state machine, and a model
//! of a batch run — jobs queued in submission order, each claimed exactly
//! once and answered by exactly one analysis on the result stream.
//!
//! The threads themselves live outside the library; it decides, the caller
//! performs.  [`worker_step`] is the decision a worker takes on each
//! dequeue, and [`Batch`] is the queue-and-results model that pins what a
//! full run delivers.

use crate::analyzer::{analyze_read, clock_nanos, spec_analysis_matches, FileAnalysis};
use vstd::prelude::*;

verus! {

/// The number of workers a pool actually creates for a requested size: a
/// request of zero is coerced to one, so that a pool always has at least
/// one worker and never panics.
pub fn effective_pool_size(requested: usize) -> (n: usize)
    ensures
        n == if requested == 0 {
            1usize
        } else {
            requested
        },
        n >= 1,
{
    if requested == 0 {
        1
    } else {
        requested
    }
}

/// The state of one worker: running until the queue is closed and empty,
/// then stopped for good.
#[derive(Clone, Copy, PartialEq, Eq, Structural, Debug)]
pub enum WorkerState {
    Running,
    Stopped,
}

/// What a worker's dequeue attempt came back with.
#[derive(Clone, Copy, PartialEq, Eq, Structural, Debug)]
pub enum WorkerEvent {
    /// The dequeue claimed a job.
    JobArrived,
    /// The queue is closed and empty; no further job will arrive.
    QueueClosed,
}

/// What the worker does next.
#[derive(Clone, Copy, PartialEq, Eq, Structural, Debug)]
pub enum WorkerAction {
    /// Execute the claimed job, then dequeue again.
    RunJob,
    /// Leave the loop; the worker's thread ends.
    Exit,
}

/// One step of the worker state machine: a running worker executes each
/// job it claims and keeps running; it stops exactly when the queue is
/// closed.  `Stopped` is terminal, so a step is only taken while running.
pub fn worker_step(state: WorkerState, event: WorkerEvent) -> (r: (WorkerState, WorkerAction))
    requires
        state is Running,
    ensures
        event is JobArrived ==> r == (WorkerState::Running, WorkerAction::RunJob),
        event is QueueClosed ==> r == (WorkerState::Stopped, WorkerAction::Exit),
{
    match event {
        WorkerEvent::JobArrived => (WorkerState::Running, WorkerAction::RunJob),
        WorkerEvent::QueueClosed => (WorkerState::Stopped, WorkerAction::Exit),
    }
}

/// One unit of work: the display path of one file and the outcome of its
/// two reads, performed when the job was claimed.  A job is consumed by
/// exactly one run.
pub struct Job {
    /// The display path of the file.
    pub filename: String,
    /// The size from the metadata lookup, or the failure's description.
    pub meta: Result<u64, String>,
    /// The file's text, or the failure's description.
    pub content: Result<String, String>,
}

/// Whether `a` is the one analysis that running `job` delivers (the
/// processing time aside, which depends on the clock).
pub open spec fn spec_job_result(a: FileAnalysis, job: Job) -> bool {
    spec_analysis_matches(a, job.filename@, job.meta, job.content)
}

/// A model of one batch run: the pending side of the job queue and the
/// collected side of the result stream.  Jobs enter in submission order;
/// each is claimed exactly once and contributes exactly one result.
pub struct Batch {
    /// Submitted jobs not yet claimed, oldest first.
    pub pending: Vec<Job>,
    /// Results delivered so far, in completion order.
    pub results: Vec<FileAnalysis>,
    /// Whether the queue still accepts submissions; shutdown closes it.
    pub queue_open: bool,
}

impl Batch {
    /// An empty batch: nothing pending, nothing delivered, queue open.
    pub fn new() -> (b: Batch)
        ensures
            b.pending@ == Seq::<Job>::empty(),
            b.results@ == Seq::<FileAnalysis>::empty(),
            b.queue_open,
    {
        Batch { pending: Vec::new(), results: Vec::new(), queue_open: true }
    }

    /// Enqueues one job and returns at once: submission is fire-and-forget
    /// and never runs the job itself.  Submitting to a closed queue is a
    /// caller bug — the batch must outlive all submissions — so the
    /// contract rules it out.
    pub fn submit(&mut self, job: Job)
        requires
            old(self).queue_open,
        ensures
            final(self).pending@ == old(self).pending@.push(job),
            final(self).results@ == old(self).results@,
            final(self).queue_open,
    {
        self.pending.push(job);
    }

    /// Claims the oldest pending job — a job is claimed by one worker only
    /// — runs its analysis and delivers the result.
    pub fn run_next(&mut self)
        requires
            old(self).pending@.len() > 0,
        ensures
            final(self).pending@ == old(self).pending@.drop_first(),
            final(self).results@.len() == old(self).results@.len() + 1,
            forall|i: int|
                0 <= i < old(self).results@.len() ==> final(self).results@[i] == old(
                    self,
                ).results@[i],
            spec_job_result(final(self).results@.last(), old(self).pending@[0]),
            final(self).queue_open == old(self).queue_open,
    {
        let start_nanos = clock_nanos();
        let job = self.pending.remove(0);
        let a = analyze_read(job.filename, job.meta, job.content, start_nanos);
        self.results.push(a);
        proof {
            assert(self.pending@ =~= old(self).pending@.drop_first());
        }
    }

    /// Closes the queue and runs every pending job: returns only once each
    /// submitted job has delivered its result.  Results already delivered
    /// stay untouched; each job's result lands on the stream exactly once.
    /// Shutting down an already closed batch is harmless: nothing is
    /// pending, so nothing changes.
    #[verifier::loop_isolation(false)]
    pub fn shutdown(&mut self)
        ensures
            !final(self).queue_open,
            final(self).pending@.len() == 0,
            final(self).results@.len() == old(self).results@.len() + old(self).pending@.len(),
            forall|i: int|
                0 <= i < old(self).results@.len() ==> final(self).results@[i] == old(
                    self,
                ).results@[i],
            forall|i: int|
                0 <= i < old(self).pending@.len() ==> spec_job_result(
                    #[trigger] final(self).results@[old(self).results@.len() + i],
                    old(self).pending@[i],
                ),
    {
        let ghost jobs0 = old(self).pending@;
        let ghost results0 = old(self).results@;
        while self.pending.len() > 0
            invariant
                self.results@.len() >= results0.len(),
                self.results@.len() - results0.len() + self.pending@.len() == jobs0.len(),
                self.pending@ == jobs0.subrange(
                    self.results@.len() - results0.len(),
                    jobs0.len() as int,
                ),
                forall|i: int|
                    0 <= i < results0.len() ==> self.results@[i] == results0[i],
                forall|i: int|
                    0 <= i < self.results@.len() - results0.len() ==> spec_job_result(
                        #[trigger] self.results@[results0.len() + i],
                        jobs0[i],
                    ),
            decreases self.pending@.len(),
        {
            proof {
                let done = self.results@.len() - results0.len();
                assert(self.pending@[0] == jobs0[done]);
                assert(self.pending@.drop_first() =~= jobs0.subrange(
                    done + 1,
                    jobs0.len() as int,
                ));
            }
            self.run_next();
        }
        self.queue_open = false;
    }
}

/// Every submitted job yields exactly one result, with no duplicates and
/// no omissions, whatever order completions arrive in: the multiset of
/// delivered file names equals the multiset of submitted file names.
pub proof fn lemma_one_result_per_job(jobs: Seq<Job>, results: Seq<FileAnalysis>)
    requires
        results.len() == jobs.len(),
        forall|i: int|
            0 <= i < jobs.len() ==> spec_job_result(#[trigger] results[i], jobs[i]),
    ensures
        results.map_values(|a: FileAnalysis| a.filename@).to_multiset() == jobs.map_values(
            |j: Job| j.filename@,
        ).to_multiset(),
{
    assert(results.map_values(|a: FileAnalysis| a.filename@) =~= jobs.map_values(
        |j: Job| j.filename@,
    ));
}

} // verus!
