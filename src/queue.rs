//! The FIFO job queue: new jobs and requeued jobs both join at the back.
use vstd::prelude::*;
use std::collections::VecDeque;
use crate::job::{run_slice, slice_of, Job, Slice};

verus! {

/// An ordered sequence of jobs, front first.
pub struct JobQueue {
    jobs: VecDeque<Job>,
}

/// The queue after one dispatch round on a non-empty queue `q`: the front job
/// leaves, and goes back to the end unless the round completed it.
pub open spec fn after_round(q: Seq<Job>, quantum: u32) -> Seq<Job>
    recommends
        q.len() > 0,
{
    let s = slice_of(q[0], quantum);
    if s.completed {
        q.drop_first()
    } else {
        q.drop_first().push(s.job)
    }
}

/// Round-robin order: after a round, the jobs that were waiting behind the front
/// one keep their order and each moves up one place; the front job, unless the
/// round completed it, goes behind all of them with its lowered remaining time.
pub proof fn lemma_round_keeps_order(q: Seq<Job>, quantum: u32)
    requires
        q.len() > 0,
    ensures
        forall|i: int| 0 <= i < q.len() - 1 ==> #[trigger] after_round(q, quantum)[i] == q[i + 1],
        slice_of(q[0], quantum).completed ==> after_round(q, quantum).len() == q.len() - 1,
        !slice_of(q[0], quantum).completed ==> after_round(q, quantum).len() == q.len()
            && after_round(q, quantum)[q.len() - 1] == slice_of(q[0], quantum).job,
{
}

impl View for JobQueue {
    type V = Seq<Job>;

    closed spec fn view(&self) -> Seq<Job> {
        self.jobs@
    }
}

impl JobQueue {
    /// An empty queue.
    pub fn new() -> (q: JobQueue)
        ensures
            q@ == Seq::<Job>::empty(),
    {
        JobQueue { jobs: VecDeque::new() }
    }

    /// Number of jobs waiting.
    pub fn len(&self) -> (n: usize)
        ensures
            n == self@.len(),
    {
        self.jobs.len()
    }

    /// Whether no job is waiting.
    pub fn is_empty(&self) -> (b: bool)
        ensures
            b == (self@.len() == 0),
    {
        self.jobs.len() == 0
    }

    /// The job at position `i`, counted from the front.
    pub fn get(&self, i: usize) -> (j: Option<Job>)
        ensures
            i < self@.len() ==> j == Some(self@[i as int]),
            i >= self@.len() ==> j.is_none(),
    {
        if i < self.jobs.len() {
            Some(self.jobs[i])
        } else {
            None
        }
    }

    /// Puts `job` at the back, behind every job already waiting.
    pub fn push_back(&mut self, job: Job)
        ensures
            final(self)@ == old(self)@.push(job),
    {
        self.jobs.push_back(job);
    }

    /// Takes the front job, if there is one.
    pub fn pop_front(&mut self) -> (j: Option<Job>)
        ensures
            old(self)@.len() == 0 ==> j.is_none() && final(self)@ == old(self)@,
            old(self)@.len() > 0 ==> j == Some(old(self)@[0]) && final(self)@
                == old(self)@.drop_first(),
    {
        self.jobs.pop_front()
    }

    /// One dispatch round: takes the front job, applies the decision rule to it
    /// and, unless that completed it, puts it back at the end with its lowered
    /// remaining time. `None` on an empty queue, which is left as it was.
    pub fn dispatch_front(&mut self, quantum: u32) -> (r: Option<Slice>)
        ensures
            old(self)@.len() == 0 ==> r.is_none() && final(self)@ == old(self)@,
            old(self)@.len() > 0 ==> r == Some(slice_of(old(self)@[0], quantum)) && final(self)@
                == after_round(old(self)@, quantum),
    {
        match self.jobs.pop_front() {
            None => None,
            Some(job) => {
                let s = run_slice(job, quantum);
                if !s.completed {
                    self.jobs.push_back(s.job);
                }
                Some(s)
            },
        }
    }
}

} // verus!
