//! Jobs and the round-robin decision rule applied to one of them per dispatch round.
use vstd::prelude::*;

verus! {

/// Service time, in milliseconds, that one dispatch round grants a job.
pub const QUANTUM_MS: u32 = 2000;

/// One unit of submitted work.
#[derive(Clone, Copy, Debug, PartialEq, Eq, Structural)]
pub struct Job {
    /// Identity of the submitter.
    pub mobile_id: u32,
    /// Sequence number of the job at its submitter.
    pub job_id: u32,
    /// Service time still owed to the job.
    pub remaining_time_ms: u32,
}

/// What one dispatch round did with the job at the front of the queue.
#[derive(Clone, Copy, Debug, PartialEq, Eq, Structural)]
pub struct Slice {
    /// The job after the round: its remaining time is lowered on a requeue.
    pub job: Job,
    /// How long the round runs the job.
    pub run_time_ms: u32,
    /// Whether the job is finished and leaves the queue for good.
    pub completed: bool,
}

/// The decision rule of one round: a job owed less than a quantum runs for
/// what it is owed and completes; any other job runs for a quantum and goes back
/// with a quantum less owed.
pub open spec fn slice_of(job: Job, quantum: u32) -> Slice {
    if job.remaining_time_ms < quantum {
        Slice { job, run_time_ms: job.remaining_time_ms, completed: true }
    } else {
        Slice {
            job: Job { remaining_time_ms: (job.remaining_time_ms - quantum) as u32, ..job },
            run_time_ms: quantum,
            completed: false,
        }
    }
}

/// A job owed exactly one quantum is not completed on that round: it goes back
/// owed nothing, and the next round completes it with a run of zero length.
pub proof fn lemma_quantum_boundary(job: Job, quantum: u32)
    requires
        job.remaining_time_ms == quantum,
    ensures
        !slice_of(job, quantum).completed,
        slice_of(job, quantum).run_time_ms == quantum,
        slice_of(job, quantum).job.remaining_time_ms == 0,
        quantum > 0 ==> slice_of(slice_of(job, quantum).job, quantum).completed,
        slice_of(slice_of(job, quantum).job, quantum).run_time_ms == 0,
{
}

impl Job {
    /// A job owed `remaining_time_ms` of service.
    pub fn new(mobile_id: u32, job_id: u32, remaining_time_ms: u32) -> (j: Job)
        ensures
            j == (Job { mobile_id, job_id, remaining_time_ms }),
    {
        Job { mobile_id, job_id, remaining_time_ms }
    }
}

/// Applies the decision rule of one round to `job`.
pub fn run_slice(job: Job, quantum: u32) -> (s: Slice)
    ensures
        s == slice_of(job, quantum),
        s.job.mobile_id == job.mobile_id,
        s.job.job_id == job.job_id,
        s.completed == (job.remaining_time_ms < quantum),
        s.completed ==> s.run_time_ms == job.remaining_time_ms && s.job == job,
        !s.completed ==> s.run_time_ms == quantum && s.job.remaining_time_ms
            == job.remaining_time_ms - quantum,
{
    if job.remaining_time_ms < quantum {
        Slice { job, run_time_ms: job.remaining_time_ms, completed: true }
    } else {
        Slice {
            job: Job { remaining_time_ms: job.remaining_time_ms - quantum, ..job },
            run_time_ms: quantum,
            completed: false,
        }
    }
}

} // verus!
