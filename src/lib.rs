//! A bounded producer/consumer job scheduler: jobs arrive as fixed-size records,
//! wait in a FIFO queue guarded by a pair of counting semaphores, and are served
//! round-robin, one quantum of service time per dispatch round.
//!
//! - `codec`: the job-submission record.
//! - `job`: jobs and the decision rule of one round.
//! - `queue`: the FIFO queue and one dispatch round on it.
//! - `scheduler`: the admission and dispatch protocol with its two counters, on one thread.
//! - `semaphore`: a blocking counting semaphore.
//! - `engine`: the shared core that an admitting and a dispatching thread use.
//! - `submitter`: the submitting side's numbering, timing and arguments.
pub mod codec;
pub mod engine;
pub mod job;
pub mod queue;
pub mod scheduler;
pub mod semaphore;
pub mod submitter;
