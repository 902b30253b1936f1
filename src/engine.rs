//! The shared scheduling core, used by one admitting and one dispatching thread:
//! a `Scheduler` behind its lock, and the semaphore pair that makes the threads
//! wait. The scheduler's own counters track `full` and `empty`, and its type
//! invariant holds of it at every moment that the lock is free; the semaphores'
//! counts are what the threads block on, and no contract follows them.
use vstd::prelude::*;
use std::sync::Mutex;
use crate::job::{slice_of, Job, Slice};
use crate::scheduler::{signal_after, Scheduler, Signal};
use crate::semaphore::{lock, new_lock, replace_guarded, Semaphore};

verus! {

/// Why a step of the shared core did not happen.
#[derive(Clone, Copy, Debug, PartialEq, Eq, Structural)]
pub enum CoreError {
    /// A lock of the core was found poisoned: its state can no longer be trusted,
    /// and the caller is to stop.
    LockPoisoned,
    /// The semaphores let the step through, but the scheduler had no free slot
    /// (on admission) or no ready job (on dispatch): they disagree.
    OutOfStep,
}

/// A scheduler shared between threads, with `full` counting jobs ready for
/// dispatch and `empty` counting free admission slots for the threads to wait on.
pub struct SchedulerCore {
    state: Mutex<Scheduler>,
    full: Semaphore,
    empty: Semaphore,
    quantum: u32,
}

impl SchedulerCore {
    /// Service time granted per round.
    pub closed spec fn quantum_spec(&self) -> u32 {
        self.quantum
    }

    /// An empty core with `capacity` admission slots.
    pub fn new(capacity: usize, quantum: u32) -> (c: SchedulerCore)
        requires
            capacity <= isize::MAX,
        ensures
            c.quantum_spec() == quantum,
    {
        SchedulerCore {
            state: new_lock(Scheduler::new(capacity, quantum)),
            full: Semaphore::new(0),
            empty: Semaphore::new(capacity as isize),
            quantum,
        }
    }

    /// Service time granted per round.
    pub fn quantum(&self) -> (q: u32)
        ensures
            q == self.quantum_spec(),
    {
        self.quantum
    }

    /// The scheduler's counters as they stand while no thread is inside its lock:
    /// jobs ready for dispatch, free admission slots and the capacity. The first
    /// two always add up to the third.
    pub fn counters(&self) -> (r: Result<(usize, usize, usize), CoreError>)
        ensures
            r matches Ok((full, empty, capacity)) ==> full + empty == capacity,
    {
        let (mut g, locked) = lock(&self.state);
        if !locked {
            return Err(CoreError::LockPoisoned);
        }
        let s = replace_guarded(&mut g, Scheduler::new(0, self.quantum));
        let full = s.full();
        let empty = s.empty();
        let capacity = s.capacity();
        proof {
            s.lemma_conservation();
        }
        let _ = replace_guarded(&mut g, s);
        Ok((full, empty, capacity))
    }

    /// Waits for a free slot, admits `job` at the back of the queue and announces
    /// it to the dispatcher. The lock is not held across either semaphore.
    pub fn submit(&self, job: Job) -> (r: Result<(), CoreError>) {
        if !self.empty.acquire() {
            return Err(CoreError::LockPoisoned);
        }
        let admitted = {
            let (mut g, locked) = lock(&self.state);
            if !locked {
                return Err(CoreError::LockPoisoned);
            }
            let mut s = replace_guarded(&mut g, Scheduler::new(0, self.quantum));
            let admitted = s.try_admit(job);
            let _ = replace_guarded(&mut g, s);
            admitted
        };
        if !admitted {
            return Err(CoreError::OutOfStep);
        }
        self.full.release();
        Ok(())
    }

    /// Waits for a ready job and runs one dispatch round of the scheduler. A
    /// requeued job is announced again at once, as a newly admitted one would be;
    /// a completed one frees its slot. `OutOfStep` where the scheduler under the
    /// lock had no ready job, or another quantum than the core.
    pub fn dispatch_round(&self) -> (r: Result<Slice, CoreError>)
        ensures
            r matches Ok(s) ==> exists|j: Job| s == slice_of(j, self.quantum_spec()),
    {
        if !self.full.acquire() {
            return Err(CoreError::LockPoisoned);
        }
        let (r, Ghost(before)) = {
            let (mut g, locked) = lock(&self.state);
            if !locked {
                return Err(CoreError::LockPoisoned);
            }
            let mut s = replace_guarded(&mut g, Scheduler::new(0, self.quantum));
            let ghost before = s.jobs();
            let r = if s.quantum() == self.quantum {
                s.dispatch()
            } else {
                None
            };
            let _ = replace_guarded(&mut g, s);
            (r, Ghost(before))
        };
        match r {
            Some(s) => {
                assert(s == slice_of(before[0], self.quantum_spec()));
                match signal_after(&s) {
                    Signal::Full => self.full.release(),
                    Signal::Empty => self.empty.release(),
                }
                Ok(s)
            },
            None => Err(CoreError::OutOfStep),
        }
    }
}

} // verus!
