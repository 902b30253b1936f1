use jobsched::job::{run_slice, Job, Slice, QUANTUM_MS};
use jobsched::queue::JobQueue;
use jobsched::scheduler::{signal_after, Scheduler, Signal, CAPACITY, MAX_JOBS};

fn slice(s: Option<Slice>) -> Slice {
    s.expect("a job was ready")
}

#[test]
fn short_job_completes_with_its_remaining_time() {
    let s = run_slice(Job::new(1, 2, 1500), 2000);
    assert!(s.completed);
    assert_eq!(s.run_time_ms, 1500);
    assert_eq!(s.job, Job::new(1, 2, 1500));
}

#[test]
fn long_job_runs_a_quantum_and_goes_back() {
    let s = run_slice(Job::new(1, 2, 5000), 2000);
    assert!(!s.completed);
    assert_eq!(s.run_time_ms, 2000);
    assert_eq!(s.job, Job::new(1, 2, 3000));
}

#[test]
fn job_of_exactly_one_quantum_takes_a_trailing_empty_round() {
    let mut s = Scheduler::new(2, QUANTUM_MS);
    assert!(s.try_admit(Job::new(1, 1, QUANTUM_MS)));
    let first = slice(s.dispatch());
    assert!(!first.completed);
    assert_eq!(first.run_time_ms, QUANTUM_MS);
    assert_eq!(first.job.remaining_time_ms, 0);
    assert_eq!(s.len(), 1);
    let second = slice(s.dispatch());
    assert!(second.completed);
    assert_eq!(second.run_time_ms, 0);
    assert_eq!(s.len(), 0);
}

#[test]
fn round_robin_serves_short_job_before_last_slice_of_long_one() {
    let mut s = Scheduler::new(CAPACITY, 2000);
    assert!(s.try_admit(Job::new(1, 10, 5000)));
    assert!(s.try_admit(Job::new(1, 20, 1000)));
    let a1 = slice(s.dispatch());
    assert_eq!((a1.job.job_id, a1.run_time_ms, a1.job.remaining_time_ms, a1.completed), (10, 2000, 3000, false));
    let b1 = slice(s.dispatch());
    assert_eq!((b1.job.job_id, b1.run_time_ms, b1.completed), (20, 1000, true));
    let a2 = slice(s.dispatch());
    assert_eq!((a2.job.job_id, a2.run_time_ms, a2.job.remaining_time_ms, a2.completed), (10, 2000, 1000, false));
    let a3 = slice(s.dispatch());
    assert_eq!((a3.job.job_id, a3.run_time_ms, a3.completed), (10, 1000, true));
    assert!(s.dispatch().is_none());
}

#[test]
fn drain_counts_slices_per_job() {
    let mut s = Scheduler::new(CAPACITY, 2000);
    assert!(s.try_admit(Job::new(1, 10, 5000)));
    assert!(s.try_admit(Job::new(1, 20, 1000)));
    let out = s.drain();
    let a = out.iter().filter(|x| x.job.job_id == 10).count();
    let b = out.iter().filter(|x| x.job.job_id == 20).count();
    assert_eq!((a, b), (3, 1));
    assert_eq!(out.iter().filter(|x| x.completed).count(), 2);
    let done: Vec<u32> = out.iter().filter(|x| x.completed).map(|x| x.job.job_id).collect();
    assert_eq!(done, vec![20, 10]);
    assert_eq!(s.len(), 0);
    assert_eq!(s.full(), 0);
    assert_eq!(s.empty(), CAPACITY);
}

#[test]
fn third_job_is_held_back_with_two_slots() {
    let mut s = Scheduler::new(2, QUANTUM_MS);
    assert!(s.try_admit(Job::new(1, 1, 5000)));
    assert!(s.try_admit(Job::new(1, 2, 5000)));
    assert!(!s.try_admit(Job::new(1, 3, 5000)));
    assert_eq!(s.len(), 2);
    // A requeue frees no slot.
    let r = slice(s.dispatch());
    assert!(!r.completed);
    assert!(!s.try_admit(Job::new(1, 3, 5000)));
    // Run until some job completes, which frees its slot.
    loop {
        if slice(s.dispatch()).completed {
            break;
        }
    }
    assert!(s.try_admit(Job::new(1, 3, 5000)));
    assert_eq!(s.get(s.len() - 1), Some(Job::new(1, 3, 5000)));
}

#[test]
fn counters_always_add_up_to_capacity() {
    let mut s = Scheduler::new(3, 1000);
    assert_eq!(s.capacity(), 3);
    let times = [2500u32, 0, 1000, 999];
    for (i, t) in times.iter().enumerate() {
        s.try_admit(Job::new(5, i as u32, *t));
        assert_eq!(s.full() + s.empty(), 3);
        s.dispatch();
        assert_eq!(s.full() + s.empty(), 3);
        assert_eq!(s.full(), s.len());
    }
    s.drain();
    assert_eq!((s.full(), s.empty()), (0, 3));
}

#[test]
fn dispatch_on_empty_scheduler_does_nothing() {
    let mut s = Scheduler::new(2, 2000);
    assert!(s.dispatch().is_none());
    assert_eq!((s.full(), s.empty()), (0, 2));
}

#[test]
fn zero_capacity_admits_nothing() {
    let mut s = Scheduler::new(0, 2000);
    assert!(!s.try_admit(Job::new(1, 1, 1)));
}

#[test]
fn configured_capacity_is_one_below_max_jobs() {
    assert_eq!(CAPACITY, MAX_JOBS - 1);
    assert_eq!(CAPACITY, 11);
}

#[test]
fn queue_keeps_arrival_order_and_requeues_at_back() {
    let mut q = JobQueue::new();
    assert!(q.is_empty());
    q.push_back(Job::new(1, 1, 3000));
    q.push_back(Job::new(1, 2, 100));
    let s = q.dispatch_front(2000).unwrap();
    assert!(!s.completed);
    assert_eq!(q.get(0), Some(Job::new(1, 2, 100)));
    assert_eq!(q.get(1), Some(Job::new(1, 1, 1000)));
    assert_eq!(q.get(2), None);
    assert_eq!(q.pop_front(), Some(Job::new(1, 2, 100)));
    assert_eq!(q.len(), 1);
}

#[test]
fn dispatch_front_on_empty_queue_is_none() {
    let mut q = JobQueue::new();
    assert!(q.dispatch_front(2000).is_none());
    assert!(q.pop_front().is_none());
}

#[test]
fn completed_round_signals_empty_and_requeue_signals_full() {
    assert_eq!(signal_after(&run_slice(Job::new(1, 1, 10), 2000)), Signal::Empty);
    assert_eq!(signal_after(&run_slice(Job::new(1, 1, 2000), 2000)), Signal::Full);
}

#[test]
fn drain_run_times_of_one_job_add_up() {
    let mut s = Scheduler::new(1, 2000);
    assert!(s.try_admit(Job::new(3, 4, 7100)));
    let out = s.drain();
    let times: Vec<u32> = out.iter().map(|x| x.run_time_ms).collect();
    assert_eq!(times, vec![2000, 2000, 2000, 1100]);
    let flags: Vec<bool> = out.iter().map(|x| x.completed).collect();
    assert_eq!(flags, vec![false, false, false, true]);
}
