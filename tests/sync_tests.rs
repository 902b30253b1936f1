use jobsched::engine::SchedulerCore;
use jobsched::job::Job;
use jobsched::semaphore::{count_after_give, count_after_take, must_wait, Semaphore};

#[test]
fn acquire_takes_available_units() {
    let s = Semaphore::new(2);
    assert!(s.acquire());
    assert!(s.acquire());
    s.release();
    assert!(s.acquire());
}

#[test]
fn release_before_acquire_on_empty_semaphore() {
    let s = Semaphore::new(0);
    s.release();
    assert!(s.acquire());
}

#[test]
fn guard_gives_its_unit_back() {
    let s = Semaphore::new(1);
    {
        let g = s.access();
        assert!(g.is_some());
    }
    {
        let g = s.access();
        assert!(g.is_some());
    }
    assert!(s.acquire());
}

#[test]
fn count_steps() {
    assert!(must_wait(0));
    assert!(must_wait(-3));
    assert!(!must_wait(1));
    assert_eq!(count_after_take(5), 4);
    assert_eq!(count_after_give(5), 6);
    assert_eq!(count_after_give(isize::MAX), isize::MAX);
}

#[test]
fn core_runs_round_robin_on_one_thread() {
    let c = SchedulerCore::new(2, 2000);
    assert_eq!(c.quantum(), 2000);
    assert_eq!(c.counters(), Ok((0, 2, 2)));
    assert_eq!(c.submit(Job::new(1, 10, 5000)), Ok(()));
    assert_eq!(c.submit(Job::new(1, 20, 1000)), Ok(()));
    assert_eq!(c.counters(), Ok((2, 0, 2)));
    let mut order: Vec<(u32, u32, bool)> = Vec::new();
    for _ in 0..4 {
        let s = c.dispatch_round().unwrap();
        order.push((s.job.job_id, s.run_time_ms, s.completed));
    }
    assert_eq!(order, vec![(10, 2000, false), (20, 1000, true), (10, 2000, false), (10, 1000, true)]);
    // Both slots are free again.
    assert_eq!(c.submit(Job::new(1, 30, 1)), Ok(()));
    assert_eq!(c.submit(Job::new(1, 40, 1)), Ok(()));
    assert_eq!(c.counters(), Ok((2, 0, 2)));
    let last = c.dispatch_round();
    assert_eq!(last.map(|s| (s.job.job_id, s.completed)), Ok((30, true)));
}

#[test]
fn core_counters_follow_a_completion() {
    let c = SchedulerCore::new(3, 1000);
    assert_eq!(c.submit(Job::new(2, 1, 500)), Ok(()));
    assert_eq!(c.counters(), Ok((1, 2, 3)));
    let s = c.dispatch_round().unwrap();
    assert!(s.completed);
    assert_eq!(s.run_time_ms, 500);
    assert_eq!(c.counters(), Ok((0, 3, 3)));
}
