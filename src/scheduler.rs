//! The admission and dispatch protocol on one thread: the queue together with the
//! two counters that the semaphore pair keeps, `full` for dispatchable jobs and
//! `empty` for free admission slots.
use vstd::prelude::*;
use vstd::multiset::Multiset;
use crate::job::{slice_of, Job, Slice};
use crate::queue::{after_round, JobQueue};

verus! {

/// Jobs that the queue holds at most.
pub const MAX_JOBS: usize = 12;

/// Admission slots of a scheduler as the server configures it.
pub const CAPACITY: usize = MAX_JOBS - 1;

/// The semaphore that a dispatch round releases once the queue's lock is let go.
#[derive(Clone, Copy, Debug, PartialEq, Eq, Structural)]
pub enum Signal {
    /// `full`: the job went back to the queue and is ready for dispatch again.
    Full,
    /// `empty`: the job completed and its admission slot is free.
    Empty,
}

/// The semaphore released after the round that gave `s`.
pub open spec fn signal_of(s: Slice) -> Signal {
    if s.completed {
        Signal::Empty
    } else {
        Signal::Full
    }
}

/// Decides which semaphore the round that gave `s` releases.
pub fn signal_after(s: &Slice) -> (r: Signal)
    ensures
        r == signal_of(*s),
{
    if s.completed {
        Signal::Empty
    } else {
        Signal::Full
    }
}

/// The slices of the first `n` dispatch rounds on `q`, with no admission between
/// them; fewer where the queue runs empty first.
pub open spec fn first_rounds(q: Seq<Job>, quantum: u32, n: nat) -> Seq<Slice>
    decreases n,
{
    if n == 0 || q.len() == 0 {
        Seq::empty()
    } else {
        seq![slice_of(q[0], quantum)] + first_rounds(after_round(q, quantum), quantum, (n - 1) as nat)
    }
}

/// Dispatch rounds that a job owed `t` milliseconds still takes, its last round included.
pub open spec fn rounds_of(t: u32, quantum: u32) -> nat {
    (t as nat / quantum as nat + 1) as nat
}

/// Dispatch rounds that all of `q` still takes.
pub open spec fn rounds_left(q: Seq<Job>, quantum: u32) -> nat
    decreases q.len(),
{
    if q.len() == 0 {
        0
    } else {
        rounds_of(q[0].remaining_time_ms, quantum) + rounds_left(q.drop_first(), quantum)
    }
}

/// Number of slices in `s` that completed their job.
pub open spec fn completions(s: Seq<Slice>) -> nat
    decreases s.len(),
{
    if s.len() == 0 {
        0
    } else {
        completions(s.drop_last()) + if s.last().completed { 1nat } else { 0nat }
    }
}

/// The identity of a job: its submitter and its number there.
pub open spec fn identity(j: Job) -> (u32, u32) {
    (j.mobile_id, j.job_id)
}

/// The identities of the jobs in `q`, with repeats.
pub open spec fn job_ids(q: Seq<Job>) -> Multiset<(u32, u32)>
    decreases q.len(),
{
    if q.len() == 0 {
        Multiset::empty()
    } else {
        job_ids(q.drop_first()).insert(identity(q[0]))
    }
}

/// The identities of the jobs that the slices in `s` completed, with repeats.
pub open spec fn completed_ids(s: Seq<Slice>) -> Multiset<(u32, u32)>
    decreases s.len(),
{
    if s.len() == 0 {
        Multiset::empty()
    } else if s.last().completed {
        completed_ids(s.drop_last()).insert(identity(s.last().job))
    } else {
        completed_ids(s.drop_last())
    }
}

/// Appending a job adds its identity.
proof fn lemma_ids_push(q: Seq<Job>, j: Job)
    ensures
        job_ids(q.push(j)) == job_ids(q).insert(identity(j)),
    decreases q.len(),
{
    let p = q.push(j);
    if q.len() == 0 {
        assert(p.drop_first() =~= Seq::<Job>::empty());
        assert(p[0] == j);
        assert(job_ids(p.drop_first()) == Multiset::<(u32, u32)>::empty());
        assert(job_ids(q) == Multiset::<(u32, u32)>::empty());
    } else {
        assert(p.drop_first() =~= q.drop_first().push(j));
        assert(p[0] == q[0]);
        lemma_ids_push(q.drop_first(), j);
        assert(job_ids(p) =~= job_ids(q).insert(identity(j)));
    }
}

/// Appending a job adds its rounds to those of the queue.
proof fn lemma_rounds_push(q: Seq<Job>, j: Job, quantum: u32)
    ensures
        rounds_left(q.push(j), quantum) == rounds_left(q, quantum) + rounds_of(
            j.remaining_time_ms,
            quantum,
        ),
    decreases q.len(),
{
    let p = q.push(j);
    assert(p[0] == if q.len() == 0 { j } else { q[0] });
    if q.len() == 0 {
        assert(p.drop_first() =~= Seq::<Job>::empty());
        assert(rounds_left(p.drop_first(), quantum) == 0);
    } else {
        assert(p.drop_first() =~= q.drop_first().push(j));
        lemma_rounds_push(q.drop_first(), j, quantum);
    }
}

/// Each dispatch round on a non-empty queue uses up exactly one of its rounds.
pub proof fn lemma_round_progress(q: Seq<Job>, quantum: u32)
    requires
        q.len() > 0,
        quantum > 0,
    ensures
        rounds_left(after_round(q, quantum), quantum) + 1 == rounds_left(q, quantum),
{
    let j = q[0];
    let s = slice_of(j, quantum);
    let t = j.remaining_time_ms as int;
    let d = quantum as int;
    assert(rounds_left(q, quantum) == rounds_of(j.remaining_time_ms, quantum) + rounds_left(
        q.drop_first(),
        quantum,
    ));
    if s.completed {
        assert(t / d == 0) by {
            vstd::arithmetic::div_mod::lemma_basic_div(t, d);
        }
    } else {
        lemma_rounds_push(q.drop_first(), s.job, quantum);
        assert((t - d) / d + 1 == t / d) by {
            vstd::arithmetic::div_mod::lemma_div_plus_one(t - d, d);
        }
        assert(s.job.remaining_time_ms == t - d);
    }
}

/// Total run time of the slices in `s`.
pub open spec fn run_total(s: Seq<Slice>) -> int
    decreases s.len(),
{
    if s.len() == 0 {
        0
    } else {
        s[0].run_time_ms + run_total(s.drop_first())
    }
}

/// A job owed `t` alone in the queue runs in `t / quantum + 1` slices: each but
/// the last goes back after a full quantum, the last completes it after
/// `t % quantum`, its identity never changes, and the run times add up to `t`.
pub proof fn lemma_lone_job_slices(j: Job, quantum: u32)
    requires
        quantum > 0,
    ensures
        ({
            let t = j.remaining_time_ms;
            let n = rounds_of(t, quantum);
            let out = first_rounds(seq![j], quantum, n);
            &&& out.len() == n
            &&& forall|i: int|
                0 <= i < n - 1 ==> !(#[trigger] out[i]).completed && out[i].run_time_ms == quantum
            &&& out[n - 1].completed
            &&& out[n - 1].run_time_ms == t % quantum
            &&& forall|i: int|
                0 <= i < n ==> identity((#[trigger] out[i]).job) == identity(j)
            &&& run_total(out) == t
        }),
    decreases j.remaining_time_ms,
{
    let t = j.remaining_time_ms;
    let n = rounds_of(t, quantum);
    let q = seq![j];
    let out = first_rounds(q, quantum, n);
    let s = slice_of(j, quantum);
    assert(q[0] == j);
    assert(q.drop_first() =~= Seq::<Job>::empty());
    if t < quantum {
        vstd::arithmetic::div_mod::lemma_basic_div(t as int, quantum as int);
        vstd::arithmetic::div_mod::lemma_small_mod(t as nat, quantum as nat);
        assert(after_round(q, quantum) =~= Seq::<Job>::empty());
        assert(first_rounds(Seq::<Job>::empty(), quantum, 0) == Seq::<Slice>::empty());
        assert(out =~= seq![s]);
        assert(run_total(out.drop_first()) == 0);
    } else {
        let j2 = s.job;
        assert(after_round(q, quantum) =~= seq![j2]);
        vstd::arithmetic::div_mod::lemma_div_plus_one(t - quantum, quantum as int);
        vstd::arithmetic::div_mod::lemma_mod_sub_multiples_vanish(t as int, quantum as int);
        assert(rounds_of(j2.remaining_time_ms, quantum) == n - 1);
        lemma_lone_job_slices(j2, quantum);
        let rest = first_rounds(seq![j2], quantum, (n - 1) as nat);
        assert(out == seq![s] + rest);
        assert(out.drop_first() =~= rest);
        assert forall|i: int| 0 <= i < n - 1 implies !(#[trigger] out[i]).completed
            && out[i].run_time_ms == quantum by {
            if i > 0 {
                assert(out[i] == rest[i - 1]);
            }
        }
        assert forall|i: int| 0 <= i < n implies identity((#[trigger] out[i]).job) == identity(
            j,
        ) by {
            if i > 0 {
                assert(out[i] == rest[i - 1]);
            }
        }
        assert(out[n - 1] == rest[n - 2]);
    }
}

/// A queue and the counters of the semaphore pair that guard it.
pub struct Scheduler {
    queue: JobQueue,
    full: usize,
    empty: usize,
    capacity: usize,
    quantum: u32,
}

impl Scheduler {
    /// The jobs waiting, front first.
    pub closed spec fn jobs(&self) -> Seq<Job> {
        self.queue@
    }

    /// Jobs ready for dispatch, as the `full` semaphore counts them.
    pub closed spec fn full_count(&self) -> nat {
        self.full as nat
    }

    /// Free admission slots, as the `empty` semaphore counts them.
    pub closed spec fn empty_count(&self) -> nat {
        self.empty as nat
    }

    /// Admission slots in all.
    pub closed spec fn capacity_spec(&self) -> nat {
        self.capacity as nat
    }

    /// Service time granted per round.
    pub closed spec fn quantum_spec(&self) -> u32 {
        self.quantum
    }

    /// The counters add up to the capacity, and `full` counts the queue.
    pub closed spec fn wf(&self) -> bool {
        &&& self.full + self.empty == self.capacity
        &&& self.full == self.queue@.len()
    }

    /// Every scheduler, wherever it is held, is `wf`.
    #[verifier::type_invariant]
    spec fn counters_agree(&self) -> bool {
        self.wf()
    }

    /// Of a `wf` scheduler, which every scheduler is between its operations (the
    /// getters show it), the jobs ready for dispatch and the free admission slots
    /// add up to the capacity, and the jobs ready are those in the queue.
    pub proof fn lemma_conservation(&self)
        requires
            self.wf(),
        ensures
            self.full_count() + self.empty_count() == self.capacity_spec(),
            self.full_count() == self.jobs().len(),
    {
    }

    /// Moves the state out, leaving an empty scheduler of the same shape behind.
    fn take(&mut self) -> (s: Scheduler)
        ensures
            s == *old(self),
            s.wf(),
            final(self).capacity == old(self).capacity,
            final(self).quantum == old(self).quantum,
    {
        proof {
            use_type_invariant(&*self);
        }
        let mut s = Scheduler {
            queue: JobQueue::new(),
            full: 0,
            empty: self.capacity,
            capacity: self.capacity,
            quantum: self.quantum,
        };
        std::mem::swap(self, &mut s);
        s
    }

    /// An empty scheduler with `capacity` admission slots.
    pub fn new(capacity: usize, quantum: u32) -> (s: Scheduler)
        ensures
            s.wf(),
            s.jobs() == Seq::<Job>::empty(),
            s.full_count() == 0,
            s.empty_count() == capacity,
            s.capacity_spec() == capacity,
            s.quantum_spec() == quantum,
    {
        Scheduler { queue: JobQueue::new(), full: 0, empty: capacity, capacity, quantum }
    }

    /// Jobs ready for dispatch.
    pub fn full(&self) -> (n: usize)
        ensures
            n == self.full_count(),
            self.wf(),
    {
        proof {
            use_type_invariant(self);
        }
        self.full
    }

    /// Free admission slots.
    pub fn empty(&self) -> (n: usize)
        ensures
            n == self.empty_count(),
            self.wf(),
    {
        proof {
            use_type_invariant(self);
        }
        self.empty
    }

    /// Admission slots in all.
    pub fn capacity(&self) -> (n: usize)
        ensures
            n == self.capacity_spec(),
            self.wf(),
    {
        proof {
            use_type_invariant(self);
        }
        self.capacity
    }

    /// Service time granted per round.
    pub fn quantum(&self) -> (q: u32)
        ensures
            q == self.quantum_spec(),
    {
        self.quantum
    }

    /// Number of jobs waiting.
    pub fn len(&self) -> (n: usize)
        ensures
            n == self.jobs().len(),
            self.wf(),
    {
        proof {
            use_type_invariant(self);
        }
        self.queue.len()
    }

    /// The job at position `i`, counted from the front.
    pub fn get(&self, i: usize) -> (j: Option<Job>)
        ensures
            i < self.jobs().len() ==> j == Some(self.jobs()[i as int]),
            i >= self.jobs().len() ==> j.is_none(),
    {
        self.queue.get(i)
    }

    /// Admits `job` at the back of the queue when a slot is free. `false`, with
    /// nothing changed, when every slot is taken: there the producer would block.
    pub fn try_admit(&mut self, job: Job) -> (admitted: bool)
        ensures
            final(self).wf(),
            admitted == (old(self).empty_count() > 0),
            final(self).capacity_spec() == old(self).capacity_spec(),
            final(self).quantum_spec() == old(self).quantum_spec(),
            admitted ==> final(self).jobs() == old(self).jobs().push(job) && final(self).full_count()
                == old(self).full_count() + 1 && final(self).empty_count() == old(
                self,
            ).empty_count() - 1,
            !admitted ==> final(self).jobs() == old(self).jobs() && final(self).full_count()
                == old(self).full_count() && final(self).empty_count() == old(self).empty_count(),
    {
        proof {
            use_type_invariant(&*self);
        }
        if self.empty == 0 {
            return false;
        }
        let Scheduler { mut queue, full, empty, capacity, quantum } = self.take();
        queue.push_back(job);
        *self = Scheduler { queue, full: full + 1, empty: empty - 1, capacity, quantum };
        true
    }

    /// Runs one dispatch round on the front job. `None`, with nothing changed, when
    /// no job is ready: there the dispatcher would block. A requeued job goes behind
    /// every job already waiting and stays counted as ready; a completed one frees
    /// its slot.
    pub fn dispatch(&mut self) -> (r: Option<Slice>)
        ensures
            final(self).wf(),
            r.is_none() == (old(self).full_count() == 0),
            final(self).capacity_spec() == old(self).capacity_spec(),
            final(self).quantum_spec() == old(self).quantum_spec(),
            r.is_none() ==> final(self).jobs() == old(self).jobs() && final(self).full_count()
                == old(self).full_count(),
            r matches Some(s) ==> {
                &&& s == slice_of(old(self).jobs()[0], old(self).quantum_spec())
                &&& final(self).jobs() == after_round(old(self).jobs(), old(self).quantum_spec())
                &&& s.completed ==> final(self).full_count() == old(self).full_count() - 1
                    && final(self).empty_count() == old(self).empty_count() + 1
                &&& !s.completed ==> final(self).full_count() == old(self).full_count()
                    && final(self).empty_count() == old(self).empty_count()
            },
    {
        proof {
            use_type_invariant(&*self);
        }
        if self.full == 0 {
            return None;
        }
        let Scheduler { mut queue, full, empty, capacity, quantum } = self.take();
        let r = queue.dispatch_front(quantum);
        match r {
            Some(s) => match signal_after(&s) {
                Signal::Full => {
                    *self = Scheduler { queue, full, empty, capacity, quantum };
                },
                Signal::Empty => {
                    *self = Scheduler { queue, full: full - 1, empty: empty + 1, capacity, quantum };
                },
            },
            None => {
                *self = Scheduler { queue, full, empty, capacity, quantum };
            },
        }
        r
    }

    /// Runs dispatch rounds until no job is ready, with no admission between them,
    /// and returns the slices in the order they ran: those of the first
    /// `rounds_left` rounds on the queue. Every job waiting at the call completes,
    /// in exactly one slice.
    pub fn drain(&mut self) -> (out: Vec<Slice>)
        requires
            old(self).quantum_spec() > 0,
        ensures
            final(self).wf(),
            final(self).jobs() == Seq::<Job>::empty(),
            final(self).full_count() == 0,
            final(self).empty_count() == old(self).capacity_spec(),
            final(self).capacity_spec() == old(self).capacity_spec(),
            final(self).quantum_spec() == old(self).quantum_spec(),
            out@.len() == rounds_left(old(self).jobs(), old(self).quantum_spec()),
            out@ == first_rounds(
                old(self).jobs(),
                old(self).quantum_spec(),
                rounds_left(old(self).jobs(), old(self).quantum_spec()),
            ),
            completions(out@) == old(self).jobs().len(),
            completed_ids(out@) == job_ids(old(self).jobs()),
    {
        proof {
            use_type_invariant(&*self);
        }
        let mut out: Vec<Slice> = Vec::new();
        while self.full > 0
            invariant
                self.wf(),
                self.capacity == old(self).capacity_spec(),
                self.quantum == old(self).quantum_spec(),
                self.quantum > 0,
                out@.len() + rounds_left(self.queue@, self.quantum) == rounds_left(
                    old(self).jobs(),
                    old(self).quantum_spec(),
                ),
                out@ + first_rounds(self.queue@, self.quantum, rounds_left(self.queue@, self.quantum))
                    == first_rounds(
                    old(self).jobs(),
                    old(self).quantum_spec(),
                    rounds_left(old(self).jobs(), old(self).quantum_spec()),
                ),
                completions(out@) + self.queue@.len() == old(self).jobs().len(),
                completed_ids(out@).add(job_ids(self.queue@)) == job_ids(old(self).jobs()),
            decreases rounds_left(self.queue@, self.quantum),
        {
            let ghost q0 = self.queue@;
            proof {
                lemma_round_progress(q0, self.quantum);
                if !slice_of(q0[0], self.quantum).completed {
                    lemma_ids_push(q0.drop_first(), slice_of(q0[0], self.quantum).job);
                }
            }
            let r = self.dispatch();
            match r {
                Some(s) => {
                    let ghost before = out@;
                    out.push(s);
                    assert(out@.drop_last() =~= before);
                    assert(completed_ids(out@).add(job_ids(self.queue@)) =~= completed_ids(
                        before,
                    ).add(job_ids(q0)));
                    let ghost n0 = rounds_left(q0, self.quantum);
                    assert(first_rounds(q0, self.quantum, n0) == seq![s] + first_rounds(
                        self.queue@,
                        self.quantum,
                        (n0 - 1) as nat,
                    ));
                    assert(out@ + first_rounds(
                        self.queue@,
                        self.quantum,
                        rounds_left(self.queue@, self.quantum),
                    ) =~= before + first_rounds(q0, self.quantum, n0));
                },
                None => {},
            }
        }
        assert(self.queue@ =~= Seq::<Job>::empty());
        assert(out@ + first_rounds(self.queue@, self.quantum, rounds_left(self.queue@, self.quantum))
            =~= out@);
        assert(completed_ids(out@) =~= completed_ids(out@).add(job_ids(self.queue@)));
        out
    }
}

} // verus!
