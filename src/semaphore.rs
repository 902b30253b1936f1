//! A counting semaphore built from a mutex over the count and a condition variable.
use vstd::prelude::*;
use std::sync::{Condvar, Mutex, MutexGuard, PoisonError};

verus! {

#[verifier::external_type_specification]
#[verifier::external_body]
#[verifier::reject_recursive_types(T)]
pub struct ExMutex<T: ?Sized>(Mutex<T>);

#[verifier::external_type_specification]
#[verifier::external_body]
#[verifier::reject_recursive_types(T)]
pub struct ExMutexGuard<'a, T: ?Sized + 'a>(MutexGuard<'a, T>);

#[verifier::external_type_specification]
#[verifier::external_body]
pub struct ExCondvar(Condvar);

/// The count that a held guard gives access to.
pub uninterp spec fn guarded_count(g: &MutexGuard<isize>) -> isize;

/// Whether a caller of `acquire` has to wait while the count is `count`.
pub fn must_wait(count: isize) -> (r: bool)
    ensures
        r == (count <= 0),
{
    count <= 0
}

/// The count after one unit was taken from a positive count.
pub fn count_after_take(count: isize) -> (r: isize)
    requires
        count > 0,
    ensures
        r == count - 1,
{
    count - 1
}

/// The count after one unit was given back; it stays put at `isize::MAX`.
pub fn count_after_give(count: isize) -> (r: isize)
    ensures
        count < isize::MAX ==> r == count + 1,
        count == isize::MAX ==> r == count,
    opens_invariants none
    no_unwind
{
    if count < isize::MAX {
        count + 1
    } else {
        count
    }
}

/// Relies on `Mutex::new`: a fresh, unlocked mutex over `v`.
#[verifier::external_body]
pub(crate) fn new_lock<T>(v: T) -> (m: Mutex<T>) {
    Mutex::new(v)
}

/// Relies on `Condvar::new`: a condition variable with no waiters.
#[verifier::external_body]
fn new_condvar() -> (c: Condvar) {
    Condvar::new()
}

/// Relies on `Mutex::lock`: blocks until the calling thread holds the lock. No
/// code of this crate locks a mutex that it already holds. The flag is `false`
/// where the lock was poisoned: the guard is then taken out of the poison error.
#[verifier::external_body]
pub(crate) fn lock<T>(m: &Mutex<T>) -> (r: (MutexGuard<'_, T>, bool))
    opens_invariants none
    no_unwind
{
    match m.lock() {
        Ok(g) => (g, true),
        Err(e) => (e.into_inner(), false),
    }
}

/// Relies on `Condvar::wait_while`: it gives the lock up while it sleeps, takes it
/// back on each wake, and returns `Ok` only once `must_wait` is false of the
/// count. Where the lock was poisoned it returns an error that still holds the
/// guard, with nothing said of the count: the guard is taken out of the error and
/// the flag is `false`.
#[verifier::external_body]
fn wait_until_available<'a>(c: &Condvar, g: MutexGuard<'a, isize>) -> (r: (MutexGuard<'a, isize>, bool))
    ensures
        r.1 ==> guarded_count(&r.0) > 0,
{
    match c.wait_while(g, |n| must_wait(*n)) {
        Ok(g) => (g, true),
        Err(e) => (e.into_inner(), false),
    }
}

/// Relies on `Deref` of `MutexGuard`: reads the guarded count.
#[verifier::external_body]
fn read_count(g: &MutexGuard<isize>) -> (r: isize)
    ensures
        r == guarded_count(g),
    opens_invariants none
    no_unwind
{
    **g
}

/// Relies on `DerefMut` of `MutexGuard`: overwrites the guarded count.
#[verifier::external_body]
fn write_count(g: &mut MutexGuard<isize>, v: isize)
    ensures
        guarded_count(final(g)) == v,
    opens_invariants none
    no_unwind
{
    **g = v;
}

/// Relies on `DerefMut` of `MutexGuard` and `std::mem::replace`: puts `v` in the
/// guarded place and returns what was there.
#[verifier::external_body]
pub(crate) fn replace_guarded<T>(g: &mut MutexGuard<T>, v: T) -> (r: T) {
    std::mem::replace(&mut **g, v)
}

/// Relies on `Condvar::notify_one`: wakes at most one waiter.
#[verifier::external_body]
fn notify_one(c: &Condvar)
    opens_invariants none
    no_unwind
{
    c.notify_one()
}

/// A blocking resource counter: `acquire` takes one unit, waiting while there is
/// none, and `release` gives one back and wakes one waiter.
pub struct Semaphore {
    lock: Mutex<isize>,
    cvar: Condvar,
}

/// Holds one unit of a semaphore and gives it back when dropped.
pub struct SemaphoreGuard<'a> {
    sem: &'a Semaphore,
}

impl Semaphore {
    /// A semaphore with `count` units available.
    pub fn new(count: isize) -> (s: Semaphore) {
        Semaphore { lock: new_lock(count), cvar: new_condvar() }
    }

    /// Waits, without spinning, until the count is positive, then lowers it by one
    /// and returns `true`. Where the count's lock is found poisoned, which is fatal
    /// to the caller, it returns `false` at once, having taken no unit.
    pub fn acquire(&self) -> (ok: bool) {
        let (g, locked) = lock(&self.lock);
        if !locked {
            return false;
        }
        let (mut g, waited) = wait_until_available(&self.cvar, g);
        if !waited {
            return false;
        }
        let n = read_count(&g);
        write_count(&mut g, count_after_take(n));
        true
    }

    /// Raises the count by one and wakes at most one waiting thread. It runs in
    /// the guard's `drop` as well, so it cannot report a poisoned lock: the count
    /// is a single integer written in one step and stays whole even then.
    pub fn release(&self)
        opens_invariants none
        no_unwind
    {
        {
            let (mut g, _) = lock(&self.lock);
            let n = read_count(&g);
            write_count(&mut g, count_after_give(n));
        }
        notify_one(&self.cvar);
    }

    /// Takes one unit and returns a guard that gives it back when dropped; `None`
    /// where `acquire` found the lock poisoned and took no unit.
    pub fn access(&self) -> (g: Option<SemaphoreGuard<'_>>)
        ensures
            g matches Some(g) ==> g.semaphore() == self,
    {
        if self.acquire() {
            Some(SemaphoreGuard { sem: self })
        } else {
            None
        }
    }
}

impl<'a> SemaphoreGuard<'a> {
    /// The semaphore that this guard holds a unit of.
    pub closed spec fn semaphore(&self) -> &'a Semaphore {
        self.sem
    }
}

impl<'a> Drop for SemaphoreGuard<'a> {
    fn drop(&mut self)
        opens_invariants none
        no_unwind
    {
        self.sem.release();
    }
}

} // verus!
