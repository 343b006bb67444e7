//! The guard wrapper: any raw lock composed with the value it protects.
use std::sync::atomic::{AtomicBool, Ordering};
use vstd::prelude::*;

verus! {

/// What every raw lock offers. Acquisition is split into rounds so that the
/// caller decides how to wait between them.
pub trait RawLock: Sized {
    /// A lock that starts free.
    fn new() -> Self;

    /// One attempt that never waits; true exactly when it acquired the lock.
    fn try_lock(&self) -> bool;

    /// One round of the blocking acquisition; true when it acquired the lock.
    fn lock_round(&self) -> bool;

    /// Release. The caller must hold the lock.
    fn unlock(&self);
}

/// Relies on `AtomicBool::store`, which neither unwinds nor touches any
/// invariant: clears a lock flag with release ordering.
#[verifier::external_body]
pub(crate) fn release_flag(flag: &AtomicBool)
    opens_invariants none
    no_unwind
{
    flag.store(false, Ordering::Release);
}

impl RawLock for crate::amd::RawSpinlock {
    fn new() -> Self {
        crate::amd::RawSpinlock::new()
    }

    fn try_lock(&self) -> bool {
        crate::amd::RawSpinlock::try_lock(self)
    }

    fn lock_round(&self) -> bool {
        crate::amd::RawSpinlock::lock_round(self)
    }

    fn unlock(&self) {
        crate::amd::RawSpinlock::unlock(self)
    }
}

impl RawLock for crate::backoff::RawSpinlock {
    fn new() -> Self {
        crate::backoff::RawSpinlock::new()
    }

    fn try_lock(&self) -> bool {
        crate::backoff::RawSpinlock::try_lock(self)
    }

    fn lock_round(&self) -> bool {
        crate::backoff::RawSpinlock::try_lock(self)
    }

    fn unlock(&self) {
        crate::backoff::RawSpinlock::unlock(self)
    }
}

pub struct Mutex<R: RawLock, T> {
    raw: R,
    data: T,
}

/// Access to a `Mutex`'s value for one critical section.
pub struct MutexGuard<'a, R: RawLock, T> {
    mutex: &'a Mutex<R, T>,
}

impl<R: RawLock, T> Mutex<R, T> {
    pub closed spec fn value(&self) -> T {
        self.data
    }

    /// A free lock around `data`.
    pub fn new(data: T) -> (r: Mutex<R, T>)
        ensures
            r.value() == data,
    {
        Mutex { raw: R::new(), data }
    }

    /// One round of acquisition; a guard over this mutex when it succeeded.
    pub fn lock(&self) -> (r: Option<MutexGuard<'_, R, T>>)
        ensures
            r matches Some(g) ==> g.mutex() == self,
    {
        if self.raw.lock_round() {
            Some(MutexGuard { mutex: self })
        } else {
            None
        }
    }

    /// One attempt that never waits; a guard over this mutex when it
    /// succeeded.
    pub fn try_lock(&self) -> (r: Option<MutexGuard<'_, R, T>>)
        ensures
            r matches Some(g) ==> g.mutex() == self,
    {
        if self.raw.try_lock() {
            Some(MutexGuard { mutex: self })
        } else {
            None
        }
    }
}

impl<'a, R: RawLock, T> MutexGuard<'a, R, T> {
    pub closed spec fn mutex(&self) -> &'a Mutex<R, T> {
        self.mutex
    }

    /// The protected value.
    pub fn get(&self) -> (r: &T)
        ensures
            *r == self.mutex().value(),
    {
        &self.mutex.data
    }

    /// End the critical section. Only this call releases the lock: a guard
    /// that is dropped without it, or left behind by a panic, keeps the lock
    /// held. The guard is used up, so it releases at most once.
    pub fn unlock(self) {
        self.mutex.raw.unlock();
    }
}

} // verus!
