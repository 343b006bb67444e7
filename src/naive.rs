//! A spin lock that owns the value it protects.
//!
//! `lock` makes one round of the spin lock's acquisition; a caller that
//! must wait repeats it, with a spin hint in between, until it hands back a
//! guard. The guard gives access to the value and releases the lock when it
//! goes out of scope.
use std::sync::atomic::{AtomicBool, Ordering};
use vstd::prelude::*;

verus! {

pub struct Spinlock<T> {
    locked: AtomicBool,
    data: T,
}

pub struct SpinlockGuard<'a, T> {
    lock: &'a Spinlock<T>,
}

impl<T> Spinlock<T> {
    pub closed spec fn value(&self) -> T {
        self.data
    }

    /// A free lock around `data`.
    pub fn new(data: T) -> (r: Spinlock<T>)
        ensures
            r.value() == data,
    {
        Spinlock { locked: AtomicBool::new(false), data }
    }

    /// One round of acquisition: a relaxed read of the flag, and the
    /// exchange from clear to set only if the read saw it clear. A guard
    /// over this lock comes back exactly when the exchange succeeded.
    pub fn lock(&self) -> (r: Option<SpinlockGuard<'_, T>>)
        ensures
            r matches Some(g) ==> g.lock() == self,
    {
        let was_locked = self.locked.load(Ordering::Relaxed);
        if !was_locked && self.locked.compare_exchange_weak(
            was_locked,
            true,
            Ordering::Acquire,
            Ordering::Relaxed,
        ).is_ok() {
            Some(SpinlockGuard { lock: self })
        } else {
            None
        }
    }
}

impl<'a, T> SpinlockGuard<'a, T> {
    pub closed spec fn lock(&self) -> &'a Spinlock<T> {
        self.lock
    }

    /// The protected value.
    pub fn get(&self) -> (r: &T)
        ensures
            *r == self.lock().value(),
    {
        &self.lock.data
    }
}

impl<'a, T> Drop for SpinlockGuard<'a, T> {
    /// End the critical section when the guard goes out of scope: clear the
    /// flag.
    fn drop(&mut self)
        opens_invariants none
        no_unwind
    {
        crate::guard::release_flag(&self.lock.locked);
    }
}

} // verus!
