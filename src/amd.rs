//! The spin lock: one atomic flag, retried at once on failure.
//!
//! The blocking `lock` repeats `lock_round` with a spin hint in between
//! until a round succeeds. The protocol these operations follow is the one
//! that `crate::flag::FlagLock` models and proves mutually exclusive.
use std::sync::atomic::{AtomicBool, Ordering};
use vstd::prelude::*;

verus! {

pub struct RawSpinlock {
    locked: AtomicBool,
}

impl RawSpinlock {
    /// A lock that starts free.
    pub fn new() -> (r: RawSpinlock) {
        RawSpinlock { locked: AtomicBool::new(false) }
    }

    /// One attempt: exchange the flag from clear to set, acquiring on
    /// success.
    pub fn try_lock(&self) -> (r: bool) {
        self.locked.compare_exchange(false, true, Ordering::Acquire, Ordering::Relaxed).is_ok()
    }

    /// One round of `lock`: a relaxed read of the flag, and the exchange
    /// only if the read saw it clear.
    pub fn lock_round(&self) -> (r: bool) {
        let was_locked = self.locked.load(Ordering::Relaxed);
        if was_locked {
            false
        } else {
            self.locked.compare_exchange_weak(was_locked, true, Ordering::Acquire, Ordering::Relaxed).is_ok()
        }
    }

    /// Release: clear the flag. The caller must hold the lock.
    pub fn unlock(&self)
        opens_invariants none
        no_unwind
    {
        crate::guard::release_flag(&self.locked);
    }
}

} // verus!
