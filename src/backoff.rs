//! The spin lock with adaptive backoff.
//!
//! Its flag and `try_lock` are those of the plain spin lock. A contended
//! `lock` waits by the schedule of `Backoff`: a short spin, then rounds of a
//! randomised spin, checks of the lock, an OS yield followed by checks, two
//! zero-length sleeps each followed by checks, and a sleep of about a
//! millisecond, with the number of checks doubled each round up to a cap.
use std::sync::atomic::{AtomicBool, Ordering};
use vstd::arithmetic::power2::{lemma2_to64, lemma_pow2_strictly_increases, lemma_pow2_unfold, pow2};
use vstd::prelude::*;

verus! {

pub struct RawSpinlock {
    locked: AtomicBool,
}

impl RawSpinlock {
    /// A lock that starts free.
    pub fn new() -> (r: RawSpinlock) {
        RawSpinlock { locked: AtomicBool::new(false) }
    }

    /// One attempt: exchange the flag from clear to set, acquiring on
    /// success. `lock` makes this attempt first and backs off only after it
    /// failed.
    pub fn try_lock(&self) -> (r: bool) {
        self.locked.compare_exchange(false, true, Ordering::Acquire, Ordering::Relaxed).is_ok()
    }

    /// Release: clear the flag. The caller must hold the lock.
    pub fn unlock(&self)
        opens_invariants none
        no_unwind
    {
        crate::guard::release_flag(&self.locked);
    }
}

/// Checks of the lock before the first randomised spin.
pub const SHORT_CHECKS: u32 = 4;

/// Checks per batch in the first round.
pub const FIRST_CHECKS: u32 = 8;

/// Batches of checks double each round up to this size.
pub const MAX_CHECKS: u32 = 0x4000_0000;

/// The randomised spin is this long plus a random number below 128.
pub const SPIN_BASE: u32 = 64;

/// The sleep that ends each round, in nanoseconds.
pub const ROUND_SLEEP_NANOS: u64 = 0x10_0000;

/// What a waiting thread does next.
#[derive(PartialEq, Eq, Structural, Clone, Copy, Debug)]
pub enum Action {
    /// Try the lock up to this many times; stop waiting on the first success.
    Check(u32),
    /// Issue this many spin hints.
    Spin(u32),
    /// Yield the rest of the timeslice to the operating system.
    Yield,
    /// Yield to the scheduler by a zero-length sleep.
    ZeroSleep,
    /// Sleep this many nanoseconds.
    Sleep(u64),
}

/// The short spin before the first round: a check and a spin hint, four
/// times over.
pub open spec fn short_spin() -> Seq<Action> {
    seq![
        Action::Check(1), Action::Spin(1), Action::Check(1), Action::Spin(1),
        Action::Check(1), Action::Spin(1), Action::Check(1), Action::Spin(1),
    ]
}

/// One round with batches of `spins` checks, whose randomised spin has the
/// random part `r`: the spin, a batch of checks, an OS yield and a batch,
/// two zero-length sleeps each followed by a batch, and the closing sleep.
pub open spec fn round(spins: u32, r: u8) -> Seq<Action> {
    seq![
        Action::Spin((SPIN_BASE + r) as u32),
        Action::Check(spins),
        Action::Yield,
        Action::Check(spins),
        Action::ZeroSleep,
        Action::Check(spins),
        Action::ZeroSleep,
        Action::Check(spins),
        Action::Sleep(ROUND_SLEEP_NANOS),
    ]
}

/// Every round tries the lock again: four batches of checks, one after the
/// randomised spin, one after the OS yield and one after each zero-length
/// sleep, so a waiter whose lock is free at a batch acquires it.
pub proof fn lemma_every_round_checks(spins: u32, r: u8)
    ensures
        round(spins, r).len() == 9,
        round(spins, r)[1] == Action::Check(spins),
        round(spins, r)[3] == Action::Check(spins),
        round(spins, r)[5] == Action::Check(spins),
        round(spins, r)[7] == Action::Check(spins),
{
}

/// The batch size of the round after one with `spins`: doubled while it is
/// below `MAX_CHECKS`.
pub open spec fn doubled(spins: u32) -> u32 {
    if spins < MAX_CHECKS {
        (2 * spins) as u32
    } else {
        spins
    }
}

/// Where a waiting thread stands in the backoff schedule.
pub struct Backoff {
    /// Still in the short spin before the first round.
    pub short: bool,
    /// Position within the short spin, or within the current round.
    pub pos: u32,
    /// Checks per batch in the current round.
    pub spins: u32,
    /// The batch size is two to this power.
    pub exp: Ghost<nat>,
}

impl Backoff {
    pub open spec fn wf(&self) -> bool {
        &&& self.short ==> self.pos < short_spin().len()
        &&& !self.short ==> self.pos < round(self.spins, 0).len()
        &&& 3 <= self.exp@ <= 30
        &&& self.spins == pow2(self.exp@)
    }

    /// The action at the current position; `r` is the random part of the
    /// randomised spin.
    pub open spec fn action(&self, r: u8) -> Action {
        if self.short {
            short_spin()[self.pos as int]
        } else {
            round(self.spins, r)[self.pos as int]
        }
    }

    /// The position after the current one: through the short spin, then
    /// round after round, each with the batch size of the one before doubled.
    pub open spec fn advanced(&self) -> (bool, u32, u32) {
        if self.short && self.pos + 1 < short_spin().len() {
            (true, (self.pos + 1) as u32, self.spins)
        } else if self.short {
            (false, 0, self.spins)
        } else if self.pos + 1 < round(self.spins, 0).len() {
            (false, (self.pos + 1) as u32, self.spins)
        } else {
            (false, 0, doubled(self.spins))
        }
    }

    /// The schedule's start: the short spin, with the first round's batch size.
    pub fn new() -> (r: Backoff)
        ensures
            r.wf(),
            r.short,
            r.pos == 0,
            r.spins == FIRST_CHECKS,
    {
        proof {
            lemma2_to64();
        }
        Backoff { short: true, pos: 0, spins: FIRST_CHECKS, exp: Ghost(3) }
    }

    /// Whether the next action is the randomised spin, the one action that
    /// uses a random number.
    pub fn wants_random(&self) -> (r: bool)
        ensures
            r == (!self.short && self.pos == 0),
    {
        !self.short && self.pos == 0
    }

    /// The next action of the schedule, and the step past it. The batch size
    /// stays a power of two from `FIRST_CHECKS` to `MAX_CHECKS`.
    pub fn next_action(&mut self, r: u8) -> (a: Action)
        requires
            old(self).wf(),
        ensures
            final(self).wf(),
            a == old(self).action(r),
            (final(self).short, final(self).pos, final(self).spins) == old(self).advanced(),
            FIRST_CHECKS <= final(self).spins <= MAX_CHECKS,
    {
        let a = if self.short {
            if self.pos % 2 == 0 {
                Action::Check(1)
            } else {
                Action::Spin(1)
            }
        } else if self.pos == 0 {
            Action::Spin(SPIN_BASE + r as u32)
        } else if self.pos == 2 {
            Action::Yield
        } else if self.pos == 4 || self.pos == 6 {
            Action::ZeroSleep
        } else if self.pos == 8 {
            Action::Sleep(ROUND_SLEEP_NANOS)
        } else {
            Action::Check(self.spins)
        };
        if self.short {
            if self.pos + 1 < 2 * SHORT_CHECKS {
                self.pos = self.pos + 1;
            } else {
                self.short = false;
                self.pos = 0;
            }
        } else if self.pos < 8 {
            self.pos = self.pos + 1;
        } else {
            if self.spins < MAX_CHECKS {
                proof {
                    lemma2_to64();
                    if self.exp@ > 30 {
                        lemma_pow2_strictly_increases(30, self.exp@);
                    }
                    lemma_pow2_unfold(self.exp@ + 1);
                }
                self.spins = 2 * self.spins;
                self.exp = Ghost(self.exp@ + 1);
            }
            self.pos = 0;
        }
        proof {
            lemma2_to64();
            if self.exp@ > 3 {
                lemma_pow2_strictly_increases(3, self.exp@);
            }
            if self.exp@ < 30 {
                lemma_pow2_strictly_increases(self.exp@, 30);
            }
        }
        a
    }
}

/// The mixing step of the backoff's random source: the seed times 113,
/// modulo 256, keeping the low seven bits.
pub open spec fn mixed_u7(seed: u8) -> int {
    ((seed as int * 113) % 256) % 128
}

/// Turn a seed of the shared counter into a number below 128.
pub fn mix_u7(seed: u8) -> (r: u8)
    ensures
        r as int == mixed_u7(seed),
        r < 128,
{
    let m = seed.wrapping_mul(113);
    let r = m & 0x7f;
    assert(m & 0x7f == m % 128) by (bit_vector);
    assert(m as int == (seed as int * 113) % 256);
    r
}

} // verus!
