//! The deterministic workload that drives the locks: an xorshift generator,
//! the per-thread seeds drawn from it, and the lock index that each
//! operation of a thread targets.
use vstd::prelude::*;

verus! {

/// The seed from which the per-thread seeds are drawn.
pub const SEED: u32 = 0x6F4A955E;

/// The start of the running xor that turns draws into per-thread seeds.
pub const SEED_MASK: u32 = 0x9BA2BF27;

/// One step of the xorshift generator.
pub open spec fn xorshift(x: u32) -> u32 {
    let a = x ^ (x << 13u32);
    let b = a ^ (a >> 17u32);
    b ^ (b << 5u32)
}

/// The `i`-th number that the generator yields from `seed`.
pub open spec fn nth_random(seed: u32, i: nat) -> u32
    decreases i,
{
    if i == 0 {
        xorshift(seed)
    } else {
        xorshift(nth_random(seed, (i - 1) as nat))
    }
}

/// The seed of the `i`-th thread: the running xor of the draws from `SEED`,
/// started at `SEED_MASK`.
pub open spec fn nth_thread_seed(i: nat) -> u32
    decreases i,
{
    if i == 0 {
        SEED_MASK ^ nth_random(SEED, 0)
    } else {
        nth_thread_seed((i - 1) as nat) ^ nth_random(SEED, i)
    }
}

/// One step of the xorshift generator.
pub fn next_random(x: u32) -> (r: u32)
    ensures
        r == xorshift(x),
{
    let mut r = x;
    r = r ^ (r << 13u32);
    r = r ^ (r >> 17u32);
    r = r ^ (r << 5u32);
    r
}

/// The first `count` numbers that the generator yields from `seed`.
pub fn random_numbers(seed: u32, count: usize) -> (r: Vec<u32>)
    ensures
        r@.len() == count,
        forall|i: int| 0 <= i < count ==> r@[i] == nth_random(seed, i as nat),
{
    let mut r: Vec<u32> = Vec::new();
    let mut x = seed;
    let mut i: usize = 0;
    while i < count
        invariant
            i <= count,
            r@.len() == i,
            forall|j: int| 0 <= j < i ==> r@[j] == nth_random(seed, j as nat),
            i > 0 ==> x == nth_random(seed, (i - 1) as nat),
            i == 0 ==> x == seed,
        decreases count - i,
    {
        x = next_random(x);
        r.push(x);
        i = i + 1;
    }
    r
}

/// The seeds of the first `count` threads.
pub fn thread_seeds(count: usize) -> (r: Vec<u32>)
    ensures
        r@.len() == count,
        forall|i: int| 0 <= i < count ==> r@[i] == nth_thread_seed(i as nat),
{
    let draws = random_numbers(SEED, count);
    let mut r: Vec<u32> = Vec::new();
    let mut state = SEED_MASK;
    let mut i: usize = 0;
    while i < count
        invariant
            i <= count,
            draws@.len() == count,
            forall|j: int| 0 <= j < count ==> draws@[j] == nth_random(SEED, j as nat),
            r@.len() == i,
            forall|j: int| 0 <= j < i ==> r@[j] == nth_thread_seed(j as nat),
            i > 0 ==> state == nth_thread_seed((i - 1) as nat),
            i == 0 ==> state == SEED_MASK,
        decreases count - i,
    {
        state = state ^ draws[i];
        r.push(state);
        i = i + 1;
    }
    r
}

/// The lock that each of a thread's `n_ops` operations targets: the
/// generator's numbers from the thread's seed, modulo the number of locks.
pub fn lock_indexes(seed: u32, n_locks: u32, n_ops: usize) -> (r: Vec<usize>)
    requires
        n_locks > 0,
    ensures
        r@.len() == n_ops,
        forall|i: int| 0 <= i < n_ops ==> r@[i] == nth_random(seed, i as nat) % n_locks
            && r@[i] < n_locks,
{
    let draws = random_numbers(seed, n_ops);
    let mut r: Vec<usize> = Vec::new();
    let mut i: usize = 0;
    while i < n_ops
        invariant
            i <= n_ops,
            n_locks > 0,
            draws@.len() == n_ops,
            forall|j: int| 0 <= j < n_ops ==> draws@[j] == nth_random(seed, j as nat),
            r@.len() == i,
            forall|j: int| 0 <= j < i ==> r@[j] == nth_random(seed, j as nat) % n_locks
                && r@[j] < n_locks,
        decreases n_ops - i,
    {
        r.push((draws[i] % n_locks) as usize);
        i = i + 1;
    }
    r
}

} // verus!
