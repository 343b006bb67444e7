use spinlocks::backoff::{mix_u7, Action, Backoff, MAX_CHECKS};
use spinlocks::flag::FlagLock;
use spinlocks::mcs::{McsLock, Phase};
use spinlocks::workload::{lock_indexes, next_random, random_numbers, thread_seeds};

#[test]
fn flag_try_lock_and_release() {
    let mut m = FlagLock::new(3);
    assert!(m.try_lock(0));
    assert!(!m.try_lock(1));
    assert!(!m.try_lock(2));
    assert!(!m.lock_round(1, false));
    assert!(!m.lock_round(2, true));
    m.unlock(0);
    assert!(!m.locked);
    assert!(!m.lock_round(1, true));
    assert!(m.lock_round(1, false));
    assert!(m.holding[1]);
    assert!(!m.holding[0]);
}

/// Runs `threads` simulated threads, each doing `ops` increments of a shared
/// counter by a read and a separate write inside the critical section, under
/// an interleaving chosen by the generator.
fn simulate_mcs(threads: usize, ops: u32, seed: u32) -> u32 {
    let mut m = McsLock::new(threads);
    let mut counter: u32 = 0;
    let mut done = vec![0u32; threads];
    let mut read: Vec<Option<u32>> = vec![None; threads];
    let mut x = seed;
    let mut order = Vec::new();
    while done.iter().any(|&d| d < ops) {
        x = next_random(x);
        let t = x as usize % threads;
        match m.phase[t] {
            Phase::Idle => {
                if done[t] < ops {
                    if x % 3 == 0 {
                        m.try_lock(t);
                    } else {
                        m.enqueue(t);
                        order.push(t);
                    }
                    if m.phase[t] == Phase::Holding && x % 3 == 0 {
                        order.push(t);
                    }
                }
            }
            Phase::Linking => m.link(t),
            Phase::Waiting => {
                m.poll(t);
            }
            Phase::Holding => match read[t] {
                None => read[t] = Some(counter),
                Some(v) => {
                    counter = v + 1;
                    read[t] = None;
                    done[t] += 1;
                    let granted = order.remove(0);
                    assert_eq!(granted, t);
                    m.unlock(t);
                }
            },
            Phase::Releasing => {
                m.unlock_poll(t);
            }
        }
        let owners = (0..threads)
            .filter(|&u| matches!(m.phase[u], Phase::Holding | Phase::Releasing))
            .count();
        assert!(owners <= 1);
    }
    counter
}

#[test]
fn mcs_simulation_counts_exactly_in_arrival_order() {
    assert_eq!(simulate_mcs(4, 200, 0x6F4A955E), 800);
    assert_eq!(simulate_mcs(1, 50, 7), 50);
    assert_eq!(simulate_mcs(7, 30, 12345), 210);
}

#[test]
fn mcs_grants_in_order_of_arrival() {
    let mut m = McsLock::new(3);
    m.enqueue(0);
    assert_eq!(m.phase[0], Phase::Holding);
    m.enqueue(1);
    m.enqueue(2);
    assert_eq!(m.phase[1], Phase::Linking);
    m.link(2);
    m.link(1);
    assert!(!m.poll(1));
    assert!(!m.poll(2));
    m.unlock(0);
    assert!(!m.poll(2));
    assert!(m.poll(1));
    m.unlock(1);
    assert!(m.poll(2));
    m.unlock(2);
    assert_eq!(m.tail, None);
}

#[test]
fn mcs_unlock_waits_for_a_linking_successor() {
    let mut m = McsLock::new(2);
    m.enqueue(0);
    m.enqueue(1);
    m.unlock(0);
    assert_eq!(m.phase[0], Phase::Releasing);
    assert!(!m.unlock_poll(0));
    m.link(1);
    assert!(m.unlock_poll(0));
    assert_eq!(m.phase[0], Phase::Idle);
    assert!(m.poll(1));
}

#[test]
fn mcs_try_lock_only_on_a_free_lock() {
    let mut m = McsLock::new(2);
    assert!(m.try_lock(0));
    assert!(!m.try_lock(1));
    assert_eq!(m.phase[1], Phase::Idle);
    m.unlock(0);
    assert!(m.try_lock(1));
    m.unlock(1);
    assert_eq!(m.tail, None);
}

#[test]
fn mcs_node_reuse_on_one_thread() {
    let mut m = McsLock::new(2);
    for i in 0..10_000u32 {
        if i % 2 == 0 {
            m.enqueue(0);
        } else {
            assert!(m.try_lock(0));
        }
        assert_eq!(m.phase[0], Phase::Holding);
        m.unlock(0);
        assert_eq!(m.phase[0], Phase::Idle);
        assert_eq!(m.tail, None);
    }
    // A stale flag left from a handoff does not let the node skip the queue.
    m.enqueue(1);
    m.enqueue(0);
    m.link(0);
    m.unlock(1);
    assert!(m.poll(0));
    m.unlock(0);
    m.enqueue(1);
    m.enqueue(0);
    m.link(0);
    assert!(!m.poll(0));
}

#[test]
fn backoff_schedule() {
    let mut b = Backoff::new();
    for _ in 0..4 {
        assert!(!b.wants_random());
        assert_eq!(b.next_action(0), Action::Check(1));
        assert_eq!(b.next_action(0), Action::Spin(1));
    }
    assert!(b.wants_random());
    assert_eq!(b.next_action(10), Action::Spin(74));
    assert!(!b.wants_random());
    assert_eq!(b.next_action(0), Action::Check(8));
    assert_eq!(b.next_action(0), Action::Yield);
    assert_eq!(b.next_action(0), Action::Check(8));
    assert_eq!(b.next_action(0), Action::ZeroSleep);
    assert_eq!(b.next_action(0), Action::Check(8));
    assert_eq!(b.next_action(0), Action::ZeroSleep);
    assert_eq!(b.next_action(0), Action::Check(8));
    assert_eq!(b.next_action(0), Action::Sleep(1 << 20));
    assert!(b.wants_random());
    assert_eq!(b.next_action(127), Action::Spin(191));
    assert_eq!(b.next_action(0), Action::Check(16));
    assert_eq!(b.next_action(0), Action::Yield);
}

#[test]
fn backoff_batches_stop_doubling_at_the_cap() {
    let mut b = Backoff::new();
    let mut last = 0;
    for _ in 0..9 * 40 + 8 {
        if let Action::Check(n) = b.next_action(0) {
            last = n;
        }
    }
    assert_eq!(last, MAX_CHECKS);
    assert_eq!(b.spins, MAX_CHECKS);
}

#[test]
fn mcs_reset_clears_a_stale_node() {
    let mut m = McsLock::new(2);
    m.enqueue(0);
    m.enqueue(1);
    m.link(1);
    m.unlock(0);
    assert!(m.flag[1]);
    assert!(m.poll(1));
    m.unlock(1);
    // Thread 1's flag is still set from the hand-off; a new attempt resets it.
    assert!(m.flag[1]);
    assert!(m.try_lock(1));
    assert!(!m.flag[1]);
    assert_eq!(m.next[1], None);
    // Freeing with no successor writes no flag.
    let before = m.flag.clone();
    m.unlock(1);
    assert_eq!(m.flag, before);
    assert_eq!(m.tail, None);
}

#[test]
fn mix_u7_values() {
    assert_eq!(mix_u7(13), 61);
    assert_eq!(mix_u7(0), 0);
    assert_eq!(mix_u7(1), 113);
    assert_eq!(mix_u7(255), 15);
    for s in 0..=255u8 {
        assert!(mix_u7(s) < 128);
    }
}

#[test]
fn xorshift_values() {
    assert_eq!(next_random(1), 270369);
    let r = random_numbers(1, 3);
    assert_eq!(r[0], 270369);
    assert_eq!(r[1], next_random(270369));
    assert_eq!(r[2], next_random(r[1]));
    assert!(random_numbers(5, 0).is_empty());
}

#[test]
fn thread_seeds_and_indexes() {
    let draws = random_numbers(0x6F4A955E, 3);
    let seeds = thread_seeds(3);
    assert_eq!(seeds[0], 0x9BA2BF27 ^ draws[0]);
    assert_eq!(seeds[1], seeds[0] ^ draws[1]);
    assert_eq!(seeds[2], seeds[1] ^ draws[2]);
    let idx = lock_indexes(seeds[0], 16, 100);
    let nums = random_numbers(seeds[0], 100);
    assert_eq!(idx.len(), 100);
    for i in 0..100 {
        assert_eq!(idx[i], (nums[i] % 16) as usize);
    }
}
