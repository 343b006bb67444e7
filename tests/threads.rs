use std::sync::atomic::{AtomicU32, Ordering};

use crossbeam_utils::thread::scope;
use spinlocks::amd;
use spinlocks::backoff::{self, mix_u7, Action, Backoff};
use spinlocks::guard::{Mutex, RawLock};
use spinlocks::naive::{Spinlock, SpinlockGuard};
use spinlocks::workload::{lock_indexes, thread_seeds};

fn acquire<T>(lock: &Spinlock<T>) -> SpinlockGuard<'_, T> {
    loop {
        if let Some(g) = lock.lock() {
            return g;
        }
        std::hint::spin_loop();
    }
}

fn lock_amd(lock: &amd::RawSpinlock) {
    while !lock.lock_round() {
        std::hint::spin_loop();
    }
}

fn lock_backoff(lock: &backoff::RawSpinlock, seed: &AtomicU32) {
    if lock.try_lock() {
        return;
    }
    let mut b = Backoff::new();
    loop {
        let r = if b.wants_random() { mix_u7(seed.fetch_add(1, Ordering::Relaxed) as u8) } else { 0 };
        match b.next_action(r) {
            Action::Check(n) => {
                for _ in 0..n {
                    if lock.try_lock() {
                        return;
                    }
                }
            }
            Action::Spin(n) => {
                for _ in 0..n {
                    std::hint::spin_loop();
                }
            }
            Action::Yield | Action::ZeroSleep | Action::Sleep(_) => std::hint::spin_loop(),
        }
    }
}

/// An increment that loses updates unless the lock excludes other threads.
fn bump(c: &AtomicU32) {
    let v = c.load(Ordering::Relaxed);
    c.store(v + 1, Ordering::Relaxed);
}

#[test]
fn scenario_four_threads_one_spinlock() {
    for _ in 0..2 {
        let lock = Spinlock::new(AtomicU32::new(0));
        scope(|s| {
            for _ in 0..4 {
                s.spawn(|_| {
                    for _ in 0..100_000 {
                        let g = acquire(&lock);
                        bump(g.get());
                        drop(g);
                    }
                });
            }
        })
        .unwrap();
        let g = acquire(&lock);
        assert_eq!(g.get().load(Ordering::Relaxed), 400_000);
        drop(g);
    }
}

#[test]
fn scenario_eight_threads_sixteen_locks() {
    let locks: Vec<Spinlock<AtomicU32>> = (0..16).map(|_| Spinlock::new(AtomicU32::new(0))).collect();
    let seeds = thread_seeds(8);
    scope(|s| {
        for &seed in seeds.iter() {
            let locks = &locks;
            s.spawn(move |_| {
                for idx in lock_indexes(seed, 16, 10_000) {
                    let g = acquire(&locks[idx]);
                    bump(g.get());
                    drop(g);
                }
            });
        }
    })
    .unwrap();
    let total: u32 = locks
        .iter()
        .map(|l| {
            let g = acquire(l);
            let v = g.get().load(Ordering::Relaxed);
            drop(g);
            v
        })
        .sum();
    assert_eq!(total, 80_000);
}

#[test]
fn spin_lock_mutual_exclusion() {
    let lock = amd::RawSpinlock::new();
    let counter = AtomicU32::new(0);
    scope(|s| {
        for _ in 0..3 {
            s.spawn(|_| {
                for _ in 0..20_000 {
                    lock_amd(&lock);
                    bump(&counter);
                    lock.unlock();
                }
            });
        }
    })
    .unwrap();
    assert_eq!(counter.load(Ordering::Relaxed), 60_000);
}

#[test]
fn backoff_lock_mutual_exclusion() {
    let lock = backoff::RawSpinlock::new();
    let counter = AtomicU32::new(0);
    let seed = AtomicU32::new(13);
    scope(|s| {
        for _ in 0..3 {
            s.spawn(|_| {
                for _ in 0..20_000 {
                    lock_backoff(&lock, &seed);
                    bump(&counter);
                    lock.unlock();
                }
            });
        }
    })
    .unwrap();
    assert_eq!(counter.load(Ordering::Relaxed), 60_000);
}

#[test]
fn single_thread_counts_exactly() {
    let lock = Spinlock::new(AtomicU32::new(0));
    for _ in 0..1000 {
        let g = acquire(&lock);
        bump(g.get());
        drop(g);
    }
    let g = acquire(&lock);
    assert_eq!(g.get().load(Ordering::Relaxed), 1000);
    drop(g);
}

#[test]
fn try_lock_fails_while_held_on_other_threads() {
    let spin = amd::RawSpinlock::new();
    let back = backoff::RawSpinlock::new();
    assert!(spin.try_lock());
    assert!(back.try_lock());
    scope(|s| {
        s.spawn(|_| {
            assert!(!spin.try_lock());
            assert!(!spin.lock_round());
            assert!(!back.try_lock());
        });
    })
    .unwrap();
    spin.unlock();
    back.unlock();
    scope(|s| {
        s.spawn(|_| {
            assert!(spin.try_lock());
            assert!(back.try_lock());
        });
    })
    .unwrap();
}

#[test]
fn guard_lock_is_refused_while_held() {
    let lock = Spinlock::new(7u32);
    let g = lock.lock().expect("a free lock is taken in one round");
    assert_eq!(*g.get(), 7);
    assert!(lock.lock().is_none());
    drop(g);
    let g = lock.lock().expect("free again after unlock");
    drop(g);
}

fn count_with_mutex<R: RawLock + Sync>(threads: usize, ops: u32) -> u32 {
    let m: Mutex<R, AtomicU32> = Mutex::new(AtomicU32::new(0));
    scope(|s| {
        for _ in 0..threads {
            s.spawn(|_| {
                for _ in 0..ops {
                    let g = loop {
                        if let Some(g) = m.lock() {
                            break g;
                        }
                        std::hint::spin_loop();
                    };
                    bump(g.get());
                    g.unlock();
                }
            });
        }
    })
    .unwrap();
    let g = m.try_lock().expect("free after all threads finished");
    let v = g.get().load(Ordering::Relaxed);
    g.unlock();
    v
}

#[test]
fn guard_wrapper_over_each_flag_lock() {
    assert_eq!(count_with_mutex::<amd::RawSpinlock>(4, 10_000), 40_000);
    assert_eq!(count_with_mutex::<backoff::RawSpinlock>(4, 10_000), 40_000);
    assert_eq!(count_with_mutex::<amd::RawSpinlock>(1, 1), 1);
}

#[test]
fn guard_wrapper_try_lock_while_held() {
    let m: Mutex<backoff::RawSpinlock, u32> = Mutex::new(5);
    let g = m.try_lock().expect("a free mutex is taken");
    assert_eq!(*g.get(), 5);
    assert!(m.try_lock().is_none());
    assert!(m.lock().is_none());
    g.unlock();
    assert!(m.try_lock().is_some());
}
