//! The queue (MCS) lock as a state machine over thread indices.
//!
//! Every thread owns one node, addressed by the thread's index. The shared
//! tail names the most recently enqueued node; a node's `next` names its
//! successor once that successor has linked itself in. Each method below is
//! one atomic step that the lock's algorithm takes on behalf of one thread.
//! The ghost `queue` lists the enqueued threads from the owner to the tail.
use vstd::prelude::*;

verus! {

/// Where a thread stands in the lock's protocol.
#[derive(PartialEq, Eq, Structural, Clone, Copy, Debug)]
pub enum Phase {
    /// Not enqueued.
    Idle,
    /// Swapped itself into the tail, not yet linked behind its predecessor.
    Linking,
    /// Linked behind its predecessor, spinning on its own flag.
    Waiting,
    /// Holds the lock.
    Holding,
    /// Releasing, waiting for a successor that is still linking.
    Releasing,
}

pub struct McsLock {
    pub tail: Option<usize>,
    pub next: Vec<Option<usize>>,
    pub flag: Vec<bool>,
    pub phase: Vec<Phase>,
    /// The predecessor that each linking thread found in the tail.
    pub pred: Vec<usize>,
    /// The enqueued threads, from the owner to the tail.
    pub queue: Ghost<Seq<usize>>,
    /// How many threads have left the front of the queue so far.
    pub head: Ghost<int>,
    /// The position in the order of arrival that each thread last took.
    pub ticket: Ghost<Seq<int>>,
}

/// A thread owns the lock while it holds it or is handing it on.
pub open spec fn owns_phase(p: Phase) -> bool {
    p == Phase::Holding || p == Phase::Releasing
}

impl McsLock {
    pub open spec fn threads(&self) -> nat {
        self.phase@.len()
    }

    pub open spec fn owns(&self, t: usize) -> bool {
        owns_phase(self.phase@[t as int])
    }

    /// Where thread `t` stands in the queue, if it is enqueued.
    pub open spec fn position(&self, t: usize) -> int {
        self.ticket@[t as int] - self.head@
    }

    /// The thread at queue position `i` is not idle and knows its position.
    pub open spec fn queued_ok(&self, i: int) -> bool {
        let q = self.queue@;
        &&& q[i] < self.threads()
        &&& self.phase@[q[i] as int] != Phase::Idle
        &&& self.position(q[i]) == i
    }

    pub open spec fn inv_queue(&self) -> bool {
        forall|i: int| 0 <= i < self.queue@.len() ==> #[trigger] self.queued_ok(i)
    }

    /// Each thread that is not idle stands in the queue.
    pub open spec fn inv_members(&self) -> bool {
        let q = self.queue@;
        forall|t: usize| #![trigger self.phase@[t as int]] t < self.threads() && self.phase@[t as int]
            != Phase::Idle ==> 0 <= self.position(t) < q.len() && q[self.position(t)] == t
    }

    /// The tail names the last enqueued thread, whose node has no successor.
    pub open spec fn inv_tail(&self) -> bool {
        let q = self.queue@;
        &&& (self.tail is None <==> q.len() == 0)
        &&& q.len() > 0 ==> self.tail == Some(q.last())
        &&& q.len() > 0 ==> self.next@[q.last() as int] is None
    }

    /// The thread at queue position `i`, behind the front, is linking or
    /// waiting, with its flag clear.
    pub open spec fn follower_ok(&self, i: int) -> bool {
        let q = self.queue@;
        &&& !self.flag@[q[i] as int]
        &&& (self.phase@[q[i] as int] == Phase::Linking || self.phase@[q[i] as int] == Phase::Waiting)
        &&& self.phase@[q[i] as int] == Phase::Linking ==> self.pred@[q[i] as int] == q[i - 1]
    }

    pub open spec fn inv_followers(&self) -> bool {
        forall|i: int| 1 <= i < self.queue@.len() ==> #[trigger] self.follower_ok(i)
    }

    /// The node at queue position `i` names its successor exactly when that
    /// successor has linked in.
    pub open spec fn link_ok(&self, i: int) -> bool {
        let q = self.queue@;
        self.next@[q[i] as int] == (if self.phase@[q[i + 1] as int] == Phase::Waiting {
            Some(q[i + 1])
        } else {
            None
        })
    }

    pub open spec fn inv_links(&self) -> bool {
        forall|i: int| 0 <= i < self.queue@.len() - 1 ==> #[trigger] self.link_ok(i)
    }

    /// The front of the queue owns the lock or has been handed it.
    pub open spec fn inv_front(&self) -> bool {
        let q = self.queue@;
        &&& q.len() > 0 ==> {
            ||| owns_phase(self.phase@[q[0] as int])
            ||| (self.phase@[q[0] as int] == Phase::Waiting && self.flag@[q[0] as int])
        }
        &&& q.len() > 0 && self.phase@[q[0] as int] == Phase::Releasing ==> q.len() >= 2
    }

    pub open spec fn wf(&self) -> bool {
        let n = self.threads();
        &&& self.next@.len() == n
        &&& self.flag@.len() == n
        &&& self.pred@.len() == n
        &&& self.ticket@.len() == n
        &&& self.inv_queue()
        &&& self.inv_members()
        &&& self.inv_tail()
        &&& self.inv_followers()
        &&& self.inv_links()
        &&& self.inv_front()
    }

    /// A lock for `n` threads, free, with every node reset.
    pub fn new(n: usize) -> (r: McsLock)
        ensures
            r.wf(),
            r.threads() == n,
            r.tail is None,
            r.queue@ == Seq::<usize>::empty(),
            forall|t: int| 0 <= t < n ==> r.phase@[t] == Phase::Idle,
    {
        let mut next: Vec<Option<usize>> = Vec::new();
        let mut flag: Vec<bool> = Vec::new();
        let mut phase: Vec<Phase> = Vec::new();
        let mut pred: Vec<usize> = Vec::new();
        let mut i: usize = 0;
        while i < n
            invariant
                i <= n,
                next@.len() == i,
                flag@.len() == i,
                phase@.len() == i,
                pred@.len() == i,
                forall|t: int| 0 <= t < i ==> phase@[t] == Phase::Idle,
            decreases n - i,
        {
            next.push(None);
            flag.push(false);
            phase.push(Phase::Idle);
            pred.push(0);
            i = i + 1;
        }
        McsLock {
            tail: None,
            next,
            flag,
            phase,
            pred,
            queue: Ghost(Seq::empty()),
            head: Ghost(0),
            ticket: Ghost(Seq::new(n as nat, |i: int| 0)),
        }
    }

    /// The thread that owns the lock, or has been handed it, stands at the
    /// front of the queue.
    pub proof fn lemma_owner_is_front(&self, t: usize)
        requires
            self.wf(),
            t < self.threads(),
            self.owns(t) || self.phase@[t as int] == Phase::Waiting && self.flag@[t as int],
        ensures
            self.queue@.len() > 0,
            self.queue@[0] == t,
    {
        let i = self.position(t);
        assert(self.queue@[i] == t);
        if i > 0 {
            assert(self.follower_ok(i));
        }
    }

    /// Two queue positions hold the same thread only if they are equal.
    proof fn lemma_distinct(&self, i: int, j: int)
        requires
            self.wf(),
            0 <= i < self.queue@.len(),
            0 <= j < self.queue@.len(),
            i != j,
        ensures
            self.queue@[i] != self.queue@[j],
    {
        assert(self.queued_ok(i));
        assert(self.queued_ok(j));
    }

    /// Step of `lock`: reset the own node and swap it into the tail. The
    /// thread holds the lock at once if the tail was empty, and must link
    /// itself behind the old tail otherwise.
    pub fn enqueue(&mut self, t: usize)
        requires
            old(self).wf(),
            t < old(self).threads(),
            old(self).phase@[t as int] == Phase::Idle,
        ensures
            final(self).wf(),
            final(self).threads() == old(self).threads(),
            final(self).queue@ == old(self).queue@.push(t),
            final(self).tail == Some(t),
            old(self).tail is None ==> final(self).phase@[t as int] == Phase::Holding,
            old(self).tail is Some ==> final(self).phase@[t as int] == Phase::Linking,
            forall|u: int| 0 <= u < old(self).threads() && u != t ==> final(self).phase@[u]
                == old(self).phase@[u],
            final(self).flag@ == old(self).flag@.update(t as int, false),
            final(self).next@ == old(self).next@.update(t as int, None),
    {
        let ghost q = self.queue@;
        self.next.set(t, None);
        self.flag.set(t, false);
        let prev = self.tail;
        self.tail = Some(t);
        self.queue = Ghost(q.push(t));
        self.ticket = Ghost(self.ticket@.update(t as int, self.head@ + q.len()));
        match prev {
            None => {
                self.phase.set(t, Phase::Holding);
            },
            Some(p) => {
                self.pred.set(t, p);
                self.phase.set(t, Phase::Linking);
            },
        }
        proof {
            let nq = self.queue@;
            assert(nq[q.len() as int] == t);
            assert forall|i: int| 0 <= i < q.len() implies #[trigger] nq[i] == q[i] && q[i] != t by {
                assert(old(self).queued_ok(i));
            }
            assert forall|i: int| 0 <= i < nq.len() implies #[trigger] self.queued_ok(i) by {
                if i < q.len() {
                    assert(old(self).queued_ok(i));
                }
            }
            assert forall|u: usize| #![trigger self.phase@[u as int]] u < self.threads()
                && self.phase@[u as int] != Phase::Idle implies 0 <= self.position(u) < nq.len()
                && nq[self.position(u)] == u by {
                if u != t {
                    assert(old(self).phase@[u as int] != Phase::Idle);
                }
            }
            assert forall|i: int| 1 <= i < nq.len() implies #[trigger] self.follower_ok(i) by {
                if i < q.len() {
                    assert(old(self).follower_ok(i));
                    assert(old(self).queued_ok(i));
                    assert(nq[i - 1] == q[i - 1]);
                } else {
                    assert(q.last() == q[i - 1]);
                }
            }
            assert forall|i: int| 0 <= i < nq.len() - 1 implies #[trigger] self.link_ok(i) by {
                if i < q.len() - 1 {
                    assert(old(self).link_ok(i));
                    assert(old(self).queued_ok(i));
                    assert(old(self).queued_ok(i + 1));
                    assert(nq[i + 1] == q[i + 1]);
                    assert(nq[i] != t && nq[i + 1] != t);
                } else {
                    assert(q.last() == nq[i]);
                    assert(nq[i] == q[i] && q[i] != t);
                    assert(old(self).queued_ok(i));
                    assert(nq[i + 1] == t);
                }
            }
            if q.len() > 0 {
                assert(nq[0] == q[0]);
                assert(old(self).queued_ok(0));
            }
        }
    }

    /// `try_lock`: reset the own node and take the tail only if it is empty.
    pub fn try_lock(&mut self, t: usize) -> (r: bool)
        requires
            old(self).wf(),
            t < old(self).threads(),
            old(self).phase@[t as int] == Phase::Idle,
        ensures
            final(self).wf(),
            final(self).threads() == old(self).threads(),
            r == (old(self).tail is None),
            r ==> final(self).queue@ == seq![t] && final(self).phase@[t as int] == Phase::Holding,
            !r ==> final(self).queue@ == old(self).queue@ && final(self).phase@ == old(self).phase@,
            forall|u: int| 0 <= u < old(self).threads() && u != t ==> final(self).phase@[u]
                == old(self).phase@[u],
            final(self).flag@ == old(self).flag@.update(t as int, false),
            final(self).next@ == old(self).next@.update(t as int, None),
    {
        let ghost q = self.queue@;
        self.next.set(t, None);
        self.flag.set(t, false);
        match self.tail {
            None => {
                self.tail = Some(t);
                self.queue = Ghost(Seq::empty().push(t));
                self.ticket = Ghost(self.ticket@.update(t as int, self.head@));
                self.phase.set(t, Phase::Holding);
                proof {
                    assert(self.queue@[0] == t);
                    assert(self.queue@.last() == t);
                    assert(self.queued_ok(0));
                    assert forall|u: usize| #![trigger self.phase@[u as int]] u < self.threads()
                        && self.phase@[u as int] != Phase::Idle implies 0 <= self.position(u) < 1
                        && self.queue@[self.position(u)] == u by {
                        if u != t {
                            assert(old(self).phase@[u as int] != Phase::Idle);
                        }
                    }
                }
                true
            },
            Some(_) => {
                proof {
                    assert forall|i: int| 0 <= i < q.len() implies #[trigger] q[i] != t by {
                        assert(old(self).queued_ok(i));
                    }
                    assert forall|i: int| 0 <= i < q.len() implies #[trigger] self.queued_ok(i) by {
                        assert(old(self).queued_ok(i));
                    }
                    assert forall|i: int| 1 <= i < q.len() implies #[trigger] self.follower_ok(i) by {
                        assert(old(self).follower_ok(i));
                        assert(old(self).queued_ok(i));
                        assert(q[i] != t);
                        assert(self.flag@[q[i] as int] == old(self).flag@[q[i] as int]);
                    }
                    assert forall|i: int| 0 <= i < q.len() - 1 implies #[trigger] self.link_ok(i) by {
                        assert(old(self).link_ok(i));
                        assert(old(self).queued_ok(i));
                        assert(old(self).queued_ok(i + 1));
                    }
                    if q.len() > 0 {
                        assert(q.last() == q[q.len() - 1]);
                        assert(old(self).queued_ok(q.len() - 1));
                        assert(old(self).queued_ok(0));
                    }
                }
                false
            },
        }
    }

    /// Step of `lock`: publish the own node as the predecessor's successor.
    pub fn link(&mut self, t: usize)
        requires
            old(self).wf(),
            t < old(self).threads(),
            old(self).phase@[t as int] == Phase::Linking,
        ensures
            final(self).wf(),
            final(self).threads() == old(self).threads(),
            final(self).queue@ == old(self).queue@,
            final(self).phase@[t as int] == Phase::Waiting,
            forall|u: int| 0 <= u < old(self).threads() && u != t ==> final(self).phase@[u]
                == old(self).phase@[u],
            final(self).flag@ == old(self).flag@,
            final(self).next@ == old(self).next@.update(old(self).pred@[t as int] as int, Some(t)),
    {
        let ghost q = self.queue@;
        let ghost k = self.position(t);
        proof {
            assert(q[k] == t);
            assert(k >= 1);
            assert(self.follower_ok(k));
            assert(self.queued_ok(k - 1));
        }
        let p = self.pred[t];
        self.next.set(p, Some(t));
        self.phase.set(t, Phase::Waiting);
        proof {
            assert forall|i: int| 0 <= i < q.len() implies (#[trigger] q[i] == t <==> i == k)
                && (q[i] == p <==> i == k - 1) by {
                if i != k {
                    old(self).lemma_distinct(i, k);
                }
                if i != k - 1 {
                    old(self).lemma_distinct(i, k - 1);
                }
            }
            assert forall|i: int| 0 <= i < q.len() implies #[trigger] self.queued_ok(i) by {
                assert(old(self).queued_ok(i));
            }
            assert(q.last() == q[q.len() - 1]);
            assert(old(self).queued_ok(q.len() - 1));
            assert(old(self).queued_ok(0));
            assert(q[q.len() - 1] != p && q[0] != t);
            assert forall|i: int| 1 <= i < q.len() implies #[trigger] self.follower_ok(i) by {
                assert(old(self).follower_ok(i));
                assert(old(self).queued_ok(i));
            }
            assert forall|i: int| 0 <= i < q.len() - 1 implies #[trigger] self.link_ok(i) by {
                assert(old(self).link_ok(i));
                assert(old(self).queued_ok(i));
                assert(old(self).queued_ok(i + 1));
            }
        }
    }

    /// Step of `lock`: read the own flag; the lock is held once it is set.
    pub fn poll(&mut self, t: usize) -> (r: bool)
        requires
            old(self).wf(),
            t < old(self).threads(),
            old(self).phase@[t as int] == Phase::Waiting,
        ensures
            final(self).wf(),
            final(self).threads() == old(self).threads(),
            final(self).queue@ == old(self).queue@,
            r == old(self).flag@[t as int],
            r ==> final(self).phase@[t as int] == Phase::Holding,
            !r ==> final(self).phase@ == old(self).phase@,
            forall|u: int| 0 <= u < old(self).threads() && u != t ==> final(self).phase@[u]
                == old(self).phase@[u],
            final(self).flag@ == old(self).flag@,
            final(self).next@ == old(self).next@,
    {
        if self.flag[t] {
            proof {
                self.lemma_owner_is_front(t);
            }
            let ghost q = self.queue@;
            self.phase.set(t, Phase::Holding);
            proof {
                assert forall|i: int| 0 <= i < q.len() implies (#[trigger] q[i] == t <==> i == 0) by {
                    if i != 0 {
                        old(self).lemma_distinct(i, 0);
                    }
                }
                assert forall|i: int| 0 <= i < q.len() implies #[trigger] self.queued_ok(i) by {
                    assert(old(self).queued_ok(i));
                }
                assert forall|i: int| 1 <= i < q.len() implies #[trigger] self.follower_ok(i) by {
                    assert(old(self).follower_ok(i));
                    assert(old(self).queued_ok(i));
                }
                assert forall|i: int| 0 <= i < q.len() - 1 implies #[trigger] self.link_ok(i) by {
                    assert(old(self).link_ok(i));
                    assert(old(self).queued_ok(i));
                    assert(old(self).queued_ok(i + 1));
                }
            }
            true
        } else {
            false
        }
    }

    /// Hand the lock to the linked successor `n`: drop the front of the queue.
    fn hand_off(&mut self, t: usize, n: usize)
        requires
            old(self).wf(),
            t < old(self).threads(),
            owns_phase(old(self).phase@[t as int]),
            old(self).next@[t as int] == Some(n),
        ensures
            final(self).wf(),
            final(self).threads() == old(self).threads(),
            final(self).queue@ == old(self).queue@.drop_first(),
            final(self).phase@[t as int] == Phase::Idle,
            final(self).flag@[n as int],
            forall|u: int| 0 <= u < old(self).threads() && u != t ==> final(self).phase@[u]
                == old(self).phase@[u],
            final(self).flag@ == old(self).flag@.update(n as int, true),
            final(self).next@ == old(self).next@,
    {
        proof {
            self.lemma_owner_is_front(t);
        }
        let ghost q = self.queue@;
        proof {
            if q.len() == 1 {
                assert(q.last() == q[0]);
            }
            assert(self.link_ok(0));
            assert(self.queued_ok(1));
        }
        self.flag.set(n, true);
        self.phase.set(t, Phase::Idle);
        self.queue = Ghost(q.drop_first());
        self.head = Ghost(self.head@ + 1);
        proof {
            let nq = self.queue@;
            assert forall|i: int| 0 <= i < nq.len() implies #[trigger] nq[i] == q[i + 1]
                && nq[i] != t && (nq[i] == n <==> i == 0) by {
                old(self).lemma_distinct(i + 1, 0);
                if i != 0 {
                    old(self).lemma_distinct(i + 1, 1);
                }
            }
            assert forall|i: int| 0 <= i < nq.len() implies #[trigger] self.queued_ok(i) by {
                assert(old(self).queued_ok(i + 1));
            }
            assert forall|u: usize| #![trigger self.phase@[u as int]] u < self.threads()
                && self.phase@[u as int] != Phase::Idle implies 0 <= self.position(u) < nq.len()
                && nq[self.position(u)] == u by {
                assert(old(self).phase@[u as int] != Phase::Idle);
                assert(old(self).position(u) != 0);
            }
            assert forall|i: int| 1 <= i < nq.len() implies #[trigger] self.follower_ok(i) by {
                assert(old(self).follower_ok(i + 1));
                assert(old(self).queued_ok(i + 1));
                assert(nq[i - 1] == q[i]);
            }
            assert forall|i: int| 0 <= i < nq.len() - 1 implies #[trigger] self.link_ok(i) by {
                assert(old(self).link_ok(i + 1));
                assert(old(self).queued_ok(i + 1));
                assert(old(self).queued_ok(i + 1 + 1));
                assert(nq[i + 1] == q[i + 2]);
            }
            assert(nq.last() == q.last());
            assert(old(self).follower_ok(1));
            assert(old(self).queued_ok(1));
        }
    }

    /// Step of `unlock`: hand on to a linked successor; with none linked,
    /// free the lock if the tail still names the own node, else wait for
    /// the successor that is linking.
    pub fn unlock(&mut self, t: usize)
        requires
            old(self).wf(),
            t < old(self).threads(),
            old(self).phase@[t as int] == Phase::Holding,
        ensures
            final(self).wf(),
            final(self).threads() == old(self).threads(),
            old(self).next@[t as int] is Some ==> final(self).queue@ == old(self).queue@.drop_first()
                && final(self).phase@[t as int] == Phase::Idle
                && final(self).flag@[old(self).next@[t as int]->0 as int],
            old(self).next@[t as int] is None && old(self).tail == Some(t) ==> final(self).queue@
                == Seq::<usize>::empty() && final(self).tail is None
                && final(self).phase@[t as int] == Phase::Idle,
            old(self).next@[t as int] is None && old(self).tail != Some(t) ==> final(self).queue@
                == old(self).queue@ && final(self).phase@[t as int] == Phase::Releasing,
            forall|u: int| 0 <= u < old(self).threads() && u != t ==> final(self).phase@[u]
                == old(self).phase@[u],
            old(self).next@[t as int] is Some ==> final(self).flag@ == old(self).flag@.update(
                old(self).next@[t as int]->0 as int,
                true,
            ),
            old(self).next@[t as int] is None ==> final(self).flag@ == old(self).flag@,
            final(self).next@ == old(self).next@,
    {
        proof {
            self.lemma_owner_is_front(t);
        }
        let ghost q = self.queue@;
        match self.next[t] {
            Some(n) => {
                self.hand_off(t, n);
            },
            None => {
                let at_tail = match self.tail {
                    Some(x) => x == t,
                    None => false,
                };
                if at_tail {
                    proof {
                        if q.len() > 1 {
                            old(self).lemma_distinct(0, q.len() - 1);
                        }
                    }
                    self.tail = None;
                    self.phase.set(t, Phase::Idle);
                    self.queue = Ghost(Seq::empty());
                    proof {
                        assert forall|u: usize| #![trigger self.phase@[u as int]] u < self.threads()
                            && self.phase@[u as int] != Phase::Idle implies 0 <= self.position(u)
                            < 0 && self.queue@[self.position(u)] == u by {
                            assert(old(self).phase@[u as int] != Phase::Idle);
                        }
                    }
                } else {
                    self.phase.set(t, Phase::Releasing);
                    proof {
                        if q.len() == 1 {
                            assert(q.last() == q[0]);
                        }
                        assert forall|i: int| 0 <= i < q.len() implies (#[trigger] q[i] == t <==> i == 0) by {
                            if i != 0 {
                                old(self).lemma_distinct(i, 0);
                            }
                        }
                        assert forall|i: int| 0 <= i < q.len() implies #[trigger] self.queued_ok(i) by {
                            assert(old(self).queued_ok(i));
                        }
                        assert forall|i: int| 1 <= i < q.len() implies #[trigger] self.follower_ok(i) by {
                            assert(old(self).follower_ok(i));
                            assert(old(self).queued_ok(i));
                        }
                        assert forall|i: int| 0 <= i < q.len() - 1 implies #[trigger] self.link_ok(i) by {
                            assert(old(self).link_ok(i));
                            assert(old(self).queued_ok(i));
                            assert(old(self).queued_ok(i + 1));
                        }
                    }
                }
            },
        }
    }

    /// Step of `unlock` while releasing: hand on once the successor has
    /// linked in.
    pub fn unlock_poll(&mut self, t: usize) -> (r: bool)
        requires
            old(self).wf(),
            t < old(self).threads(),
            old(self).phase@[t as int] == Phase::Releasing,
        ensures
            final(self).wf(),
            final(self).threads() == old(self).threads(),
            r == (old(self).next@[t as int] is Some),
            r ==> final(self).queue@ == old(self).queue@.drop_first()
                && final(self).phase@[t as int] == Phase::Idle
                && final(self).flag@[old(self).next@[t as int]->0 as int],
            !r ==> final(self).queue@ == old(self).queue@ && final(self).phase@ == old(self).phase@,
            forall|u: int| 0 <= u < old(self).threads() && u != t ==> final(self).phase@[u]
                == old(self).phase@[u],
            r ==> final(self).flag@ == old(self).flag@.update(old(self).next@[t as int]->0 as int, true),
            !r ==> final(self).flag@ == old(self).flag@,
            final(self).next@ == old(self).next@,
    {
        match self.next[t] {
            Some(n) => {
                self.hand_off(t, n);
                true
            },
            None => false,
        }
    }

    /// Mutual exclusion: at most one thread owns the lock at any time.
    pub proof fn lemma_mutual_exclusion(&self, a: usize, b: usize)
        requires
            self.wf(),
            a < self.threads(),
            b < self.threads(),
            self.owns(a),
            self.owns(b),
        ensures
            a == b,
    {
        self.lemma_owner_is_front(a);
        self.lemma_owner_is_front(b);
    }

    /// First come, first served: a thread that enqueued behind another
    /// neither owns the lock nor has been handed it while the other is still
    /// enqueued. The steps only append to the back of the queue and remove
    /// its front, so the lock passes along the queue in order of arrival.
    pub proof fn lemma_fifo(&self, i: int, j: int)
        requires
            self.wf(),
            0 <= i < j < self.queue@.len(),
        ensures
            !self.owns(self.queue@[j]),
            !self.flag@[self.queue@[j] as int],
    {
        assert(self.follower_ok(j));
    }

    /// Node reuse: what an idle thread's node still holds from an earlier
    /// acquisition never matters, since the thread resets it before it
    /// enqueues again.
    pub proof fn lemma_stale_node(&self, other: &McsLock, t: usize)
        requires
            self.wf(),
            t < self.threads(),
            self.phase@[t as int] == Phase::Idle,
            other.tail == self.tail,
            other.phase@ == self.phase@,
            other.queue@ == self.queue@,
            other.head@ == self.head@,
            other.ticket@ == self.ticket@,
            other.next@.len() == self.next@.len(),
            other.flag@.len() == self.flag@.len(),
            other.pred@.len() == self.pred@.len(),
            forall|u: int| 0 <= u < self.threads() && u != t ==> other.next@[u] == self.next@[u]
                && other.flag@[u] == self.flag@[u] && other.pred@[u] == self.pred@[u],
        ensures
            other.wf(),
    {
        let q = self.queue@;
        assert forall|i: int| 0 <= i < q.len() implies #[trigger] q[i] != t by {
            assert(self.queued_ok(i));
        }
        assert forall|i: int| 0 <= i < q.len() implies #[trigger] other.queued_ok(i) by {
            assert(self.queued_ok(i));
        }
        assert forall|i: int| 1 <= i < q.len() implies #[trigger] other.follower_ok(i) by {
            assert(self.follower_ok(i));
            assert(self.queued_ok(i));
        }
        assert forall|i: int| 0 <= i < q.len() - 1 implies #[trigger] other.link_ok(i) by {
            assert(self.link_ok(i));
            assert(self.queued_ok(i));
            assert(self.queued_ok(i + 1));
        }
        if q.len() > 0 {
            assert(q.last() == q[q.len() - 1]);
            assert(self.queued_ok(q.len() - 1));
            assert(self.queued_ok(0));
        }
    }

    /// No lost wake-up: while a thread is enqueued behind the owner, the
    /// tail does not name the owner, so the owner's `unlock` cannot free the
    /// lock past it; and once that thread has linked in, the owner's node
    /// names it, so `unlock` hands the lock to it.
    pub proof fn lemma_no_lost_wakeup(&self)
        requires
            self.wf(),
            self.queue@.len() >= 2,
        ensures
            self.tail != Some(self.queue@[0]),
            self.phase@[self.queue@[1] as int] == Phase::Waiting ==> self.next@[self.queue@[0] as int]
                == Some(self.queue@[1]),
    {
        let q = self.queue@;
        assert(q.last() == q[q.len() - 1]);
        self.lemma_distinct(0, q.len() - 1);
        assert(self.link_ok(0));
    }

    /// Bounded waiting: an enqueued thread stands at the position given by its
    /// ticket, behind exactly that many other threads. Each hand-off drops
    /// only the front of the queue (`unlock`, `unlock_poll`) and arrivals
    /// join only at the back (`enqueue`), so the thread reaches the front
    /// after exactly that many hand-offs.
    pub proof fn lemma_waits_for_those_ahead(&self, t: usize)
        requires
            self.wf(),
            t < self.threads(),
            self.phase@[t as int] != Phase::Idle,
        ensures
            0 <= self.position(t) < self.queue@.len(),
            self.queue@[self.position(t)] == t,
            forall|i: int| 0 <= i < self.queue@.len() && i != self.position(t) ==> #[trigger] self.queue@[i] != t,
    {
        let k = self.position(t);
        assert forall|i: int| 0 <= i < self.queue@.len() && i != k implies #[trigger] self.queue@[i] != t by {
            self.lemma_distinct(i, k);
        }
    }
}

} // verus!
