//! The single-flag lock that the spin lock and the backoff spin lock share,
//! as a state machine over thread indices. Each method is one atomic step on
//! the flag taken on behalf of one thread.
use vstd::prelude::*;

verus! {

pub struct FlagLock {
    pub locked: bool,
    /// Which threads are inside their critical section.
    pub holding: Vec<bool>,
    /// The thread that set the flag, while it is set.
    pub holder: Ghost<int>,
}

impl FlagLock {
    pub open spec fn threads(&self) -> nat {
        self.holding@.len()
    }

    pub open spec fn wf(&self) -> bool {
        &&& self.locked ==> 0 <= self.holder@ < self.threads()
        &&& forall|i: int| #![trigger self.holding@[i]] 0 <= i < self.threads() ==> (self.holding@[i]
            <==> self.locked && self.holder@ == i)
    }

    /// A free lock for `n` threads.
    pub fn new(n: usize) -> (r: FlagLock)
        ensures
            r.wf(),
            r.threads() == n,
            !r.locked,
            forall|i: int| 0 <= i < n ==> !r.holding@[i],
    {
        let mut holding: Vec<bool> = Vec::new();
        let mut i: usize = 0;
        while i < n
            invariant
                i <= n,
                holding@.len() == i,
                forall|j: int| 0 <= j < i ==> !holding@[j],
            decreases n - i,
        {
            holding.push(false);
            i = i + 1;
        }
        FlagLock { locked: false, holding, holder: Ghost(0) }
    }

    /// `try_lock`: exchange the flag from clear to set. It succeeds exactly
    /// when the flag was clear.
    pub fn try_lock(&mut self, t: usize) -> (r: bool)
        requires
            old(self).wf(),
            t < old(self).threads(),
            !old(self).holding@[t as int],
        ensures
            final(self).wf(),
            final(self).threads() == old(self).threads(),
            r == !old(self).locked,
            final(self).locked,
            r ==> final(self).holding@ == old(self).holding@.update(t as int, true),
            !r ==> final(self).holding@ == old(self).holding@ && final(self).holder == old(
                self).holder,
    {
        if self.locked {
            false
        } else {
            self.locked = true;
            self.holder = Ghost(t as int);
            self.holding.set(t, true);
            true
        }
    }

    /// One round of the spinning `lock`: read the flag, and try the exchange
    /// only if the read saw it clear.
    pub fn lock_round(&mut self, t: usize, observed: bool) -> (r: bool)
        requires
            old(self).wf(),
            t < old(self).threads(),
            !old(self).holding@[t as int],
        ensures
            final(self).wf(),
            final(self).threads() == old(self).threads(),
            r == (!observed && !old(self).locked),
            r ==> final(self).holding@ == old(self).holding@.update(t as int, true),
            !r ==> final(self).holding@ == old(self).holding@,
    {
        if observed {
            false
        } else {
            self.try_lock(t)
        }
    }

    /// `unlock`: clear the flag.
    pub fn unlock(&mut self, t: usize)
        requires
            old(self).wf(),
            t < old(self).threads(),
            old(self).holding@[t as int],
        ensures
            final(self).wf(),
            final(self).threads() == old(self).threads(),
            !final(self).locked,
            final(self).holding@ == old(self).holding@.update(t as int, false),
    {
        self.locked = false;
        self.holding.set(t, false);
    }

    /// Mutual exclusion: at most one thread is inside its critical section.
    pub proof fn lemma_mutual_exclusion(&self, a: int, b: int)
        requires
            self.wf(),
            0 <= a < self.threads(),
            0 <= b < self.threads(),
            self.holding@[a],
            self.holding@[b],
        ensures
            a == b,
    {
    }

    /// While some thread holds the lock every other thread's `try_lock`
    /// fails; once it has released, the next `try_lock` succeeds.
    pub proof fn lemma_try_lock_while_held(&self, holder: int)
        requires
            self.wf(),
            0 <= holder < self.threads(),
            self.holding@[holder],
        ensures
            self.locked,
    {
    }

    /// After a release no thread holds the lock, so the next `try_lock`
    /// succeeds.
    pub proof fn lemma_free_after_release(&self)
        requires
            self.wf(),
            !self.locked,
        ensures
            forall|i: int| 0 <= i < self.threads() ==> !self.holding@[i],
    {
    }
}

} // verus!
