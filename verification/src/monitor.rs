//! Java-style object monitor: a recursive intrinsic lock with a priority
//! wait queue.
//!
//! The monitor itself never blocks; a thread that cannot enter is queued
//! and the caller decides how to wait.  Threads that called `wait` sit in
//! the priority queue and, once notified, take precedence over threads
//! trying to enter from outside.  Within each queue service is in arrival
//! order.

use vstd::prelude::*;

verus! {

/// One entry of the priority wait queue: a thread that called `wait`.
#[derive(Clone, Copy, PartialEq, Eq, Structural, Debug)]
pub struct PrioWaiter {
    /// Whether the thread has been notified and may run again.
    pub notified: bool,
    pub tid: u64,
    /// The lock count at the time of the `wait` call, restored when the
    /// thread resumes.
    pub saved_lock_count: usize,
}

/// All notified entries stand before all un-notified ones.
pub open spec fn prio_sorted(ws: Seq<PrioWaiter>) -> bool {
    forall|i: int, j: int|
        0 <= i < j < ws.len() ==> ((#[trigger] ws[j]).notified ==> (#[trigger] ws[i]).notified)
}

/// Number of notified entries at the head of the queue.
pub open spec fn notified_prefix_len(ws: Seq<PrioWaiter>) -> int
    decreases ws.len(),
{
    if ws.len() == 0 {
        0
    } else if ws[0].notified {
        1 + notified_prefix_len(ws.drop_first())
    } else {
        0
    }
}

/// The queued thread that is ready to take the monitor, if any: nothing
/// while the monitor is locked; else a notified head of the priority
/// queue wins, and an outside requester comes last.
pub open spec fn spec_ready_waiter(m: JavaMonitor) -> Option<u64> {
    if m.lock_count > 0 {
        None
    } else if m.waiters_prio@.len() > 0 && m.waiters_prio@[0].notified {
        Some(m.waiters_prio@[0].tid)
    } else if m.waiters@.len() > 0 {
        Some(m.waiters@[0])
    } else {
        None
    }
}

/// The monitor embedded in every object.
pub struct JavaMonitor {
    /// Recursion depth of the lock; positive while some thread holds it.
    pub lock_count: usize,
    /// Thread that currently holds the monitor; `Some` exactly while
    /// `lock_count > 0`.
    pub owner: Option<u64>,
    /// Threads attempting to enter the monitor from outside, in arrival
    /// order.
    pub waiters: Vec<u64>,
    /// Threads that called `wait`, in arrival order; notified entries
    /// stand first.
    pub waiters_prio: Vec<PrioWaiter>,
}

impl JavaMonitor {
    /// Well-formedness: the owner exists exactly while the lock is held,
    /// and the priority queue keeps notified entries in front.
    pub open spec fn wf(&self) -> bool {
        &&& (self.owner is Some <==> self.lock_count > 0)
        &&& prio_sorted(self.waiters_prio@)
    }

    /// Whether thread `tid` currently holds the monitor.
    pub open spec fn spec_locked_by(&self, tid: u64) -> bool {
        self.lock_count > 0 && self.owner == Some(tid)
    }

    /// A fresh, unlocked monitor with empty queues.
    pub fn new() -> (r: JavaMonitor)
        ensures
            r.wf(),
            r.lock_count == 0,
            r.owner is None,
            r.waiters@.len() == 0,
            r.waiters_prio@.len() == 0,
    {
        JavaMonitor { lock_count: 0, owner: None, waiters: Vec::new(), waiters_prio: Vec::new() }
    }

    /// Whether the monitor is currently locked by any thread.
    pub fn is_locked(&self) -> (r: bool)
        requires
            self.wf(),
        ensures
            r == (self.lock_count > 0),
            r == (self.owner is Some),
    {
        self.lock_count > 0
    }

    /// Whether the monitor is currently locked by thread `tid`.
    pub fn is_locked_by_thread(&self, tid: u64) -> (r: bool)
        ensures
            r == self.spec_locked_by(tid),
    {
        self.lock_count > 0 && match self.owner {
            Some(o) => o == tid,
            None => false,
        }
    }

    /// Whether thread `tid` may enter the monitor now: it is free, or
    /// `tid` already holds it (the lock is recursive).
    pub fn can_be_locked_by_thread(&self, tid: u64) -> (r: bool)
        ensures
            r == (self.lock_count == 0 || self.owner == Some(tid)),
    {
        self.lock_count == 0 || match self.owner {
            Some(o) => o == tid,
            None => false,
        }
    }

    /// Decide well-formedness at run time: whether the owner exists
    /// exactly while the lock is held, and the priority queue keeps its
    /// notified entries in front.
    pub fn check_wf(&self) -> (r: bool)
        ensures
            r == self.wf(),
    {
        if self.owner.is_some() != (self.lock_count > 0) {
            return false;
        }
        let ghost mut first_unnotified: int = 0;
        let mut seen_unnotified = false;
        let mut i: usize = 0;
        while i < self.waiters_prio.len()
            invariant
                0 <= i <= self.waiters_prio@.len(),
                forall|x: int, y: int|
                    0 <= x < y < i ==> ((#[trigger] self.waiters_prio@[y]).notified ==> (
                    #[trigger] self.waiters_prio@[x]).notified),
                seen_unnotified ==> 0 <= first_unnotified < i && !self.waiters_prio@[
                    first_unnotified
                ].notified,
                !seen_unnotified ==> forall|x: int|
                    0 <= x < i ==> (#[trigger] self.waiters_prio@[x]).notified,
            decreases self.waiters_prio@.len() - i,
        {
            if self.waiters_prio[i].notified {
                if seen_unnotified {
                    proof {
                        assert(!prio_sorted(self.waiters_prio@)) by {
                            assert(self.waiters_prio@[i as int].notified);
                            assert(!self.waiters_prio@[first_unnotified].notified);
                        }
                    }
                    return false;
                }
            } else {
                if !seen_unnotified {
                    seen_unnotified = true;
                    proof {
                        first_unnotified = i as int;
                    }
                }
            }
            i += 1;
        }
        true
    }

    /// Raise the recursion depth by one.
    fn inc_lock(&mut self)
        requires
            old(self).lock_count < usize::MAX,
        ensures
            *final(self) == (JavaMonitor { lock_count: (old(self).lock_count + 1) as usize,
                ..*old(self) }),
    {
        self.lock_count = self.lock_count + 1;
    }

    /// Lower the recursion depth by one.
    fn dec_lock(&mut self)
        requires
            old(self).lock_count > 0,
        ensures
            *final(self) == (JavaMonitor { lock_count: (old(self).lock_count - 1) as usize,
                ..*old(self) }),
    {
        self.lock_count = self.lock_count - 1;
    }

    /// Enter the monitor.  Only possible while the monitor is free or
    /// already held by `tid`; recursive entry raises the count.
    pub fn lock(&mut self, tid: u64)
        requires
            old(self).wf(),
            old(self).lock_count == 0 || old(self).owner == Some(tid),
            old(self).lock_count < usize::MAX,
        ensures
            final(self).wf(),
            final(self).lock_count == old(self).lock_count + 1,
            final(self).owner == Some(tid),
            final(self).waiters@ == old(self).waiters@,
            final(self).waiters_prio@ == old(self).waiters_prio@,
    {
        self.inc_lock();
        self.owner = Some(tid);
    }

    /// Leave the monitor once.  Every `lock` is matched by an `unlock`;
    /// when the count reaches zero the monitor becomes free.
    pub fn unlock(&mut self, tid: u64)
        requires
            old(self).wf(),
            old(self).spec_locked_by(tid),
        ensures
            final(self).wf(),
            final(self).lock_count == old(self).lock_count - 1,
            final(self).owner == (if old(self).lock_count == 1 {
                Option::<u64>::None
            } else {
                Some(tid)
            }),
            final(self).waiters@ == old(self).waiters@,
            final(self).waiters_prio@ == old(self).waiters_prio@,
    {
        self.dec_lock();
        if self.lock_count == 0 {
            self.owner = None;
        }
    }

    /// Queue thread `tid` on the monitor.  With `is_notify` the thread
    /// already holds the monitor and waits to be notified (it goes to the
    /// back of the priority queue, un-notified, with the current lock
    /// count saved); otherwise it is an outside requester.
    pub fn push_thread(&mut self, tid: u64, is_notify: bool)
        requires
            old(self).wf(),
            is_notify ==> old(self).spec_locked_by(tid),
        ensures
            final(self).wf(),
            final(self).lock_count == old(self).lock_count,
            final(self).owner == old(self).owner,
            is_notify ==> final(self).waiters_prio@ == old(self).waiters_prio@.push(
                PrioWaiter { notified: false, tid, saved_lock_count: old(self).lock_count },
            ) && final(self).waiters@ == old(self).waiters@,
            !is_notify ==> final(self).waiters@ == old(self).waiters@.push(tid) && final(self).waiters_prio@ == old(self).waiters_prio@,
    {
        if is_notify {
            let w = PrioWaiter { notified: false, tid, saved_lock_count: self.lock_count };
            self.waiters_prio.push(w);
            proof {
                let ws = self.waiters_prio@;
                assert forall|i: int, j: int| 0 <= i < j < ws.len() implies ((
                #[trigger] ws[j]).notified ==> (#[trigger] ws[i]).notified) by {
                    if j < ws.len() - 1 {
                        assert(ws[i] == old(self).waiters_prio@[i]);
                        assert(ws[j] == old(self).waiters_prio@[j]);
                    }
                }
            }
            return ;
        }
        self.waiters.push(tid);
    }

    /// Perform the bookkeeping of a `wait` call without blocking: append
    /// the calling thread to the priority queue un-notified with the lock
    /// count saved, then release the monitor entirely.  The caller blocks
    /// until the thread is notified and pops ready.
    pub fn wait_noblock(&mut self, tid: u64)
        requires
            old(self).wf(),
            old(self).spec_locked_by(tid),
        ensures
            final(self).wf(),
            final(self).lock_count == 0,
            final(self).owner is None,
            final(self).waiters@ == old(self).waiters@,
            final(self).waiters_prio@ == old(self).waiters_prio@.push(
                PrioWaiter { notified: false, tid, saved_lock_count: old(self).lock_count },
            ),
    {
        self.push_thread(tid, true);
        self.lock_count = 0;
        self.owner = None;
    }

    /// Notify one waiting thread, if any: the first un-notified entry of
    /// the priority queue becomes notified.  The caller must hold the
    /// monitor.
    pub fn notify_one(&mut self, tid: u64)
        requires
            old(self).wf(),
            old(self).spec_locked_by(tid),
        ensures
            final(self).wf(),
            final(self).lock_count == old(self).lock_count,
            final(self).owner == old(self).owner,
            final(self).waiters@ == old(self).waiters@,
            ({
                let k = notified_prefix_len(old(self).waiters_prio@);
                if k == old(self).waiters_prio@.len() {
                    final(self).waiters_prio@ == old(self).waiters_prio@
                } else {
                    final(self).waiters_prio@ == old(self).waiters_prio@.update(
                        k,
                        PrioWaiter {
                            notified: true,
                            tid: old(self).waiters_prio@[k].tid,
                            saved_lock_count: old(self).waiters_prio@[k].saved_lock_count,
                        },
                    )
                }
            }),
    {
        let mut i: usize = 0;
        while i < self.waiters_prio.len()
            invariant
                0 <= i <= self.waiters_prio@.len(),
                forall|j: int| 0 <= j < i ==> (#[trigger] self.waiters_prio@[j]).notified,
                *self == *old(self),
                old(self).wf(),
            decreases self.waiters_prio@.len() - i,
        {
            if !self.waiters_prio[i].notified {
                proof {
                    lemma_notified_prefix_at(self.waiters_prio@, i as int);
                }
                let e = self.waiters_prio[i];
                let upd = PrioWaiter {
                    notified: true,
                    tid: e.tid,
                    saved_lock_count: e.saved_lock_count,
                };
                self.waiters_prio.set(i, upd);
                proof {
                    let orig = old(self).waiters_prio@;
                    let ws = self.waiters_prio@;
                    assert(prio_sorted(orig));
                    assert forall|a: int, b: int| 0 <= a < b < ws.len() implies ((
                    #[trigger] ws[b]).notified ==> (#[trigger] ws[a]).notified) by {
                        if a != i && b != i {
                            assert(ws[a] == orig[a] && ws[b] == orig[b]);
                        } else if b == i {
                            assert(orig[a].notified);
                        }
                    }
                }
                return ;
            }
            i += 1;
        }
        proof {
            lemma_notified_prefix_at(self.waiters_prio@, i as int);
        }
    }

    /// Notify every waiting thread: all entries of the priority queue
    /// become notified.  The caller must hold the monitor.
    pub fn notify_all(&mut self, tid: u64)
        requires
            old(self).wf(),
            old(self).spec_locked_by(tid),
        ensures
            final(self).wf(),
            final(self).lock_count == old(self).lock_count,
            final(self).owner == old(self).owner,
            final(self).waiters@ == old(self).waiters@,
            final(self).waiters_prio@.len() == old(self).waiters_prio@.len(),
            forall|j: int|
                0 <= j < old(self).waiters_prio@.len() ==> (#[trigger] final(self).waiters_prio@[j]) == (PrioWaiter {
                    notified: true,
                    tid: old(self).waiters_prio@[j].tid,
                    saved_lock_count: old(self).waiters_prio@[j].saved_lock_count,
                }),
    {
        let mut i: usize = 0;
        while i < self.waiters_prio.len()
            invariant
                0 <= i <= self.waiters_prio@.len(),
                self.waiters_prio@.len() == old(self).waiters_prio@.len(),
                self.lock_count == old(self).lock_count,
                self.owner == old(self).owner,
                self.waiters@ == old(self).waiters@,
                forall|j: int|
                    0 <= j < i ==> (#[trigger] self.waiters_prio@[j]) == (PrioWaiter {
                        notified: true,
                        tid: old(self).waiters_prio@[j].tid,
                        saved_lock_count: old(self).waiters_prio@[j].saved_lock_count,
                    }),
                forall|j: int|
                    i <= j < self.waiters_prio@.len() ==> (#[trigger] self.waiters_prio@[j]) == old(self).waiters_prio@[j],
            decreases self.waiters_prio@.len() - i,
        {
            let e = self.waiters_prio[i];
            let upd = PrioWaiter { notified: true, tid: e.tid, saved_lock_count: e.saved_lock_count
            };
            self.waiters_prio.set(i, upd);
            i += 1;
        }
    }

    /// Return a queued thread that is ready to take the monitor, if any.
    /// Nothing is ready while the monitor is locked; otherwise a notified
    /// entry at the head of the priority queue wins, and an outside
    /// requester is taken last.  The returned thread is removed from its
    /// queue.
    pub fn pop_ready_thread(&mut self) -> (r: Option<u64>)
        requires
            old(self).wf(),
        ensures
            final(self).wf(),
            r == spec_ready_waiter(*old(self)),
            final(self).lock_count == old(self).lock_count,
            final(self).owner == old(self).owner,
            old(self).lock_count > 0 ==> r is None && *final(self) == *old(self),
            old(self).lock_count == 0 && old(self).waiters_prio@.len() > 0 && old(self).waiters_prio@[0].notified ==> r == Some(old(self).waiters_prio@[0].tid) && final(self).waiters_prio@ == old(self).waiters_prio@.drop_first() && final(self).waiters@ == old(self).waiters@,
            old(self).lock_count == 0 && !(old(self).waiters_prio@.len() > 0 && old(self).waiters_prio@[0].notified) && old(self).waiters@.len() > 0 ==> r == Some(
                old(self).waiters@[0],
            ) && final(self).waiters@ == old(self).waiters@.drop_first() && final(self).waiters_prio@ == old(self).waiters_prio@,
            old(self).lock_count == 0 && !(old(self).waiters_prio@.len() > 0 && old(self).waiters_prio@[0].notified) && old(self).waiters@.len() == 0 ==> r is None && *final(self) == *old(self),
    {
        if self.lock_count > 0 {
            return None;
        }
        if self.waiters_prio.len() > 0 {
            let head = self.waiters_prio[0];
            if head.notified {
                self.waiters_prio.remove(0);
                proof {
                    assert(self.waiters_prio@ =~= old(self).waiters_prio@.drop_first());
                    let ws = self.waiters_prio@;
                    assert forall|a: int, b: int| 0 <= a < b < ws.len() implies ((
                    #[trigger] ws[b]).notified ==> (#[trigger] ws[a]).notified) by {
                        assert(ws[a] == old(self).waiters_prio@[a + 1]);
                        assert(ws[b] == old(self).waiters_prio@[b + 1]);
                    }
                }
                return Some(head.tid);
            }
        }
        if self.waiters.len() > 0 {
            let tid = self.waiters.remove(0);
            proof {
                assert(self.waiters@ =~= old(self).waiters@.drop_first());
            }
            return Some(tid);
        }
        None
    }
}

/// When the first `k` entries are notified and entry `k` (if any) is not,
/// `k` is exactly the notified prefix length.
proof fn lemma_notified_prefix_at(ws: Seq<PrioWaiter>, k: int)
    requires
        0 <= k <= ws.len(),
        forall|j: int| 0 <= j < k ==> (#[trigger] ws[j]).notified,
        k < ws.len() ==> !ws[k].notified,
    ensures
        notified_prefix_len(ws) == k,
    decreases k,
{
    if k == 0 {
    } else {
        lemma_notified_prefix_at(ws.drop_first(), k - 1);
    }
}

/// The two monitor invariants, stated on their own: a monitor has an
/// owner exactly while its lock count is positive, and every notified
/// entry of the priority queue stands before every un-notified one.
pub proof fn lemma_monitor_invariants(m: &JavaMonitor)
    requires
        m.wf(),
    ensures
        m.owner is Some <==> m.lock_count > 0,
        forall|i: int, j: int|
            0 <= i < j < m.waiters_prio@.len() ==> ((#[trigger] m.waiters_prio@[j]).notified ==> (
            #[trigger] m.waiters_prio@[i]).notified),
{
}

} // verus!
