//! Broker-local registry of live threads and thread groups.
//!
//! The registry tracks, for every live thread, its group, name, priority
//! and daemon flag, and keeps a counter of live non-daemon threads.  When
//! that counter reaches zero the whole machine is allowed to shut down.
//! Stopped threads and removed groups are retained on side lists so their
//! metadata stays queryable.

#![allow(non_camel_case_types)]

use vstd::prelude::*;

verus! {

/// Thread operations other threads may request; received and forwarded by
/// the broker.
pub enum RemoteThreadOpMessage {
    THREAD_JOIN,
    THREAD_NOTIFY_TERMINATION,
    THREAD_SET_PRIORITY(i64),
    THREAD_SET_NAME(String),
}

/// Global bookkeeping for one live thread.
#[derive(Clone)]
pub struct GlobThreadInfo {
    pub tid: u64,
    /// Id of the thread group this thread pertains to.
    pub gid: u64,
    /// Given name of the thread.
    pub name: String,
    /// Java thread priority.
    pub priority: i64,
    /// A daemon thread does not keep the machine alive.
    pub daemon: bool,
}

/// Global bookkeeping for one thread group.
#[derive(Clone)]
pub struct GlobThreadGroupInfo {
    pub gid: u64,
    /// Parent group; `None` only for the root group 0.
    pub parent_gid: Option<u64>,
}

/// Lifecycle state of the thread registry.
#[derive(Clone, Copy, PartialEq, Eq, Structural, Debug)]
pub enum ThreadManagerState {
    /// Initial state: no thread has been added yet.
    TMS_NoThreadSeenYet,
    /// At least one non-daemon thread is alive.
    TMS_Running,
    /// All non-daemon threads have died.  Adding a new non-daemon thread
    /// moves back to running.
    TMS_AllNonDaemonsDead,
}

/// Why a registry operation was refused.
#[derive(Clone, Copy, PartialEq, Eq, Structural, Debug)]
pub enum ThreadManagerError {
    /// The root group 0 cannot be removed.
    ReservedGroup,
    /// No group with the given id exists.
    UnknownGroup,
    /// A group with the given id already exists.
    DuplicateGroup,
    /// The group still holds threads or subgroups.
    GroupInUse,
    /// No thread with the given id exists.
    UnknownThread,
    /// A thread with the given id already exists.
    DuplicateThread,
}

/// Number of entries in `ts` with `daemon == false`.
pub open spec fn count_nondaemon(ts: Seq<GlobThreadInfo>) -> nat
    decreases ts.len(),
{
    if ts.len() == 0 {
        0
    } else {
        count_nondaemon(ts.drop_last()) + if ts.last().daemon {
            0nat
        } else {
            1nat
        }
    }
}

/// Whether some entry of `ts` carries thread id `tid`.
pub open spec fn has_tid(ts: Seq<GlobThreadInfo>, tid: u64) -> bool {
    exists|i: int| 0 <= i < ts.len() && ts[i].tid == tid
}

/// Whether some entry of `gs` carries group id `gid`.
pub open spec fn has_gid(gs: Seq<GlobThreadGroupInfo>, gid: u64) -> bool {
    exists|i: int| 0 <= i < gs.len() && gs[i].gid == gid
}

/// The position of group `gid` in `gs` (unique when the registry is
/// well formed).
pub open spec fn index_of_gid(gs: Seq<GlobThreadGroupInfo>, gid: u64) -> int {
    choose|i: int| 0 <= i < gs.len() && gs[i].gid == gid
}

/// The position of thread `tid` in `ts` (unique when the registry is
/// well formed).
pub open spec fn index_of_tid(ts: Seq<GlobThreadInfo>, tid: u64) -> int {
    choose|i: int| 0 <= i < ts.len() && ts[i].tid == tid
}

/// Number of threads in `ts` that belong directly to group `gid`.
pub open spec fn count_in_group(ts: Seq<GlobThreadInfo>, gid: u64) -> nat
    decreases ts.len(),
{
    if ts.len() == 0 {
        0
    } else {
        count_in_group(ts.drop_last(), gid) + if ts.last().gid == gid {
            1nat
        } else {
            0nat
        }
    }
}

/// Whether the group at position `j` lies in the subtree rooted at the
/// group at position `i`, following parent links.  Parents always stand
/// at smaller positions than their children.
pub open spec fn in_subtree(gs: Seq<GlobThreadGroupInfo>, i: int, j: int) -> bool
    decreases j,
{
    if j == i {
        true
    } else if 0 < j < gs.len() && i < j && gs[j].parent_gid is Some {
        let p = index_of_gid(gs, gs[j].parent_gid.unwrap());
        0 <= p < j && in_subtree(gs, i, p)
    } else {
        false
    }
}

/// Number of threads whose group lies in the subtree rooted at the group
/// at position `i`.
pub open spec fn count_subtree(gs: Seq<GlobThreadGroupInfo>, ts: Seq<GlobThreadInfo>, i: int) -> nat
    decreases ts.len(),
{
    if ts.len() == 0 {
        0
    } else {
        count_subtree(gs, ts.drop_last(), i) + if in_subtree(
            gs,
            i,
            index_of_gid(gs, ts.last().gid),
        ) {
            1nat
        } else {
            0nat
        }
    }
}

/// Whether some group in `gs` names `gid` as its parent.
pub open spec fn has_child_group(gs: Seq<GlobThreadGroupInfo>, gid: u64) -> bool {
    exists|j: int| 0 <= j < gs.len() && gs[j].parent_gid == Some(gid)
}

/// Registry of live threads and thread groups, plus the metadata of
/// stopped ones.
pub struct ThreadManager {
    pub groups: Vec<GlobThreadGroupInfo>,
    pub threads: Vec<GlobThreadInfo>,
    /// Number of entries of `threads` with `daemon == false`; when this
    /// reaches 0 the machine shuts down.
    pub alive_nondaemon_count: usize,
    pub state: ThreadManagerState,
    /// Stopped threads, retained so their parameters stay available.
    pub stopped_threads: Vec<GlobThreadInfo>,
    /// Removed groups, retained the same way.
    pub stopped_groups: Vec<GlobThreadGroupInfo>,
}

impl ThreadManager {
    /// Well-formedness: the root group 0 exists and is first; every other
    /// group has a parent that stands earlier in the list; ids are unique;
    /// every thread's group exists; the non-daemon counter agrees with the
    /// thread list; and the state word matches the counter.
    pub open spec fn wf(&self) -> bool {
        &&& self.groups@.len() >= 1
        &&& self.groups@[0].gid == 0
        &&& self.groups@[0].parent_gid is None
        &&& forall|i: int|
            1 <= i < self.groups@.len() ==> (#[trigger] self.groups@[i]).parent_gid is Some
        &&& forall|i: int|
            #![trigger self.groups@[i].parent_gid]
            1 <= i < self.groups@.len() ==> exists|j: int|
                0 <= j < i && (#[trigger] self.groups@[j]).gid == self.groups@[
                    i
                ].parent_gid.unwrap()
        &&& forall|i: int, j: int|
            0 <= i < j < self.groups@.len() ==> self.groups@[i].gid != self.groups@[j].gid
        &&& forall|i: int, j: int|
            0 <= i < j < self.threads@.len() ==> self.threads@[i].tid != self.threads@[j].tid
        &&& forall|i: int|
            0 <= i < self.threads@.len() ==> has_gid(
                self.groups@,
                (#[trigger] self.threads@[i]).gid,
            )
        &&& self.alive_nondaemon_count == count_nondaemon(self.threads@)
        &&& (self.state is TMS_NoThreadSeenYet ==> self.threads@.len() == 0)
        &&& (self.state is TMS_Running ==> count_nondaemon(self.threads@) > 0)
        &&& (self.state is TMS_AllNonDaemonsDead ==> count_nondaemon(self.threads@) == 0)
    }

    /// A fresh registry holding only the default thread group 0.
    pub fn new() -> (r: ThreadManager)
        ensures
            r.wf(),
            r.state is TMS_NoThreadSeenYet,
            r.groups@.len() == 1,
            r.groups@[0].gid == 0,
            r.threads@.len() == 0,
            r.stopped_threads@.len() == 0,
            r.stopped_groups@.len() == 0,
    {
        let mut groups: Vec<GlobThreadGroupInfo> = Vec::new();
        groups.push(GlobThreadGroupInfo { gid: 0, parent_gid: None });
        ThreadManager {
            groups,
            threads: Vec::new(),
            alive_nondaemon_count: 0,
            state: ThreadManagerState::TMS_NoThreadSeenYet,
            stopped_threads: Vec::new(),
            stopped_groups: Vec::new(),
        }
    }

    /// The current lifecycle state.
    pub fn get_state(&self) -> (r: ThreadManagerState)
        ensures
            r == self.state,
    {
        self.state
    }

    /// The position of group `gid` in the live list.
    fn find_group_index(&self, gid: u64) -> (r: usize)
        requires
            self.wf(),
            has_gid(self.groups@, gid),
        ensures
            0 <= r < self.groups@.len(),
            self.groups@[r as int].gid == gid,
            r == index_of_gid(self.groups@, gid),
    {
        let mut i: usize = 0;
        while i < self.groups.len()
            invariant
                0 <= i <= self.groups@.len(),
                forall|j: int| 0 <= j < i ==> self.groups@[j].gid != gid,
                self.wf(),
                has_gid(self.groups@, gid),
            decreases self.groups@.len() - i,
        {
            if self.groups[i].gid == gid {
                proof {
                    let w = index_of_gid(self.groups@, gid);
                    assert(0 <= w < self.groups@.len() && self.groups@[w].gid == gid);
                }
                return i;
            }
            i += 1;
        }
        proof {
            let w = choose|j: int| 0 <= j < self.groups@.len() && self.groups@[j].gid == gid;
            assert(false);
        }
        0
    }

    /// The position of thread `tid` in the live list.
    fn find_thread_index(&self, tid: u64) -> (r: Option<usize>)
        requires
            self.wf(),
        ensures
            match r {
                Some(i) => 0 <= i < self.threads@.len() && self.threads@[i as int].tid == tid && i
                    == index_of_tid(self.threads@, tid) && has_tid(self.threads@, tid),
                None => !has_tid(self.threads@, tid),
            },
    {
        let mut i: usize = 0;
        while i < self.threads.len()
            invariant
                0 <= i <= self.threads@.len(),
                forall|j: int| 0 <= j < i ==> self.threads@[j].tid != tid,
                self.wf(),
            decreases self.threads@.len() - i,
        {
            if self.threads[i].tid == tid {
                proof {
                    assert(has_tid(self.threads@, tid));
                    let w = index_of_tid(self.threads@, tid);
                    assert(0 <= w < self.threads@.len() && self.threads@[w].tid == tid);
                }
                return Some(i);
            }
            i += 1;
        }
        None
    }

    /// Number of threads directly in group `gid`.
    pub fn get_group_size(&self, gid: u64) -> (r: usize)
        requires
            self.wf(),
            has_gid(self.groups@, gid),
        ensures
            r == count_in_group(self.threads@, gid),
    {
        proof {
            lemma_count_in_group_le_len(self.threads@, gid);
        }
        let mut count: usize = 0;
        let mut i: usize = 0;
        while i < self.threads.len()
            invariant
                0 <= i <= self.threads@.len(),
                count == count_in_group(self.threads@.take(i as int), gid),
                count <= i,
            decreases self.threads@.len() - i,
        {
            proof {
                assert(self.threads@.take(i + 1).drop_last() =~= self.threads@.take(i as int));
                assert(self.threads@.take(i + 1).last() == self.threads@[i as int]);
            }
            if self.threads[i].gid == gid {
                count += 1;
            }
            i += 1;
        }
        proof {
            assert(self.threads@.take(self.threads@.len() as int) =~= self.threads@);
        }
        count
    }

    /// Number of threads in group `gid` or in any of its transitive
    /// subgroups.
    pub fn get_group_size_rec(&self, gid: u64) -> (r: usize)
        requires
            self.wf(),
            has_gid(self.groups@, gid),
        ensures
            r == count_subtree(self.groups@, self.threads@, index_of_gid(self.groups@, gid)),
    {
        let gi = self.find_group_index(gid);
        // mark[j] says whether group j lies in the subtree rooted at gi
        let mut mark: Vec<bool> = Vec::new();
        let mut j: usize = 0;
        while j < self.groups.len()
            invariant
                0 <= j <= self.groups@.len(),
                mark@.len() == j,
                self.wf(),
                0 <= gi < self.groups@.len(),
                gi == index_of_gid(self.groups@, gid),
                self.groups@[gi as int].gid == gid,
                forall|k: int| 0 <= k < j ==> mark@[k] == in_subtree(self.groups@, gi as int, k),
            decreases self.groups@.len() - j,
        {
            if j == gi {
                mark.push(true);
            } else if j > gi && j > 0 {
                let parent = match self.groups[j].parent_gid {
                    Some(p) => p,
                    None => 0,
                };
                proof {
                    assert(self.groups@[j as int].parent_gid is Some);
                    let w = choose|w: int|
                        0 <= w < j && self.groups@[w].gid == self.groups@[
                            j as int
                        ].parent_gid.unwrap();
                    assert(has_gid(self.groups@, parent));
                }
                let pi = self.find_group_index(parent);
                proof {
                    let w = choose|w: int|
                        0 <= w < j && self.groups@[w].gid == self.groups@[
                            j as int
                        ].parent_gid.unwrap();
                    assert(pi == w) by {
                        if pi != w {
                            assert(self.groups@[pi as int].gid == self.groups@[w].gid);
                        }
                    }
                }
                let m = mark[pi];
                mark.push(m);
            } else {
                mark.push(false);
                proof {
                    assert(!in_subtree(self.groups@, gi as int, j as int));
                }
            }
            j += 1;
        }
        proof {
            lemma_count_subtree_le_len(self.groups@, self.threads@, gi as int);
        }
        let mut count: usize = 0;
        let mut i: usize = 0;
        while i < self.threads.len()
            invariant
                0 <= i <= self.threads@.len(),
                count == count_subtree(self.groups@, self.threads@.take(i as int), gi as int),
                count <= i,
                mark@.len() == self.groups@.len(),
                self.wf(),
                0 <= gi < self.groups@.len(),
                forall|k: int|
                    0 <= k < mark@.len() ==> mark@[k] == in_subtree(self.groups@, gi as int, k),
            decreases self.threads@.len() - i,
        {
            proof {
                assert(self.threads@.take(i + 1).drop_last() =~= self.threads@.take(i as int));
                assert(self.threads@.take(i + 1).last() == self.threads@[i as int]);
                assert(has_gid(self.groups@, self.threads@[i as int].gid));
                let w = index_of_gid(self.groups@, self.threads@[i as int].gid);
                assert(0 <= w < self.groups@.len());
            }
            let ti = self.find_group_index(self.threads[i].gid);
            if mark[ti] {
                count += 1;
            }
            i += 1;
        }
        proof {
            assert(self.threads@.take(self.threads@.len() as int) =~= self.threads@);
        }
        count
    }

    /// Register a new thread group under an existing parent group.
    pub fn add_group(&mut self, gid: u64, parent_gid: u64) -> (r: Result<(), ThreadManagerError>)
        requires
            old(self).wf(),
        ensures
            final(self).wf(),
            r is Ok <==> (has_gid(old(self).groups@, parent_gid) && !has_gid(
                old(self).groups@,
                gid,
            )),
            r is Ok ==> final(self).groups@ == old(self).groups@.push(
                GlobThreadGroupInfo { gid, parent_gid: Some(parent_gid) },
            ) && final(self).threads@ == old(self).threads@ && final(self).state == old(self).state
                && final(self).alive_nondaemon_count == old(self).alive_nondaemon_count && final(self).stopped_threads == old(self).stopped_threads && final(self).stopped_groups == old(self).stopped_groups,
            r is Err ==> *final(self) == *old(self),
            !has_gid(old(self).groups@, parent_gid) ==> r == Err::<
                (),
                ThreadManagerError,
            >(ThreadManagerError::UnknownGroup),
            has_gid(old(self).groups@, parent_gid) && has_gid(old(self).groups@, gid) ==> r
                == Err::<(), ThreadManagerError>(ThreadManagerError::DuplicateGroup),
    {
        if self.find_group_index_opt(parent_gid).is_none() {
            return Err(ThreadManagerError::UnknownGroup);
        }
        if self.find_group_index_opt(gid).is_some() {
            return Err(ThreadManagerError::DuplicateGroup);
        }
        self.groups.push(GlobThreadGroupInfo { gid, parent_gid: Some(parent_gid) });
        proof {
            let gs = self.groups@;
            let old_gs = old(self).groups@;
            assert(gs.drop_last() =~= old_gs);
            assert forall|i: int| #![trigger gs[i].parent_gid] 1 <= i < gs.len() implies exists|j: int|
                0 <= j < i && (#[trigger] gs[j]).gid == gs[i].parent_gid.unwrap() by {
                if i < gs.len() - 1 {
                    let j = choose|j: int|
                        0 <= j < i && (#[trigger] old_gs[j]).gid == old_gs[i].parent_gid.unwrap();
                    assert(gs[j].gid == gs[i].parent_gid.unwrap());
                } else {
                    let j = index_of_gid(old_gs, parent_gid);
                    assert(0 <= j < old_gs.len() && old_gs[j].gid == parent_gid);
                    assert(gs[j].gid == gs[i].parent_gid.unwrap());
                }
            }
            assert forall|i: int| 0 <= i < self.threads@.len() implies has_gid(
                gs,
                (#[trigger] self.threads@[i]).gid,
            ) by {
                let j = index_of_gid(old_gs, self.threads@[i].gid);
                assert(has_gid(old_gs, self.threads@[i].gid));
                assert(0 <= j < old_gs.len() && old_gs[j].gid == self.threads@[i].gid);
                assert(gs[j].gid == self.threads@[i].gid);
            }
        }
        Ok(())
    }

    /// The position of group `gid`, or `None` when no such group exists.
    fn find_group_index_opt(&self, gid: u64) -> (r: Option<usize>)
        requires
            self.wf(),
        ensures
            match r {
                Some(i) => 0 <= i < self.groups@.len() && self.groups@[i as int].gid == gid && i
                    == index_of_gid(self.groups@, gid) && has_gid(self.groups@, gid),
                None => !has_gid(self.groups@, gid),
            },
    {
        let mut i: usize = 0;
        while i < self.groups.len()
            invariant
                0 <= i <= self.groups@.len(),
                forall|j: int| 0 <= j < i ==> self.groups@[j].gid != gid,
                self.wf(),
            decreases self.groups@.len() - i,
        {
            if self.groups[i].gid == gid {
                proof {
                    assert(has_gid(self.groups@, gid));
                    let w = index_of_gid(self.groups@, gid);
                    assert(0 <= w < self.groups@.len() && self.groups@[w].gid == gid);
                }
                return Some(i);
            }
            i += 1;
        }
        None
    }

    /// Remove an empty thread group.  Only a group other than the root
    /// that holds no threads and has no subgroups can be removed; its
    /// metadata moves to the stopped-groups list.
    pub fn remove_group(&mut self, gid: u64) -> (r: Result<(), ThreadManagerError>)
        requires
            old(self).wf(),
        ensures
            final(self).wf(),
            r is Ok <==> (gid != 0 && has_gid(old(self).groups@, gid) && !has_child_group(
                old(self).groups@,
                gid,
            ) && count_in_group(old(self).threads@, gid) == 0),
            r is Ok ==> final(self).groups@ == old(self).groups@.remove(
                index_of_gid(old(self).groups@, gid),
            ) && final(self).threads@ == old(self).threads@ && final(self).stopped_groups@ == old(self).stopped_groups@.push(old(self).groups@[index_of_gid(old(self).groups@, gid)]),
            r is Err ==> *final(self) == *old(self),
            gid == 0 ==> r == Err::<(), ThreadManagerError>(ThreadManagerError::ReservedGroup),
            gid != 0 && !has_gid(old(self).groups@, gid) ==> r == Err::<
                (),
                ThreadManagerError,
            >(ThreadManagerError::UnknownGroup),
    {
        if gid == 0 {
            return Err(ThreadManagerError::ReservedGroup);
        }
        let gi = match self.find_group_index_opt(gid) {
            Some(i) => i,
            None => {
                return Err(ThreadManagerError::UnknownGroup);
            },
        };
        // no subgroup may name this group as its parent
        let mut j: usize = 0;
        while j < self.groups.len()
            invariant
                0 <= j <= self.groups@.len(),
                forall|k: int| 0 <= k < j ==> self.groups@[k].parent_gid != Some(gid),
                self.wf(),
                *self == *old(self),
                gid != 0,
                has_gid(self.groups@, gid),
            decreases self.groups@.len() - j,
        {
            let is_child = match self.groups[j].parent_gid {
                Some(p) => p == gid,
                None => false,
            };
            if is_child {
                return Err(ThreadManagerError::GroupInUse);
            }
            j += 1;
        }
        if self.get_group_size(gid) > 0 {
            return Err(ThreadManagerError::GroupInUse);
        }
        proof {
            lemma_count_in_group_zero(self.threads@, gid);
        }
        let removed = self.groups.remove(gi);
        self.stopped_groups.push(removed);
        proof {
            let gs = self.groups@;
            let old_gs = old(self).groups@;
            assert(gs =~= old_gs.remove(gi as int));
            assert(gi >= 1);
            assert forall|i: int| #![trigger gs[i].parent_gid] 1 <= i < gs.len() implies exists|j2: int|
                0 <= j2 < i && (#[trigger] gs[j2]).gid == gs[i].parent_gid.unwrap() by {
                let oi: int = if i < gi { i } else { i + 1 };
                assert(gs[i] == old_gs[oi]);
                let j2 = choose|j2: int|
                    0 <= j2 < oi && (#[trigger] old_gs[j2]).gid == old_gs[oi].parent_gid.unwrap();
                assert(old_gs[j2].gid != gid);
                assert(j2 != gi);
                let nj: int = if j2 < gi { j2 } else { j2 - 1 };
                assert(gs[nj] == old_gs[j2]);
                assert(nj < i);
            }
            assert forall|i: int| 0 <= i < self.threads@.len() implies has_gid(
                gs,
                (#[trigger] self.threads@[i]).gid,
            ) by {
                assert(has_gid(old_gs, self.threads@[i].gid));
                let j2 = choose|j2: int|
                    0 <= j2 < old_gs.len() && (#[trigger] old_gs[j2]).gid == self.threads@[i].gid;
                assert(self.threads@[i].gid != gid);
                assert(j2 != gi);
                let nj: int = if j2 < gi { j2 } else { j2 - 1 };
                assert(gs[nj] == old_gs[j2]);
            }
        }
        Ok(())
    }

    /// Register a thread with the registry.  The new thread starts with an
    /// empty name, priority 0 and the daemon flag off, so the registry
    /// moves to the running state.
    pub fn add_thread(&mut self, tid: u64, gid: u64) -> (r: Result<(), ThreadManagerError>)
        requires
            old(self).wf(),
        ensures
            final(self).wf(),
            r is Ok <==> (!has_tid(old(self).threads@, tid) && has_gid(old(self).groups@, gid)),
            r is Ok ==> final(self).threads@.len() == old(self).threads@.len() + 1 && final(self).threads@.drop_last() == old(self).threads@ && final(self).threads@.last().tid == tid
                && final(self).threads@.last().gid == gid && final(self).threads@.last().daemon
                == false && final(self).threads@.last().priority == 0 && final(self).threads@.last().name@ == Seq::<char>::empty() && final(self).state
                is TMS_Running && final(self).alive_nondaemon_count == old(self).alive_nondaemon_count + 1 && final(self).groups@ == old(self).groups@ && final(self).stopped_threads == old(self).stopped_threads && final(self).stopped_groups == old(self).stopped_groups,
            r is Err ==> *final(self) == *old(self),
            has_tid(old(self).threads@, tid) ==> r == Err::<
                (),
                ThreadManagerError,
            >(ThreadManagerError::DuplicateThread),
            !has_tid(old(self).threads@, tid) && !has_gid(old(self).groups@, gid) ==> r == Err::<
                (),
                ThreadManagerError,
            >(ThreadManagerError::UnknownGroup),
    {
        if self.find_thread_index(tid).is_some() {
            return Err(ThreadManagerError::DuplicateThread);
        }
        if self.find_group_index_opt(gid).is_none() {
            return Err(ThreadManagerError::UnknownGroup);
        }
        let info = GlobThreadInfo { tid, gid, name: String::new(), priority: 0, daemon: false };
        self.threads.push(info);
        let n = self.threads.len();
        proof {
            let ts = self.threads@;
            let old_ts = old(self).threads@;
            assert(ts.drop_last() =~= old_ts);
            lemma_count_nondaemon_le_len(ts);
            assert(count_nondaemon(ts) == count_nondaemon(old_ts) + 1);
            assert(count_nondaemon(old_ts) + 1 <= n);
        }
        self.alive_nondaemon_count += 1;
        self.state = ThreadManagerState::TMS_Running;
        proof {
            let ts = self.threads@;
            assert forall|i: int, j: int| 0 <= i < j < ts.len() implies ts[i].tid != ts[j].tid by {
                if j == ts.len() - 1 {
                    assert(ts[i] == old(self).threads@[i]);
                    assert(!has_tid(old(self).threads@, tid));
                }
            }
        }
        Ok(())
    }

    /// Unregister a thread.  Its metadata moves to the stopped-threads
    /// list; when the last non-daemon thread goes, the registry reports
    /// that all non-daemons are dead.
    pub fn remove_thread(&mut self, tid: u64) -> (r: Result<(), ThreadManagerError>)
        requires
            old(self).wf(),
        ensures
            final(self).wf(),
            r is Ok <==> has_tid(old(self).threads@, tid),
            r is Err ==> *final(self) == *old(self) && r == Err::<
                (),
                ThreadManagerError,
            >(ThreadManagerError::UnknownThread),
            r is Ok ==> {
                let i = index_of_tid(old(self).threads@, tid);
                &&& final(self).threads@ == old(self).threads@.remove(i)
                &&& final(self).stopped_threads@ == old(self).stopped_threads@.push(
                    old(self).threads@[i],
                )
                &&& final(self).groups@ == old(self).groups@
                &&& final(self).alive_nondaemon_count == count_nondaemon(final(self).threads@)
                &&& (final(self).state is TMS_AllNonDaemonsDead <==> count_nondaemon(
                    final(self).threads@,
                ) == 0)
                &&& (final(self).state is TMS_Running <==> count_nondaemon(final(self).threads@)
                    > 0)
            },
    {
        let i = match self.find_thread_index(tid) {
            Some(i) => i,
            None => {
                return Err(ThreadManagerError::UnknownThread);
            },
        };
        proof {
            lemma_count_nondaemon_remove(self.threads@, i as int);
            if !self.threads@[i as int].daemon {
                lemma_count_nondaemon_pos(self.threads@, i as int);
            }
        }
        let t = self.threads.remove(i);
        let was_daemon = t.daemon;
        self.stopped_threads.push(t);
        if !was_daemon {
            self.alive_nondaemon_count -= 1;
        }
        self.state = if self.alive_nondaemon_count == 0 {
            ThreadManagerState::TMS_AllNonDaemonsDead
        } else {
            ThreadManagerState::TMS_Running
        };
        proof {
            let ts = self.threads@;
            let old_ts = old(self).threads@;
            assert forall|a: int, b: int| 0 <= a < b < ts.len() implies ts[a].tid != ts[b].tid by {
                let oa: int = if a < i { a } else { a + 1 };
                let ob: int = if b < i { b } else { b + 1 };
                assert(ts[a] == old_ts[oa] && ts[b] == old_ts[ob]);
            }
            assert forall|a: int| 0 <= a < ts.len() implies has_gid(
                self.groups@,
                (#[trigger] ts[a]).gid,
            ) by {
                let oa: int = if a < i { a } else { a + 1 };
                assert(ts[a] == old_ts[oa]);
            }
        }
        Ok(())
    }

    /// Change the daemon flag of a thread with immediate effect.  Turning
    /// the last non-daemon thread into a daemon reports all non-daemons
    /// dead.
    pub fn set_daemon(&mut self, tid: u64, daemonize: bool) -> (r: Result<(), ThreadManagerError>)
        requires
            old(self).wf(),
        ensures
            final(self).wf(),
            r is Ok <==> has_tid(old(self).threads@, tid),
            r is Err ==> *final(self) == *old(self) && r == Err::<
                (),
                ThreadManagerError,
            >(ThreadManagerError::UnknownThread),
            r is Ok ==> {
                let i = index_of_tid(old(self).threads@, tid);
                &&& (old(self).threads@[i].daemon == daemonize ==> *final(self) == *old(self))
                &&& final(self).threads@.len() == old(self).threads@.len()
                &&& final(self).threads@[i].daemon == daemonize
                &&& final(self).threads@[i].tid == tid
                &&& final(self).threads@[i].gid == old(self).threads@[i].gid
                &&& final(self).threads@[i].name == old(self).threads@[i].name
                &&& final(self).threads@[i].priority == old(self).threads@[i].priority
                &&& final(self).stopped_threads == old(self).stopped_threads
                &&& final(self).stopped_groups == old(self).stopped_groups
                &&& forall|j: int|
                    0 <= j < old(self).threads@.len() && j != i ==> final(self).threads@[j] == old(self).threads@[j]
                &&& final(self).groups@ == old(self).groups@
                &&& final(self).alive_nondaemon_count == count_nondaemon(final(self).threads@)
                &&& (final(self).state is TMS_AllNonDaemonsDead <==> count_nondaemon(
                    final(self).threads@,
                ) == 0)
                &&& (final(self).state is TMS_Running <==> count_nondaemon(final(self).threads@)
                    > 0)
            },
    {
        let i = match self.find_thread_index(tid) {
            Some(i) => i,
            None => {
                return Err(ThreadManagerError::UnknownThread);
            },
        };
        let old_flag = self.threads[i].daemon;
        if old_flag == daemonize {
            proof {
                assert(self.threads@ =~= old(self).threads@);
                if self.state is TMS_NoThreadSeenYet {
                    assert(false);
                }
            }
            return Ok(());
        }
        let gid = self.threads[i].gid;
        let priority = self.threads[i].priority;
        let name = self.threads[i].name.clone();
        let updated = GlobThreadInfo { tid, gid, name, priority, daemon: daemonize };
        self.threads.set(i, updated);
        proof {
            lemma_count_nondaemon_update(old(self).threads@, i as int, self.threads@[i as int]);
            if daemonize {
                lemma_count_nondaemon_pos(old(self).threads@, i as int);
            } else {
                lemma_count_nondaemon_le_len(old(self).threads@);
                lemma_count_nondaemon_le_len(self.threads@);
            }
        }
        let n = self.threads.len();
        if daemonize {
            self.alive_nondaemon_count -= 1;
        } else {
            proof {
                assert(count_nondaemon(self.threads@) <= n);
            }
            self.alive_nondaemon_count += 1;
        }
        self.state = if self.alive_nondaemon_count == 0 {
            ThreadManagerState::TMS_AllNonDaemonsDead
        } else {
            ThreadManagerState::TMS_Running
        };
        proof {
            let ts = self.threads@;
            let old_ts = old(self).threads@;
            assert forall|a: int, b: int| 0 <= a < b < ts.len() implies ts[a].tid != ts[b].tid by {
                assert(old_ts[a].tid != old_ts[b].tid);
                assert(ts[a].tid == old_ts[a].tid && ts[b].tid == old_ts[b].tid);
            }
            assert forall|a: int| 0 <= a < ts.len() implies has_gid(
                self.groups@,
                (#[trigger] ts[a]).gid,
            ) by {
                assert(ts[a].gid == old_ts[a].gid);
            }
        }
        Ok(())
    }

    /// Handle a thread operation forwarded by the broker.  Join requests,
    /// priority changes and renames are accepted and currently have no
    /// observable effect on the registry; a termination notice is a
    /// protocol violation and may not be sent here.
    pub fn process_message(
        &mut self,
        src_tid: u64,
        dest_tid: u64,
        op: RemoteThreadOpMessage,
    ) -> (r: Result<(), ThreadManagerError>)
        requires
            old(self).wf(),
        ensures
            final(self).wf(),
            *final(self) == *old(self),
            r is Ok <==> !(op is THREAD_NOTIFY_TERMINATION),
            r is Err ==> r == Err::<(), ThreadManagerError>(ThreadManagerError::UnknownThread),
    {
        match op {
            RemoteThreadOpMessage::THREAD_JOIN => Ok(()),
            RemoteThreadOpMessage::THREAD_NOTIFY_TERMINATION => Err(
                ThreadManagerError::UnknownThread,
            ),
            RemoteThreadOpMessage::THREAD_SET_PRIORITY(_prio) => Ok(()),
            RemoteThreadOpMessage::THREAD_SET_NAME(_name) => Ok(()),
        }
    }
}

/// The non-daemon count never exceeds the number of threads.
proof fn lemma_count_nondaemon_le_len(ts: Seq<GlobThreadInfo>)
    ensures
        count_nondaemon(ts) <= ts.len(),
    decreases ts.len(),
{
    if ts.len() > 0 {
        lemma_count_nondaemon_le_len(ts.drop_last());
    }
}

/// Removing one thread lowers the non-daemon count by its contribution.
proof fn lemma_count_nondaemon_remove(ts: Seq<GlobThreadInfo>, i: int)
    requires
        0 <= i < ts.len(),
    ensures
        count_nondaemon(ts.remove(i)) + (if ts[i].daemon {
            0nat
        } else {
            1nat
        }) == count_nondaemon(ts),
    decreases ts.len(),
{
    if i == ts.len() - 1 {
        assert(ts.remove(i) =~= ts.drop_last());
    } else {
        lemma_count_nondaemon_remove(ts.drop_last(), i);
        assert(ts.remove(i).drop_last() =~= ts.drop_last().remove(i));
        assert(ts.remove(i).last() == ts.last());
    }
}

/// Replacing one thread shifts the non-daemon count by the difference of
/// the two daemon flags.
proof fn lemma_count_nondaemon_update(ts: Seq<GlobThreadInfo>, i: int, t: GlobThreadInfo)
    requires
        0 <= i < ts.len(),
    ensures
        count_nondaemon(ts.update(i, t)) + (if ts[i].daemon {
            0nat
        } else {
            1nat
        }) == count_nondaemon(ts) + (if t.daemon {
            0nat
        } else {
            1nat
        }),
    decreases ts.len(),
{
    if i == ts.len() - 1 {
        assert(ts.update(i, t).drop_last() =~= ts.drop_last());
        assert(ts.update(i, t).last() == t);
    } else {
        lemma_count_nondaemon_update(ts.drop_last(), i, t);
        assert(ts.update(i, t).drop_last() =~= ts.drop_last().update(i, t));
        assert(ts.update(i, t).last() == ts.last());
    }
}

/// A live non-daemon thread keeps the count positive.
proof fn lemma_count_nondaemon_pos(ts: Seq<GlobThreadInfo>, i: int)
    requires
        0 <= i < ts.len(),
        !ts[i].daemon,
    ensures
        count_nondaemon(ts) >= 1,
    decreases ts.len(),
{
    if i < ts.len() - 1 {
        lemma_count_nondaemon_pos(ts.drop_last(), i);
    }
}

/// The per-group count never exceeds the number of threads.
proof fn lemma_count_in_group_le_len(ts: Seq<GlobThreadInfo>, gid: u64)
    ensures
        count_in_group(ts, gid) <= ts.len(),
    decreases ts.len(),
{
    if ts.len() > 0 {
        lemma_count_in_group_le_len(ts.drop_last(), gid);
    }
}

/// A group with a zero direct count holds no thread at all.
proof fn lemma_count_in_group_zero(ts: Seq<GlobThreadInfo>, gid: u64)
    requires
        count_in_group(ts, gid) == 0,
    ensures
        forall|i: int| 0 <= i < ts.len() ==> (#[trigger] ts[i]).gid != gid,
    decreases ts.len(),
{
    if ts.len() > 0 {
        lemma_count_in_group_zero(ts.drop_last(), gid);
        assert forall|i: int| 0 <= i < ts.len() implies (#[trigger] ts[i]).gid != gid by {
            if i < ts.len() - 1 {
                assert(ts.drop_last()[i] == ts[i]);
            }
        }
    }
}

/// The subtree count never exceeds the number of threads.
proof fn lemma_count_subtree_le_len(
    gs: Seq<GlobThreadGroupInfo>,
    ts: Seq<GlobThreadInfo>,
    i: int,
)
    ensures
        count_subtree(gs, ts, i) <= ts.len(),
    decreases ts.len(),
{
    if ts.len() > 0 {
        lemma_count_subtree_le_len(gs, ts.drop_last(), i);
    }
}

/// The live non-daemon counter always agrees with the thread list: it
/// equals the number of registered threads whose daemon flag is off.
pub proof fn lemma_nondaemon_counter_agrees(tm: &ThreadManager)
    requires
        tm.wf(),
    ensures
        tm.alive_nondaemon_count == count_nondaemon(tm.threads@),
{
}

} // verus!
