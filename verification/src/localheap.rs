//! The per-thread heap: the objects a thread currently owns, and the only
//! path by which a thread touches Java objects.
//!
//! Every operation is local bookkeeping plus, at most, one message for
//! the broker, which the caller sends.  Blocking for a remote object is
//! the surrounding program's affair: it sends the ownership request this
//! module builds and pumps messages until the object arrives.

use vstd::prelude::*;

use crate::monitor::spec_ready_waiter;
use crate::object::{JavaObject, JavaObjectId};
use crate::objectbroker::{ObjectBrokerMessage, RemoteObjectOpMessage, RequestObjectAccessType};

verus! {

/// Whether some owned object carries `oid`.
pub open spec fn heap_has(os: Seq<JavaObject>, oid: u64) -> bool {
    exists|i: int| 0 <= i < os.len() && os[i].oid == oid
}

/// The position of owned object `oid` (unique while the heap is well
/// formed).
pub open spec fn heap_index(os: Seq<JavaObject>, oid: u64) -> int {
    choose|i: int| 0 <= i < os.len() && os[i].oid == oid
}

/// The objects one thread owns, keyed by object id.
pub struct LocalHeap {
    /// Id of the owning thread.
    pub tid: u64,
    /// The owned objects; ids are unique and every object is alive.
    pub owned_objects: Vec<JavaObject>,
}

impl LocalHeap {
    /// Well-formedness: ids are unique and every owned object is alive
    /// with a well-formed monitor.
    pub open spec fn wf(&self) -> bool {
        &&& forall|i: int, j: int|
            0 <= i < j < self.owned_objects@.len() ==> self.owned_objects@[i].oid
                != self.owned_objects@[j].oid
        &&& forall|i: int| 0 <= i < self.owned_objects@.len() ==> (#[trigger] self.owned_objects@[i]).wf()
    }

    /// An empty stand-in heap under the broker's thread id 0.
    pub fn dummy() -> (r: LocalHeap)
        ensures
            r.wf(),
            r.tid == 0,
            r.owned_objects@.len() == 0,
    {
        LocalHeap { tid: 0, owned_objects: Vec::new() }
    }

    /// The empty heap of thread `tid`.
    pub fn new_with_owner(tid: u64) -> (r: LocalHeap)
        ensures
            r.wf(),
            r.tid == tid,
            r.owned_objects@.len() == 0,
    {
        LocalHeap { tid, owned_objects: Vec::new() }
    }

    /// Whether this thread currently owns object `b`.
    pub fn owns(&self, b: JavaObjectId) -> (r: bool)
        requires
            self.wf(),
        ensures
            r == heap_has(self.owned_objects@, b),
    {
        self.find_index(b).is_some()
    }

    /// The position of owned object `oid`, if owned.
    fn find_index(&self, oid: u64) -> (r: Option<usize>)
        requires
            self.wf(),
        ensures
            match r {
                Some(i) => 0 <= i < self.owned_objects@.len() && self.owned_objects@[i as int].oid
                    == oid && i == heap_index(self.owned_objects@, oid) && heap_has(
                    self.owned_objects@,
                    oid,
                ),
                None => !heap_has(self.owned_objects@, oid),
            },
    {
        let mut i: usize = 0;
        while i < self.owned_objects.len()
            invariant
                0 <= i <= self.owned_objects@.len(),
                forall|j: int| 0 <= j < i ==> self.owned_objects@[j].oid != oid,
                self.wf(),
            decreases self.owned_objects@.len() - i,
        {
            if self.owned_objects[i].oid == oid {
                proof {
                    assert(heap_has(self.owned_objects@, oid));
                    let w = heap_index(self.owned_objects@, oid);
                    assert(0 <= w < self.owned_objects@.len() && self.owned_objects@[w].oid == oid);
                }
                return Some(i);
            }
            i += 1;
        }
        None
    }

    /// Create a fresh object of the given class under the fresh id `oid`
    /// (drawn by the caller from the process-wide counter), owned by this
    /// thread with one reference.  The returned message announces the id
    /// to the broker, establishing this thread as the owner.
    pub fn new_object(&mut self, class_name: String, oid: JavaObjectId) -> (m: ObjectBrokerMessage)
        requires
            old(self).wf(),
            !heap_has(old(self).owned_objects@, oid),
        ensures
            final(self).wf(),
            final(self).tid == old(self).tid,
            final(self).owned_objects@.len() == old(self).owned_objects@.len() + 1,
            final(self).owned_objects@.drop_last() == old(self).owned_objects@,
            final(self).owned_objects@.last().oid == oid,
            final(self).owned_objects@.last().ref_count == 1,
            final(self).owned_objects@.last().class_name@ == class_name@,
            final(self).owned_objects@.last().fields@.len() == 0,
            final(self).owned_objects@.last().monitor.lock_count == 0,
            final(self).owned_objects@.last().monitor.owner is None,
            final(self).owned_objects@.last().monitor.waiters@.len() == 0,
            final(self).owned_objects@.last().monitor.waiters_prio@.len() == 0,
            m == ObjectBrokerMessage::OB_REMOTE_OBJECT_OP(
                old(self).tid,
                oid,
                RemoteObjectOpMessage::REMOTE_ADD_REF,
            ),
    {
        let o = JavaObject::new(class_name, oid);
        self.owned_objects.push(o);
        proof {
            let os = self.owned_objects@;
            assert forall|i: int, j: int| 0 <= i < j < os.len() implies os[i].oid != os[j].oid by {
                if j < os.len() - 1 {
                    assert(os[i] == old(self).owned_objects@[i]);
                    assert(os[j] == old(self).owned_objects@[j]);
                } else {
                    assert(os[i] == old(self).owned_objects@[i]);
                }
            }
        }
        ObjectBrokerMessage::OB_REMOTE_OBJECT_OP(
            self.tid,
            oid,
            RemoteObjectOpMessage::REMOTE_ADD_REF,
        )
    }

    /// Take one more reference on object `oid`: locally when this thread
    /// owns it, else by the returned message for the broker.
    pub fn add_ref(&mut self, oid: JavaObjectId) -> (m: Option<ObjectBrokerMessage>)
        requires
            old(self).wf(),
            heap_has(old(self).owned_objects@, oid) ==> old(self).owned_objects@[heap_index(
                old(self).owned_objects@,
                oid,
            )].ref_count < usize::MAX,
        ensures
            final(self).wf(),
            final(self).tid == old(self).tid,
            if heap_has(old(self).owned_objects@, oid) {
                let i = heap_index(old(self).owned_objects@, oid);
                &&& m is None
                &&& final(self).owned_objects@ == old(self).owned_objects@.update(
                    i,
                    JavaObject {
                        ref_count: (old(self).owned_objects@[i].ref_count + 1) as usize,
                        ..old(self).owned_objects@[i]
                    },
                )
            } else {
                &&& m == Some(
                    ObjectBrokerMessage::OB_REMOTE_OBJECT_OP(
                        old(self).tid,
                        oid,
                        RemoteObjectOpMessage::REMOTE_ADD_REF,
                    ),
                )
                &&& final(self).owned_objects == old(self).owned_objects
            },
    {
        match self.find_index(oid) {
            Some(i) => {
                let mut o = self.owned_objects.remove(i);
                o.intern_add_ref();
                self.owned_objects.insert(i, o);
                proof {
                    let os = self.owned_objects@;
                    let old_os = old(self).owned_objects@;
                    assert(os =~= old_os.update(
                        i as int,
                        JavaObject {
                            ref_count: (old_os[i as int].ref_count + 1) as usize,
                            ..old_os[i as int]
                        },
                    ));
                    assert forall|x: int, y: int| 0 <= x < y < os.len() implies os[x].oid
                        != os[y].oid by {
                        assert(os[x].oid == old_os[x].oid && os[y].oid == old_os[y].oid);
                    }
                }
                None
            },
            None => Some(
                ObjectBrokerMessage::OB_REMOTE_OBJECT_OP(
                    self.tid,
                    oid,
                    RemoteObjectOpMessage::REMOTE_ADD_REF,
                ),
            ),
        }
    }

    /// Drop one reference on object `oid`.  A local object whose count
    /// reaches zero is destroyed; a remote one is released through the
    /// returned message for the broker.
    pub fn release(&mut self, oid: JavaObjectId) -> (m: Option<ObjectBrokerMessage>)
        requires
            old(self).wf(),
        ensures
            final(self).wf(),
            final(self).tid == old(self).tid,
            if heap_has(old(self).owned_objects@, oid) {
                let i = heap_index(old(self).owned_objects@, oid);
                &&& m is None
                &&& if old(self).owned_objects@[i].ref_count > 1 {
                    final(self).owned_objects@ == old(self).owned_objects@.update(
                        i,
                        JavaObject {
                            ref_count: (old(self).owned_objects@[i].ref_count - 1) as usize,
                            ..old(self).owned_objects@[i]
                        },
                    )
                } else {
                    final(self).owned_objects@ == old(self).owned_objects@.remove(i)
                }
            } else {
                &&& m == Some(
                    ObjectBrokerMessage::OB_REMOTE_OBJECT_OP(
                        old(self).tid,
                        oid,
                        RemoteObjectOpMessage::REMOTE_RELEASE,
                    ),
                )
                &&& final(self).owned_objects == old(self).owned_objects
            },
    {
        match self.find_index(oid) {
            Some(i) => {
                let mut o = self.owned_objects.remove(i);
                let alive = o.intern_release();
                if alive {
                    self.owned_objects.insert(i, o);
                    proof {
                        let os = self.owned_objects@;
                        let old_os = old(self).owned_objects@;
                        assert(os =~= old_os.update(
                            i as int,
                            JavaObject {
                                ref_count: (old_os[i as int].ref_count - 1) as usize,
                                ..old_os[i as int]
                            },
                        ));
                        assert forall|x: int, y: int| 0 <= x < y < os.len() implies os[x].oid
                            != os[y].oid by {
                            assert(os[x].oid == old_os[x].oid && os[y].oid == old_os[y].oid);
                        }
                    }
                } else {
                    proof {
                        let os = self.owned_objects@;
                        let old_os = old(self).owned_objects@;
                        assert forall|x: int, y: int| 0 <= x < y < os.len() implies os[x].oid
                            != os[y].oid by {
                            let ox: int = if x < i { x } else { x + 1 };
                            let oy: int = if y < i { y } else { y + 1 };
                            assert(os[x] == old_os[ox] && os[y] == old_os[oy]);
                        }
                        assert forall|x: int| 0 <= x < os.len() implies (#[trigger] os[x]).wf() by {
                            let ox: int = if x < i { x } else { x + 1 };
                            assert(os[x] == old_os[ox]);
                        }
                    }
                }
                None
            },
            None => Some(
                ObjectBrokerMessage::OB_REMOTE_OBJECT_OP(
                    self.tid,
                    oid,
                    RemoteObjectOpMessage::REMOTE_RELEASE,
                ),
            ),
        }
    }

    /// Hand object `oid` over to thread `tid`: the object leaves this
    /// heap inside the returned transfer message for the broker.
    pub fn send_to_thread(&mut self, oid: JavaObjectId, tid: u64) -> (m: ObjectBrokerMessage)
        requires
            old(self).wf(),
            heap_has(old(self).owned_objects@, oid),
        ensures
            final(self).wf(),
            final(self).tid == old(self).tid,
            final(self).owned_objects@ == old(self).owned_objects@.remove(
                heap_index(old(self).owned_objects@, oid),
            ),
            m == ObjectBrokerMessage::OB_REMOTE_OBJECT_OP(
                old(self).tid,
                oid,
                RemoteObjectOpMessage::REMOTE_DISOWN(
                    old(self).owned_objects@[heap_index(old(self).owned_objects@, oid)],
                    tid,
                ),
            ),
    {
        let i = match self.find_index(oid) {
            Some(i) => i,
            None => {
                proof {
                    assert(false);
                }
                0
            },
        };
        let o = self.owned_objects.remove(i);
        proof {
            let os = self.owned_objects@;
            let old_os = old(self).owned_objects@;
            assert forall|x: int, y: int| 0 <= x < y < os.len() implies os[x].oid != os[y].oid by {
                let ox: int = if x < i { x } else { x + 1 };
                let oy: int = if y < i { y } else { y + 1 };
                assert(os[x] == old_os[ox] && os[y] == old_os[oy]);
            }
            assert forall|x: int| 0 <= x < os.len() implies (#[trigger] os[x]).wf() by {
                let ox: int = if x < i { x } else { x + 1 };
                assert(os[x] == old_os[ox]);
            }
        }
        ObjectBrokerMessage::OB_REMOTE_OBJECT_OP(
            self.tid,
            oid,
            RemoteObjectOpMessage::REMOTE_DISOWN(o, tid),
        )
    }

    /// Whether the closure of an access with the given mode may run now:
    /// the object is here, and for a monitor access nobody else holds its
    /// monitor.  When this says no for an owned object, the thread parks
    /// the requester instead; when the object is remote, it asks the
    /// broker to own it and blocks.
    pub fn can_access(&self, access: RequestObjectAccessType, oid: JavaObjectId) -> (r: bool)
        requires
            self.wf(),
        ensures
            r == (heap_has(self.owned_objects@, oid) && (access is OBJECT_ACCESS_Normal
                || self.owned_objects@[heap_index(self.owned_objects@, oid)].monitor.lock_count == 0
                || self.owned_objects@[heap_index(self.owned_objects@, oid)].monitor.owner == Some(
                self.tid,
            ))),
    {
        match self.find_index(oid) {
            Some(i) => match access {
                RequestObjectAccessType::OBJECT_ACCESS_Normal => true,
                _ => self.owned_objects[i].monitor.can_be_locked_by_thread(self.tid),
            },
            None => false,
        }
    }

    /// The message asking the broker for ownership of `oid` with the
    /// given access mode.
    pub fn request_own_message(&self, access: RequestObjectAccessType, oid: JavaObjectId) -> (m:
        ObjectBrokerMessage)
        ensures
            m == ObjectBrokerMessage::OB_REMOTE_OBJECT_OP(
                self.tid,
                oid,
                RemoteObjectOpMessage::REMOTE_OWN(access),
            ),
    {
        ObjectBrokerMessage::OB_REMOTE_OBJECT_OP(
            self.tid,
            oid,
            RemoteObjectOpMessage::REMOTE_OWN(access),
        )
    }

    /// After an access ends, satisfy a queued monitor waiter at once:
    /// exactly when the object's monitor has a ready waiter, that waiter
    /// is popped and the object leaves this heap inside a transfer
    /// message naming that waiter; otherwise nothing changes.
    pub fn finish_access(&mut self, oid: JavaObjectId) -> (m: Option<ObjectBrokerMessage>)
        requires
            old(self).wf(),
            heap_has(old(self).owned_objects@, oid),
        ensures
            final(self).wf(),
            final(self).tid == old(self).tid,
            ({
                let i = heap_index(old(self).owned_objects@, oid);
                let mon = old(self).owned_objects@[i].monitor;
                match spec_ready_waiter(mon) {
                    None => m is None && final(self).owned_objects@ == old(self).owned_objects@,
                    Some(t) => {
                        &&& final(self).owned_objects@ == old(self).owned_objects@.remove(i)
                        &&& (m matches Some(
                            ObjectBrokerMessage::OB_REMOTE_OBJECT_OP(
                                src,
                                b,
                                RemoteObjectOpMessage::REMOTE_DISOWN(o, rec),
                            ),
                        ) && src == old(self).tid && b == oid && rec == t && o.oid == oid
                            && o.ref_count == old(self).owned_objects@[i].ref_count
                            && o.class_name == old(self).owned_objects@[i].class_name && o.fields
                            == old(self).owned_objects@[i].fields && o.monitor.lock_count
                            == mon.lock_count && o.monitor.owner == mon.owner && (if mon.waiters_prio@.len()
                            > 0 && mon.waiters_prio@[0].notified {
                            o.monitor.waiters_prio@ == mon.waiters_prio@.drop_first()
                                && o.monitor.waiters@ == mon.waiters@
                        } else {
                            o.monitor.waiters@ == mon.waiters@.drop_first()
                                && o.monitor.waiters_prio@ == mon.waiters_prio@
                        }))
                    },
                }
            }),
    {
        let i = match self.find_index(oid) {
            Some(i) => i,
            None => {
                proof {
                    assert(false);
                }
                0
            },
        };
        let mut o = self.owned_objects.remove(i);
        let ready = o.monitor.pop_ready_thread();
        self.owned_objects.insert(i, o);
        proof {
            let os = self.owned_objects@;
            let old_os = old(self).owned_objects@;
            assert(os =~= old_os.update(i as int, os[i as int]));
            assert(os[i as int].oid == old_os[i as int].oid);
            assert forall|x: int, y: int| 0 <= x < y < os.len() implies os[x].oid != os[y].oid by {
                assert(os[x].oid == old_os[x].oid && os[y].oid == old_os[y].oid);
            }
            assert forall|x: int| 0 <= x < os.len() implies (#[trigger] os[x]).wf() by {
                if x != i {
                    assert(os[x] == old_os[x]);
                }
            }
        }
        match ready {
            Some(t) => {
                let ghost mid = self.owned_objects@;
                let msg = self.send_to_thread(oid, t);
                proof {
                    assert(heap_index(mid, oid) == i as int) by {
                        let w = heap_index(mid, oid);
                        assert(mid[i as int].oid == oid);
                        assert(heap_has(mid, oid));
                        if w != i {
                            assert(mid[w].oid == mid[i as int].oid);
                        }
                    }
                    assert(self.owned_objects@ =~= old(self).owned_objects@.remove(i as int));
                }
                Some(msg)
            },
            None => {
                proof {
                    assert(self.owned_objects@ =~= old(self).owned_objects@);
                }
                None
            },
        }
    }

    /// Handle an object operation forwarded to this thread by the broker:
    /// `a` is the requesting thread, `b` the object.  Add-refs and
    /// releases apply locally.  An ownership request transfers the object
    /// unless the requested monitor is busy, in which case the requester
    /// is queued on it.  A transfer in delivers a new object.
    pub fn handle_message(&mut self, a: u64, b: JavaObjectId, op: RemoteObjectOpMessage) -> (m:
        Option<ObjectBrokerMessage>)
        requires
            old(self).wf(),
            !(op is REMOTE_WHO_OWNS),
            op matches RemoteObjectOpMessage::REMOTE_DISOWN(obj, rec) ==> rec == old(self).tid
                && obj.oid == b && obj.wf() && !heap_has(old(self).owned_objects@, b),
            !(op is REMOTE_DISOWN) ==> heap_has(old(self).owned_objects@, b),
            op is REMOTE_ADD_REF ==> old(self).owned_objects@[heap_index(
                old(self).owned_objects@,
                b,
            )].ref_count < usize::MAX,
            op matches RemoteObjectOpMessage::REMOTE_OWN(mode) ==> (
            mode is OBJECT_ACCESS_MonitorPriority ==> old(self).owned_objects@[heap_index(
                old(self).owned_objects@,
                b,
            )].monitor.spec_locked_by(a)),
        ensures
            final(self).wf(),
            final(self).tid == old(self).tid,
            op is REMOTE_ADD_REF ==> m is None && final(self).owned_objects@ == old(self).owned_objects@.update(
                heap_index(old(self).owned_objects@, b),
                JavaObject {
                    ref_count: (old(self).owned_objects@[heap_index(
                        old(self).owned_objects@,
                        b,
                    )].ref_count + 1) as usize,
                    ..old(self).owned_objects@[heap_index(old(self).owned_objects@, b)]
                },
            ),
            op is REMOTE_RELEASE ==> m is None && ({
                let i = heap_index(old(self).owned_objects@, b);
                if old(self).owned_objects@[i].ref_count > 1 {
                    final(self).owned_objects@ == old(self).owned_objects@.update(
                        i,
                        JavaObject {
                            ref_count: (old(self).owned_objects@[i].ref_count - 1) as usize,
                            ..old(self).owned_objects@[i]
                        },
                    )
                } else {
                    final(self).owned_objects@ == old(self).owned_objects@.remove(i)
                }
            }),
            op matches RemoteObjectOpMessage::REMOTE_DISOWN(obj, _) ==> m is None && final(self).owned_objects@ == old(self).owned_objects@.push(obj),
            op matches RemoteObjectOpMessage::REMOTE_OWN(mode) ==> {
                let i = heap_index(old(self).owned_objects@, b);
                let mon = old(self).owned_objects@[i].monitor;
                if (mode is OBJECT_ACCESS_Monitor || mode is OBJECT_ACCESS_MonitorPriority) && !(
                mon.lock_count == 0 || mon.owner == Some(a)) {
                    // the monitor is busy: queue the requester, keep the
                    // object
                    &&& m is None
                    &&& final(self).owned_objects@.len() == old(self).owned_objects@.len()
                    &&& heap_has(final(self).owned_objects@, b)
                } else {
                    // transfer the object to the requester
                    &&& m == Some(
                        ObjectBrokerMessage::OB_REMOTE_OBJECT_OP(
                            old(self).tid,
                            b,
                            RemoteObjectOpMessage::REMOTE_DISOWN(old(self).owned_objects@[i], a),
                        ),
                    )
                    &&& final(self).owned_objects@ == old(self).owned_objects@.remove(i)
                }
            },
    {
        match op {
            RemoteObjectOpMessage::REMOTE_ADD_REF => {
                self.add_ref(b);
                None
            },
            RemoteObjectOpMessage::REMOTE_RELEASE => {
                self.release(b);
                None
            },
            RemoteObjectOpMessage::REMOTE_OWN(mode) => {
                let queue = match mode {
                    RequestObjectAccessType::OBJECT_ACCESS_Normal => false,
                    _ => {
                        let i = match self.find_index(b) {
                            Some(i) => i,
                            None => {
                                proof {
                                    assert(false);
                                }
                                0
                            },
                        };
                        !self.owned_objects[i].monitor.can_be_locked_by_thread(a)
                    },
                };
                if queue {
                    let i = match self.find_index(b) {
                        Some(i) => i,
                        None => {
                            proof {
                                assert(false);
                            }
                            0
                        },
                    };
                    let is_prio = match mode {
                        RequestObjectAccessType::OBJECT_ACCESS_MonitorPriority => true,
                        _ => false,
                    };
                    let mut o = self.owned_objects.remove(i);
                    o.monitor.push_thread(a, is_prio);
                    self.owned_objects.insert(i, o);
                    proof {
                        let os = self.owned_objects@;
                        let old_os = old(self).owned_objects@;
                        assert(os.len() == old_os.len());
                        assert forall|x: int, y: int| 0 <= x < y < os.len() implies os[x].oid
                            != os[y].oid by {
                            assert(os[x].oid == old_os[x].oid && os[y].oid == old_os[y].oid);
                        }
                        assert forall|x: int| 0 <= x < os.len() implies (#[trigger] os[x]).wf() by {
                            if x != i {
                                assert(os[x] == old_os[x]);
                            }
                        }
                        assert(os[i as int].oid == b);
                        assert(heap_has(os, b));
                    }
                    None
                } else {
                    Some(self.send_to_thread(b, a))
                }
            },
            RemoteObjectOpMessage::REMOTE_DISOWN(obj, _rec) => {
                self.owned_objects.push(obj);
                proof {
                    let os = self.owned_objects@;
                    let old_os = old(self).owned_objects@;
                    assert forall|x: int, y: int| 0 <= x < y < os.len() implies os[x].oid
                        != os[y].oid by {
                        if y < os.len() - 1 {
                            assert(os[x] == old_os[x] && os[y] == old_os[y]);
                        } else {
                            assert(os[x] == old_os[x]);
                        }
                    }
                    assert forall|x: int| 0 <= x < os.len() implies (#[trigger] os[x]).wf() by {
                        if x < os.len() - 1 {
                            assert(os[x] == old_os[x]);
                        }
                    }
                }
                None
            },
            RemoteObjectOpMessage::REMOTE_WHO_OWNS => {
                proof {
                    assert(false);
                }
                None
            },
        }
    }

    /// Surrender the whole heap: every owned object, for the final
    /// transfer to the broker when the thread dies.
    pub fn unwrap_objects(self) -> (r: Vec<JavaObject>)
        ensures
            r == self.owned_objects,
    {
        self.owned_objects
    }
}

} // verus!
