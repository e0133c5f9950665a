//! The object broker: the single coordinator through which every
//! cross-thread object access passes.
//!
//! The broker owns the ownership map (object id to owning thread, 0
//! meaning the broker itself), the set of objects it holds, the list of
//! registered threads and the waiting shelf.  It consumes one message at
//! a time and answers with the messages to deliver: the surrounding
//! program runs the channel loop, feeds messages in and carries the
//! answers out.  Messages returned for replay (a drained shelf) are fed
//! back to the broker before anything else, in order.
//!
//! Shelving rule: as soon as an ownership request is forwarded to the
//! current owner, a shelf entry is opened for that object, and every
//! later message about it (except ownership queries and the answering
//! transfer) is parked there.  The transfer closes the shelf and replays
//! the parked messages in arrival order, which keeps per-object message
//! order across ownership changes.

#![allow(non_camel_case_types)]

use vstd::prelude::*;

use crate::object::{JavaObject, JavaObjectId};
use crate::threadmanager::{
    count_nondaemon, has_gid, has_tid, index_of_tid, RemoteThreadOpMessage, ThreadManager,
    ThreadManagerState,
};
use crate::vm::{BrokerToVMControlMessage, VMToBrokerControlMessage};

verus! {

/// How a thread wishes to access an object it asks to own.
#[derive(Clone, Copy, PartialEq, Eq, Structural, Debug)]
pub enum RequestObjectAccessType {
    /// Plain field access; granted whenever the object arrives.
    OBJECT_ACCESS_Normal,
    /// The object's monitor must also be free (or held by the requester)
    /// when ownership is granted.
    OBJECT_ACCESS_Monitor,
    /// Like the monitor mode, but served from the priority queue; used
    /// when returning from a `wait` call.
    OBJECT_ACCESS_MonitorPriority,
}

/// Operations on objects owned by another thread.
pub enum RemoteObjectOpMessage {
    /// Take one more reference.  The first add-ref for an object makes
    /// the sender its owner.
    REMOTE_ADD_REF,
    /// Drop one reference; a sender that owns the object reports its
    /// death this way.
    REMOTE_RELEASE,
    /// Ask who owns the object; answered with the same message carrying
    /// the owner's id in the source slot.
    REMOTE_WHO_OWNS,
    /// Ask to take over ownership with the given access mode.
    REMOTE_OWN(RequestObjectAccessType),
    /// Hand the object over to the thread named in the second slot.
    REMOTE_DISOWN(JavaObject, u64),
}

/// Everything a thread or the machine handle can tell the broker.
pub enum ObjectBrokerMessage {
    /// An object operation: source thread, object id, operation.
    OB_REMOTE_OBJECT_OP(u64, JavaObjectId, RemoteObjectOpMessage),
    /// A new thread announces itself.
    OB_REGISTER(u64),
    /// A thread leaves and hands every object it still owns to the
    /// broker.
    OB_UNREGISTER(u64, Vec<JavaObject>),
    /// A thread operation, forwarded to the thread registry.
    OB_THREAD_REMOTE_OP(u64, u64, RemoteThreadOpMessage),
    /// Control from the machine handle.
    OB_VM_TO_BROKER(VMToBrokerControlMessage),
    /// A shutdown request carrying an exit code; also broadcast by the
    /// broker to every thread once shutdown starts.
    OB_SHUTDOWN(u64, i64),
}

/// Where the broker stands in the shutdown protocol.
#[derive(Clone, Copy, PartialEq, Eq, Structural, Debug)]
pub enum ShutdownState {
    NOT_IN_SHUTDOWN,
    SHUTTING_DOWN,
    SHUT_DOWN,
}

/// One row of the ownership map.
#[derive(Clone, Copy, PartialEq, Eq, Structural, Debug)]
pub struct OwnerEntry {
    pub oid: JavaObjectId,
    /// Owning thread, or 0 for the broker.
    pub owner: u64,
}

/// The parked messages of one object that is mid-transfer.
pub struct ShelfEntry {
    pub oid: JavaObjectId,
    pub messages: Vec<ObjectBrokerMessage>,
}

/// What the broker wants done after consuming one message.
pub struct BrokerOutput {
    /// Messages to deliver, in order, each to the named thread.
    pub thread_messages: Vec<(u64, ObjectBrokerMessage)>,
    /// Messages to deliver to the machine handle.
    pub vm_messages: Vec<BrokerToVMControlMessage>,
    /// Drained shelf messages; feed them back to the broker, in order,
    /// before consuming anything else.
    pub replay: Vec<ObjectBrokerMessage>,
    /// False once the broker is done and its task may end.
    pub running: bool,
}

/// The exit code a shutdown initiated by the machine handle reports.
pub const EXIT_CODE_VM_INITIATED_SHUTDOWN: i64 = -150392;

/// The location invariants, stated on their own.  For every object id
/// the broker has ever seen there is exactly one ownership row; the row
/// says 0 exactly when the broker physically holds the object, so the
/// map entry and the physical location agree, and an object is never in
/// two places or in none.
pub proof fn lemma_object_location_invariants(b: &ObjectBroker)
    requires
        b.wf(),
    ensures
        forall|i: int|
            0 <= i < b.objects_with_owners@.len() ==> ((#[trigger] b.objects_with_owners@[i]).owner
                == 0 <==> has_obj(b.objects_owned@, b.objects_with_owners@[i].oid)),
        forall|i: int|
            0 <= i < b.objects_owned@.len() ==> has_owner(
                b.objects_with_owners@,
                (#[trigger] b.objects_owned@[i]).oid,
            ),
        forall|i: int, j: int|
            0 <= i < j < b.objects_with_owners@.len() ==> b.objects_with_owners@[i].oid
                != b.objects_with_owners@[j].oid,
{
}

/// Whether some ownership row carries `oid`.
pub open spec fn has_owner(es: Seq<OwnerEntry>, oid: u64) -> bool {
    exists|i: int| 0 <= i < es.len() && es[i].oid == oid
}

/// The position of `oid`'s ownership row (unique under well-formedness).
pub open spec fn owner_index(es: Seq<OwnerEntry>, oid: u64) -> int {
    choose|i: int| 0 <= i < es.len() && es[i].oid == oid
}

/// The recorded owner of `oid`.
pub open spec fn owner_of(es: Seq<OwnerEntry>, oid: u64) -> u64 {
    es[owner_index(es, oid)].owner
}

/// Whether some held object carries `oid`.
pub open spec fn has_obj(os: Seq<JavaObject>, oid: u64) -> bool {
    exists|i: int| 0 <= i < os.len() && os[i].oid == oid
}

/// The position of the held object `oid` (unique under well-formedness).
pub open spec fn obj_index(os: Seq<JavaObject>, oid: u64) -> int {
    choose|i: int| 0 <= i < os.len() && os[i].oid == oid
}

/// Whether a shelf entry for `oid` is open.
pub open spec fn has_shelf(sh: Seq<ShelfEntry>, oid: u64) -> bool {
    exists|i: int| 0 <= i < sh.len() && sh[i].oid == oid
}

/// The position of `oid`'s shelf entry (unique under well-formedness).
pub open spec fn shelf_index(sh: Seq<ShelfEntry>, oid: u64) -> int {
    choose|i: int| 0 <= i < sh.len() && sh[i].oid == oid
}

/// Whether thread `tid` is registered.
pub open spec fn is_registered(rs: Seq<u64>, tid: u64) -> bool {
    exists|i: int| 0 <= i < rs.len() && rs[i] == tid
}

/// A message that may be parked on the shelf of `oid`: an add-ref,
/// release or ownership request for that object.
pub open spec fn shelvable(msg: ObjectBrokerMessage, oid: u64) -> bool {
    match msg {
        ObjectBrokerMessage::OB_REMOTE_OBJECT_OP(src, b, op) => src != 0 && b == oid && (
        op is REMOTE_ADD_REF || op is REMOTE_RELEASE || op is REMOTE_OWN),
        _ => false,
    }
}

/// Whether some object in `os` carries `oid`.
fn vec_has_oid(os: &Vec<JavaObject>, oid: u64) -> (r: bool)
    ensures
        r == has_obj(os@, oid),
{
    let mut i: usize = 0;
    while i < os.len()
        invariant
            0 <= i <= os@.len(),
            forall|j: int| 0 <= j < i ==> os@[j].oid != oid,
        decreases os@.len() - i,
    {
        if os[i].get_oid() == oid {
            return true;
        }
        i += 1;
    }
    false
}

/// The single coordinator of object ownership, thread lifecycle and
/// shutdown.
pub struct ObjectBroker {
    /// The thread registry.
    pub threads: ThreadManager,
    /// Object id to owning thread id; 0 means the broker owns it.
    pub objects_with_owners: Vec<OwnerEntry>,
    /// The objects the broker itself holds.
    pub objects_owned: Vec<JavaObject>,
    /// Threads with a live channel, in registration order.
    pub registered: Vec<u64>,
    /// Parked messages for objects that are mid-transfer.
    pub waiting_shelf: Vec<ShelfEntry>,
    pub shutdown_state: ShutdownState,
    /// The exit code of the first shutdown trigger; meaningful once
    /// shutdown has started.
    pub exit_code: i64,
}

impl ObjectBroker {
    /// Well-formedness, including the two location invariants: every
    /// object id has one ownership row; a row says 0 exactly when the
    /// broker physically holds the object; a row naming a thread names a
    /// live registered one.
    pub open spec fn wf(&self) -> bool {
        &&& self.threads.wf()
        &&& self.registered@.len() == self.threads.threads@.len()
        &&& forall|i: int|
            0 <= i < self.registered@.len() ==> self.registered@[i] == (
            #[trigger] self.threads.threads@[i]).tid
        &&& forall|i: int| 0 <= i < self.registered@.len() ==> (#[trigger] self.registered@[i]) != 0
        &&& forall|i: int, j: int|
            0 <= i < j < self.objects_with_owners@.len() ==> self.objects_with_owners@[i].oid
                != self.objects_with_owners@[j].oid
        &&& forall|i: int, j: int|
            0 <= i < j < self.objects_owned@.len() ==> self.objects_owned@[i].oid
                != self.objects_owned@[j].oid
        &&& forall|i: int| 0 <= i < self.objects_owned@.len() ==> (#[trigger] self.objects_owned@[i]).wf()
        &&& forall|i: int|
            0 <= i < self.objects_with_owners@.len() ==> ((#[trigger] self.objects_with_owners@[i]).owner
                == 0 <==> has_obj(self.objects_owned@, self.objects_with_owners@[i].oid))
        &&& forall|i: int|
            0 <= i < self.objects_with_owners@.len() ==> ((#[trigger] self.objects_with_owners@[i]).owner
                != 0 ==> is_registered(self.registered@, self.objects_with_owners@[i].owner))
        &&& forall|i: int|
            0 <= i < self.objects_owned@.len() ==> has_owner(
                self.objects_with_owners@,
                (#[trigger] self.objects_owned@[i]).oid,
            )
        &&& forall|i: int, j: int|
            0 <= i < j < self.waiting_shelf@.len() ==> self.waiting_shelf@[i].oid
                != self.waiting_shelf@[j].oid
        &&& forall|i: int|
            0 <= i < self.waiting_shelf@.len() ==> has_owner(
                self.objects_with_owners@,
                (#[trigger] self.waiting_shelf@[i]).oid,
            )
        &&& forall|i: int, k: int|
            0 <= i < self.waiting_shelf@.len() && 0 <= k
                < self.waiting_shelf@[i].messages@.len() ==> shelvable(
                #[trigger] self.waiting_shelf@[i].messages@[k],
                self.waiting_shelf@[i].oid,
            )
        &&& (self.shutdown_state is SHUT_DOWN ==> self.registered@.len() == 0)
    }

    /// A fresh broker: no threads, no objects, not shutting down.
    pub fn new() -> (r: ObjectBroker)
        ensures
            r.wf(),
            r.shutdown_state is NOT_IN_SHUTDOWN,
            r.registered@.len() == 0,
            r.objects_with_owners@.len() == 0,
            r.objects_owned@.len() == 0,
            r.waiting_shelf@.len() == 0,
            r.threads.state is TMS_NoThreadSeenYet,
    {
        ObjectBroker {
            threads: ThreadManager::new(),
            objects_with_owners: Vec::new(),
            objects_owned: Vec::new(),
            registered: Vec::new(),
            waiting_shelf: Vec::new(),
            shutdown_state: ShutdownState::NOT_IN_SHUTDOWN,
            exit_code: 0,
        }
    }

    /// When an object operation is free of protocol violations.  The
    /// sender is a real thread; the object is known where it has to be;
    /// nobody asks to own what it already owns; a transfer answers an
    /// open shelf and names a registered receiver.  Reference counts stay
    /// within the machine word.
    pub open spec fn valid_object_op(&self, a: u64, b: u64, op: RemoteObjectOpMessage) -> bool {
        let owners = self.objects_with_owners@;
        &&& a != 0
        &&& match op {
            RemoteObjectOpMessage::REMOTE_WHO_OWNS => has_owner(owners, b) && is_registered(
                self.registered@,
                a,
            ),
            RemoteObjectOpMessage::REMOTE_DISOWN(obj, rec) => {
                &&& has_owner(owners, b)
                &&& owner_of(owners, b) == a
                &&& is_registered(self.registered@, rec)
                &&& has_shelf(self.waiting_shelf@, b)
                &&& obj.oid == b
                &&& obj.wf()
            },
            RemoteObjectOpMessage::REMOTE_ADD_REF => has_shelf(self.waiting_shelf@, b) || {
                &&& (!has_owner(owners, b) ==> is_registered(self.registered@, a))
                &&& (has_owner(owners, b) && owner_of(owners, b) == 0 ==> self.objects_owned@[
                    obj_index(self.objects_owned@, b)
                ].ref_count < usize::MAX)
            },
            RemoteObjectOpMessage::REMOTE_RELEASE => has_shelf(self.waiting_shelf@, b)
                || has_owner(owners, b),
            RemoteObjectOpMessage::REMOTE_OWN(_) => has_shelf(self.waiting_shelf@, b) || {
                &&& has_owner(owners, b)
                &&& owner_of(owners, b) != a
                &&& (owner_of(owners, b) == 0 ==> is_registered(self.registered@, a))
            },
        }
    }

    /// The exact transition an object operation makes: how the ownership
    /// map, the held objects and the shelf change, and which messages go
    /// out.  Thread registry and shutdown state never move here.
    pub open spec fn object_op_step(
        pre: ObjectBroker,
        a: u64,
        b: u64,
        op: RemoteObjectOpMessage,
        post: ObjectBroker,
        out: BrokerOutput,
    ) -> bool {
        let owners = pre.objects_with_owners@;
        let owned = pre.objects_owned@;
        let shelf = pre.waiting_shelf@;
        &&& post.threads == pre.threads
        &&& post.registered == pre.registered
        &&& post.shutdown_state == pre.shutdown_state
        &&& post.exit_code == pre.exit_code
        &&& out.vm_messages@.len() == 0
        &&& out.running == true
        &&& if (op is REMOTE_ADD_REF || op is REMOTE_RELEASE || op is REMOTE_OWN) && has_shelf(
            shelf,
            b,
        ) {
            // the object is mid-transfer: park the message
            let si = shelf_index(shelf, b);
            &&& post.objects_with_owners == pre.objects_with_owners
            &&& post.objects_owned == pre.objects_owned
            &&& post.waiting_shelf@.len() == shelf.len()
            &&& forall|j: int| 0 <= j < shelf.len() && j != si ==> post.waiting_shelf@[j] == shelf[j]
            &&& post.waiting_shelf@[si].oid == b
            &&& post.waiting_shelf@[si].messages@ == shelf[si].messages@.push(
                ObjectBrokerMessage::OB_REMOTE_OBJECT_OP(a, b, op),
            )
            &&& out.thread_messages@.len() == 0
            &&& out.replay@.len() == 0
        } else {
            match op {
                RemoteObjectOpMessage::REMOTE_WHO_OWNS => {
                    &&& post.objects_with_owners == pre.objects_with_owners
                    &&& post.objects_owned == pre.objects_owned
                    &&& post.waiting_shelf == pre.waiting_shelf
                    &&& out.thread_messages@ == seq![
                        (
                            a,
                            ObjectBrokerMessage::OB_REMOTE_OBJECT_OP(
                                owner_of(owners, b),
                                b,
                                RemoteObjectOpMessage::REMOTE_WHO_OWNS,
                            ),
                        ),
                    ]
                    &&& out.replay@.len() == 0
                },
                RemoteObjectOpMessage::REMOTE_DISOWN(obj, rec) => {
                    let oi = owner_index(owners, b);
                    let si = shelf_index(shelf, b);
                    &&& post.objects_with_owners@ == owners.update(
                        oi,
                        OwnerEntry { oid: b, owner: rec },
                    )
                    &&& post.objects_owned == pre.objects_owned
                    &&& post.waiting_shelf@ == shelf.remove(si)
                    &&& out.thread_messages@ == seq![
                        (
                            rec,
                            ObjectBrokerMessage::OB_REMOTE_OBJECT_OP(
                                a,
                                b,
                                RemoteObjectOpMessage::REMOTE_DISOWN(obj, rec),
                            ),
                        ),
                    ]
                    &&& out.replay@ == shelf[si].messages@
                },
                RemoteObjectOpMessage::REMOTE_ADD_REF => {
                    &&& post.waiting_shelf == pre.waiting_shelf
                    &&& out.replay@.len() == 0
                    &&& if !has_owner(owners, b) {
                        // first add-ref: the sender becomes the owner
                        &&& post.objects_with_owners@ == owners.push(
                            OwnerEntry { oid: b, owner: a },
                        )
                        &&& post.objects_owned == pre.objects_owned
                        &&& out.thread_messages@.len() == 0
                    } else if owner_of(owners, b) == 0 {
                        let obji = obj_index(owned, b);
                        &&& post.objects_with_owners == pre.objects_with_owners
                        &&& post.objects_owned@ == owned.update(
                            obji,
                            JavaObject {
                                ref_count: (owned[obji].ref_count + 1) as usize,
                                ..owned[obji]
                            },
                        )
                        &&& out.thread_messages@.len() == 0
                    } else {
                        &&& post.objects_with_owners == pre.objects_with_owners
                        &&& post.objects_owned == pre.objects_owned
                        &&& out.thread_messages@ == seq![
                            (
                                owner_of(owners, b),
                                ObjectBrokerMessage::OB_REMOTE_OBJECT_OP(
                                    a,
                                    b,
                                    RemoteObjectOpMessage::REMOTE_ADD_REF,
                                ),
                            ),
                        ]
                    }
                },
                RemoteObjectOpMessage::REMOTE_RELEASE => {
                    &&& post.waiting_shelf == pre.waiting_shelf
                    &&& out.replay@.len() == 0
                    &&& if owner_of(owners, b) == a {
                        // the owner reports the object's death
                        &&& post.objects_with_owners@ == owners.remove(owner_index(owners, b))
                        &&& post.objects_owned == pre.objects_owned
                        &&& out.thread_messages@.len() == 0
                    } else if owner_of(owners, b) == 0 {
                        let obji = obj_index(owned, b);
                        &&& out.thread_messages@.len() == 0
                        &&& if owned[obji].ref_count > 1 {
                            &&& post.objects_with_owners == pre.objects_with_owners
                            &&& post.objects_owned@ == owned.update(
                                obji,
                                JavaObject {
                                    ref_count: (owned[obji].ref_count - 1) as usize,
                                    ..owned[obji]
                                },
                            )
                        } else {
                            // last reference is gone: the object dies
                            &&& post.objects_with_owners@ == owners.remove(owner_index(owners, b))
                            &&& post.objects_owned@ == owned.remove(obji)
                        }
                    } else {
                        &&& post.objects_with_owners == pre.objects_with_owners
                        &&& post.objects_owned == pre.objects_owned
                        &&& out.thread_messages@ == seq![
                            (
                                owner_of(owners, b),
                                ObjectBrokerMessage::OB_REMOTE_OBJECT_OP(
                                    a,
                                    b,
                                    RemoteObjectOpMessage::REMOTE_RELEASE,
                                ),
                            ),
                        ]
                    }
                },
                RemoteObjectOpMessage::REMOTE_OWN(mode) => {
                    &&& out.replay@.len() == 0
                    &&& if owner_of(owners, b) == 0 {
                        // the broker holds the object: hand it over at once
                        let obji = obj_index(owned, b);
                        &&& post.objects_with_owners@ == owners.update(
                            owner_index(owners, b),
                            OwnerEntry { oid: b, owner: a },
                        )
                        &&& post.objects_owned@ == owned.remove(obji)
                        &&& post.waiting_shelf == pre.waiting_shelf
                        &&& out.thread_messages@ == seq![
                            (
                                a,
                                ObjectBrokerMessage::OB_REMOTE_OBJECT_OP(
                                    0,
                                    b,
                                    RemoteObjectOpMessage::REMOTE_DISOWN(owned[obji], a),
                                ),
                            ),
                        ]
                    } else {
                        // forward the request and open the shelf
                        &&& post.objects_with_owners == pre.objects_with_owners
                        &&& post.objects_owned == pre.objects_owned
                        &&& post.waiting_shelf@.len() == shelf.len() + 1
                        &&& forall|j: int| 0 <= j < shelf.len() ==> post.waiting_shelf@[j] == shelf[j]
                        &&& post.waiting_shelf@.last().oid == b
                        &&& post.waiting_shelf@.last().messages@.len() == 0
                        &&& out.thread_messages@ == seq![
                            (
                                owner_of(owners, b),
                                ObjectBrokerMessage::OB_REMOTE_OBJECT_OP(
                                    a,
                                    b,
                                    RemoteObjectOpMessage::REMOTE_OWN(mode),
                                ),
                            ),
                        ]
                    }
                },
            }
        }
    }

    /// The position of `oid`'s ownership row, if any.
    fn find_owner_index(&self, oid: u64) -> (r: Option<usize>)
        requires
            self.wf(),
        ensures
            match r {
                Some(i) => 0 <= i < self.objects_with_owners@.len()
                    && self.objects_with_owners@[i as int].oid == oid && i == owner_index(
                    self.objects_with_owners@,
                    oid,
                ) && has_owner(self.objects_with_owners@, oid),
                None => !has_owner(self.objects_with_owners@, oid),
            },
    {
        let mut i: usize = 0;
        while i < self.objects_with_owners.len()
            invariant
                0 <= i <= self.objects_with_owners@.len(),
                forall|j: int| 0 <= j < i ==> self.objects_with_owners@[j].oid != oid,
                self.wf(),
            decreases self.objects_with_owners@.len() - i,
        {
            if self.objects_with_owners[i].oid == oid {
                proof {
                    assert(has_owner(self.objects_with_owners@, oid));
                    let w = owner_index(self.objects_with_owners@, oid);
                    assert(0 <= w < self.objects_with_owners@.len()
                        && self.objects_with_owners@[w].oid == oid);
                }
                return Some(i);
            }
            i += 1;
        }
        None
    }

    /// The position of the held object `oid`, if the broker holds it.
    fn find_owned_index(&self, oid: u64) -> (r: Option<usize>)
        requires
            self.wf(),
        ensures
            match r {
                Some(i) => 0 <= i < self.objects_owned@.len() && self.objects_owned@[i as int].oid
                    == oid && i == obj_index(self.objects_owned@, oid) && has_obj(
                    self.objects_owned@,
                    oid,
                ),
                None => !has_obj(self.objects_owned@, oid),
            },
    {
        let mut i: usize = 0;
        while i < self.objects_owned.len()
            invariant
                0 <= i <= self.objects_owned@.len(),
                forall|j: int| 0 <= j < i ==> self.objects_owned@[j].oid != oid,
                self.wf(),
            decreases self.objects_owned@.len() - i,
        {
            if self.objects_owned[i].oid == oid {
                proof {
                    assert(has_obj(self.objects_owned@, oid));
                    let w = obj_index(self.objects_owned@, oid);
                    assert(0 <= w < self.objects_owned@.len() && self.objects_owned@[w].oid == oid);
                }
                return Some(i);
            }
            i += 1;
        }
        None
    }

    /// The position of `oid`'s shelf entry, if one is open.
    fn find_shelf_index(&self, oid: u64) -> (r: Option<usize>)
        requires
            self.wf(),
        ensures
            match r {
                Some(i) => 0 <= i < self.waiting_shelf@.len() && self.waiting_shelf@[i as int].oid
                    == oid && i == shelf_index(self.waiting_shelf@, oid) && has_shelf(
                    self.waiting_shelf@,
                    oid,
                ),
                None => !has_shelf(self.waiting_shelf@, oid),
            },
    {
        let mut i: usize = 0;
        while i < self.waiting_shelf.len()
            invariant
                0 <= i <= self.waiting_shelf@.len(),
                forall|j: int| 0 <= j < i ==> self.waiting_shelf@[j].oid != oid,
                self.wf(),
            decreases self.waiting_shelf@.len() - i,
        {
            if self.waiting_shelf[i].oid == oid {
                proof {
                    assert(has_shelf(self.waiting_shelf@, oid));
                    let w = shelf_index(self.waiting_shelf@, oid);
                    assert(0 <= w < self.waiting_shelf@.len() && self.waiting_shelf@[w].oid == oid);
                }
                return Some(i);
            }
            i += 1;
        }
        None
    }

    /// The position of `tid` in the registration list, if registered.
    fn find_registered_index(&self, tid: u64) -> (r: Option<usize>)
        requires
            self.wf(),
        ensures
            match r {
                Some(i) => 0 <= i < self.registered@.len() && self.registered@[i as int] == tid
                    && is_registered(self.registered@, tid),
                None => !is_registered(self.registered@, tid),
            },
    {
        let mut i: usize = 0;
        while i < self.registered.len()
            invariant
                0 <= i <= self.registered@.len(),
                forall|j: int| 0 <= j < i ==> self.registered@[j] != tid,
                self.wf(),
            decreases self.registered@.len() - i,
        {
            if self.registered[i] == tid {
                return Some(i);
            }
            i += 1;
        }
        None
    }

    /// Adding a row for a fresh object id keeps the broker well formed.
    proof fn lemma_owners_extended(&self, pre: ObjectBroker, b: u64, a: u64)
        requires
            pre.wf(),
            a != 0,
            is_registered(pre.registered@, a),
            !has_owner(pre.objects_with_owners@, b),
            self.objects_with_owners@ == pre.objects_with_owners@.push(
                OwnerEntry { oid: b, owner: a },
            ),
            self.objects_owned == pre.objects_owned,
            self.waiting_shelf == pre.waiting_shelf,
            self.registered == pre.registered,
            self.threads == pre.threads,
            self.shutdown_state == pre.shutdown_state,
        ensures
            self.wf(),
    {
        let owners = pre.objects_with_owners@;
        let new = self.objects_with_owners@;
        let n = owners.len() as int;
        assert forall|i: int, j: int| 0 <= i < j < new.len() implies new[i].oid != new[j].oid by {
            if j < n {
                assert(new[i] == owners[i] && new[j] == owners[j]);
            } else {
                assert(new[i] == owners[i]);
            }
        }
        assert forall|i: int| 0 <= i < new.len() implies ((#[trigger] new[i]).owner == 0 <==> has_obj(
            self.objects_owned@,
            new[i].oid,
        )) by {
            if i < n {
                assert(new[i] == owners[i]);
            } else {
                if has_obj(self.objects_owned@, b) {
                    let w = obj_index(pre.objects_owned@, b);
                    assert(has_owner(owners, pre.objects_owned@[w].oid));
                }
            }
        }
        assert forall|i: int| 0 <= i < new.len() implies ((#[trigger] new[i]).owner != 0
            ==> is_registered(self.registered@, new[i].owner)) by {
            if i < n {
                assert(new[i] == owners[i]);
            }
        }
        assert forall|i: int| 0 <= i < self.objects_owned@.len() implies has_owner(
            new,
            (#[trigger] self.objects_owned@[i]).oid,
        ) by {
            let w = owner_index(owners, self.objects_owned@[i].oid);
            assert(has_owner(owners, self.objects_owned@[i].oid));
            assert(new[w].oid == owners[w].oid);
        }
        assert forall|i: int| 0 <= i < self.waiting_shelf@.len() implies has_owner(
            new,
            (#[trigger] self.waiting_shelf@[i]).oid,
        ) by {
            let w = owner_index(owners, self.waiting_shelf@[i].oid);
            assert(has_owner(owners, self.waiting_shelf@[i].oid));
            assert(new[w].oid == owners[w].oid);
        }
    }

    /// Replacing one held object by another with the same id and a
    /// positive count keeps the broker well formed.
    proof fn lemma_owned_updated(&self, pre: ObjectBroker, obji: int)
        requires
            pre.wf(),
            0 <= obji < pre.objects_owned@.len(),
            self.objects_owned@.len() == pre.objects_owned@.len(),
            forall|j: int|
                0 <= j < pre.objects_owned@.len() && j != obji ==> self.objects_owned@[j]
                    == pre.objects_owned@[j],
            self.objects_owned@[obji].oid == pre.objects_owned@[obji].oid,
            self.objects_owned@[obji].wf(),
            self.objects_with_owners == pre.objects_with_owners,
            self.waiting_shelf == pre.waiting_shelf,
            self.registered == pre.registered,
            self.threads == pre.threads,
            self.shutdown_state == pre.shutdown_state,
        ensures
            self.wf(),
    {
        let owned = pre.objects_owned@;
        let new = self.objects_owned@;
        assert forall|i: int, j: int| 0 <= i < j < new.len() implies new[i].oid != new[j].oid by {
            assert(new[i].oid == owned[i].oid);
            assert(new[j].oid == owned[j].oid);
        }
        assert forall|i: int| 0 <= i < self.objects_with_owners@.len() implies ((
        #[trigger] self.objects_with_owners@[i]).owner == 0 <==> has_obj(
            new,
            self.objects_with_owners@[i].oid,
        )) by {
            if has_obj(owned, self.objects_with_owners@[i].oid) {
                let w = obj_index(owned, self.objects_with_owners@[i].oid);
                assert(new[w].oid == owned[w].oid);
            }
            if has_obj(new, self.objects_with_owners@[i].oid) {
                let w = choose|w: int|
                    0 <= w < new.len() && new[w].oid == self.objects_with_owners@[i].oid;
                assert(owned[w].oid == new[w].oid);
            }
        }
        assert forall|i: int| 0 <= i < new.len() implies has_owner(
            self.objects_with_owners@,
            (#[trigger] new[i]).oid,
        ) by {
            assert(new[i].oid == owned[i].oid);
        }
    }

    /// Dropping the row of an object some thread holds (it reported the
    /// object's death, or it was never shelved) keeps the broker well
    /// formed.
    proof fn lemma_owners_removed(&self, pre: ObjectBroker, oi: int)
        requires
            pre.wf(),
            0 <= oi < pre.objects_with_owners@.len(),
            pre.objects_with_owners@[oi].owner != 0,
            !has_shelf(pre.waiting_shelf@, pre.objects_with_owners@[oi].oid),
            self.objects_with_owners@ == pre.objects_with_owners@.remove(oi),
            self.objects_owned == pre.objects_owned,
            self.waiting_shelf == pre.waiting_shelf,
            self.registered == pre.registered,
            self.threads == pre.threads,
            self.shutdown_state == pre.shutdown_state,
        ensures
            self.wf(),
    {
        let owners = pre.objects_with_owners@;
        let new = self.objects_with_owners@;
        assert forall|i: int, j: int| 0 <= i < j < new.len() implies new[i].oid != new[j].oid by {
            let oi2: int = if i < oi { i } else { i + 1 };
            let oj2: int = if j < oi { j } else { j + 1 };
            assert(new[i] == owners[oi2] && new[j] == owners[oj2]);
        }
        assert forall|i: int| 0 <= i < new.len() implies ((#[trigger] new[i]).owner == 0 <==> has_obj(
            self.objects_owned@,
            new[i].oid,
        )) by {
            let o2: int = if i < oi { i } else { i + 1 };
            assert(new[i] == owners[o2]);
        }
        assert forall|i: int| 0 <= i < new.len() implies ((#[trigger] new[i]).owner != 0
            ==> is_registered(self.registered@, new[i].owner)) by {
            let o2: int = if i < oi { i } else { i + 1 };
            assert(new[i] == owners[o2]);
        }
        assert forall|i: int| 0 <= i < self.objects_owned@.len() implies has_owner(
            new,
            (#[trigger] self.objects_owned@[i]).oid,
        ) by {
            let oid = self.objects_owned@[i].oid;
            assert(has_owner(owners, oid));
            let w = owner_index(owners, oid);
            assert(owners[w].oid == oid);
            assert(w != oi) by {
                if w == oi {
                    assert(owners[oi].owner == 0);
                }
            }
            let nw: int = if w < oi { w } else { w - 1 };
            assert(new[nw] == owners[w]);
        }
        assert forall|i: int| 0 <= i < self.waiting_shelf@.len() implies has_owner(
            new,
            (#[trigger] self.waiting_shelf@[i]).oid,
        ) by {
            let oid = self.waiting_shelf@[i].oid;
            assert(has_owner(owners, oid));
            let w = owner_index(owners, oid);
            assert(owners[w].oid == oid);
            assert(w != oi);
            let nw: int = if w < oi { w } else { w - 1 };
            assert(new[nw] == owners[w]);
        }
    }

    /// Dropping both the row and the held object of a dying broker-owned
    /// object keeps the broker well formed.
    proof fn lemma_object_dropped(&self, pre: ObjectBroker, oi: int, obji: int)
        requires
            pre.wf(),
            0 <= oi < pre.objects_with_owners@.len(),
            0 <= obji < pre.objects_owned@.len(),
            pre.objects_with_owners@[oi].owner == 0,
            pre.objects_with_owners@[oi].oid == pre.objects_owned@[obji].oid,
            !has_shelf(pre.waiting_shelf@, pre.objects_with_owners@[oi].oid),
            self.objects_with_owners@ == pre.objects_with_owners@.remove(oi),
            self.objects_owned@ == pre.objects_owned@.remove(obji),
            self.waiting_shelf == pre.waiting_shelf,
            self.registered == pre.registered,
            self.threads == pre.threads,
            self.shutdown_state == pre.shutdown_state,
        ensures
            self.wf(),
    {
        let owners = pre.objects_with_owners@;
        let owned = pre.objects_owned@;
        let new = self.objects_with_owners@;
        let newo = self.objects_owned@;
        let b = owners[oi].oid;
        assert forall|i: int, j: int| 0 <= i < j < new.len() implies new[i].oid != new[j].oid by {
            let oi2: int = if i < oi { i } else { i + 1 };
            let oj2: int = if j < oi { j } else { j + 1 };
            assert(new[i] == owners[oi2] && new[j] == owners[oj2]);
        }
        assert forall|i: int, j: int| 0 <= i < j < newo.len() implies newo[i].oid != newo[j].oid by {
            let oi2: int = if i < obji { i } else { i + 1 };
            let oj2: int = if j < obji { j } else { j + 1 };
            assert(newo[i] == owned[oi2] && newo[j] == owned[oj2]);
        }
        assert forall|i: int| 0 <= i < newo.len() implies (#[trigger] newo[i]).wf() by {
            let o2: int = if i < obji { i } else { i + 1 };
            assert(newo[i] == owned[o2]);
        }
        assert forall|i: int| 0 <= i < new.len() implies ((#[trigger] new[i]).owner == 0 <==> has_obj(
            newo,
            new[i].oid,
        )) by {
            let o2: int = if i < oi { i } else { i + 1 };
            assert(new[i] == owners[o2]);
            assert(new[i].oid != b) by {
                if o2 != oi {
                    assert(owners[o2].oid != owners[oi].oid);
                }
            }
            if has_obj(owned, new[i].oid) {
                let w = obj_index(owned, new[i].oid);
                assert(owned[w].oid == new[i].oid);
                assert(w != obji);
                let nw: int = if w < obji { w } else { w - 1 };
                assert(newo[nw] == owned[w]);
            }
            if has_obj(newo, new[i].oid) {
                let w = choose|w: int| 0 <= w < newo.len() && newo[w].oid == new[i].oid;
                let ow: int = if w < obji { w } else { w + 1 };
                assert(owned[ow] == newo[w]);
                assert(has_obj(owned, new[i].oid));
            }
        }
        assert forall|i: int| 0 <= i < new.len() implies ((#[trigger] new[i]).owner != 0
            ==> is_registered(self.registered@, new[i].owner)) by {
            let o2: int = if i < oi { i } else { i + 1 };
            assert(new[i] == owners[o2]);
        }
        assert forall|i: int| 0 <= i < newo.len() implies has_owner(
            new,
            (#[trigger] newo[i]).oid,
        ) by {
            let o2: int = if i < obji { i } else { i + 1 };
            assert(newo[i] == owned[o2]);
            let oid = owned[o2].oid;
            assert(has_owner(owners, oid));
            let w = owner_index(owners, oid);
            assert(owners[w].oid == oid);
            assert(oid != b) by {
                if o2 != obji {
                    assert(owned[o2].oid != owned[obji].oid);
                }
            }
            assert(w != oi);
            let nw: int = if w < oi { w } else { w - 1 };
            assert(new[nw] == owners[w]);
        }
        assert forall|i: int| 0 <= i < self.waiting_shelf@.len() implies has_owner(
            new,
            (#[trigger] self.waiting_shelf@[i]).oid,
        ) by {
            let oid = self.waiting_shelf@[i].oid;
            assert(has_owner(owners, oid));
            let w = owner_index(owners, oid);
            assert(owners[w].oid == oid);
            assert(w != oi);
            let nw: int = if w < oi { w } else { w - 1 };
            assert(new[nw] == owners[w]);
        }
    }

    /// Handing a broker-held object to a registered thread (row rewritten
    /// to the thread, object taken out of the held set) keeps the broker
    /// well formed.
    proof fn lemma_object_granted(&self, pre: ObjectBroker, oi: int, obji: int, a: u64)
        requires
            pre.wf(),
            a != 0,
            is_registered(pre.registered@, a),
            0 <= oi < pre.objects_with_owners@.len(),
            0 <= obji < pre.objects_owned@.len(),
            pre.objects_with_owners@[oi].owner == 0,
            pre.objects_with_owners@[oi].oid == pre.objects_owned@[obji].oid,
            self.objects_with_owners@ == pre.objects_with_owners@.update(
                oi,
                OwnerEntry { oid: pre.objects_with_owners@[oi].oid, owner: a },
            ),
            self.objects_owned@ == pre.objects_owned@.remove(obji),
            self.waiting_shelf == pre.waiting_shelf,
            self.registered == pre.registered,
            self.threads == pre.threads,
            self.shutdown_state == pre.shutdown_state,
        ensures
            self.wf(),
    {
        let owners = pre.objects_with_owners@;
        let owned = pre.objects_owned@;
        let new = self.objects_with_owners@;
        let newo = self.objects_owned@;
        let b = owners[oi].oid;
        assert forall|i: int, j: int| 0 <= i < j < new.len() implies new[i].oid != new[j].oid by {
            assert(new[i].oid == owners[i].oid);
            assert(new[j].oid == owners[j].oid);
        }
        assert forall|i: int, j: int| 0 <= i < j < newo.len() implies newo[i].oid != newo[j].oid by {
            let oi2: int = if i < obji { i } else { i + 1 };
            let oj2: int = if j < obji { j } else { j + 1 };
            assert(newo[i] == owned[oi2] && newo[j] == owned[oj2]);
        }
        assert forall|i: int| 0 <= i < newo.len() implies (#[trigger] newo[i]).wf() by {
            let o2: int = if i < obji { i } else { i + 1 };
            assert(newo[i] == owned[o2]);
        }
        assert forall|i: int| 0 <= i < new.len() implies ((#[trigger] new[i]).owner == 0 <==> has_obj(
            newo,
            new[i].oid,
        )) by {
            if i != oi {
                assert(new[i] == owners[i]);
                assert(new[i].oid != b);
                if has_obj(owned, new[i].oid) {
                    let w = obj_index(owned, new[i].oid);
                    assert(owned[w].oid == new[i].oid);
                    assert(w != obji);
                    let nw: int = if w < obji { w } else { w - 1 };
                    assert(newo[nw] == owned[w]);
                }
                if has_obj(newo, new[i].oid) {
                    let w = choose|w: int| 0 <= w < newo.len() && newo[w].oid == new[i].oid;
                    let ow: int = if w < obji { w } else { w + 1 };
                    assert(owned[ow] == newo[w]);
                    assert(has_obj(owned, new[i].oid));
                }
            } else {
                if has_obj(newo, b) {
                    let w = choose|w: int| 0 <= w < newo.len() && newo[w].oid == b;
                    let ow: int = if w < obji { w } else { w + 1 };
                    assert(owned[ow] == newo[w]);
                    assert(owned[ow].oid == owned[obji].oid);
                }
            }
        }
        assert forall|i: int| 0 <= i < new.len() implies ((#[trigger] new[i]).owner != 0
            ==> is_registered(self.registered@, new[i].owner)) by {
            if i != oi {
                assert(new[i] == owners[i]);
            }
        }
        assert forall|i: int| 0 <= i < newo.len() implies has_owner(
            new,
            (#[trigger] newo[i]).oid,
        ) by {
            let o2: int = if i < obji { i } else { i + 1 };
            assert(newo[i] == owned[o2]);
            let oid = owned[o2].oid;
            assert(has_owner(owners, oid));
            let w = owner_index(owners, oid);
            assert(owners[w].oid == oid);
            assert(new[w].oid == owners[w].oid);
        }
        assert forall|i: int| 0 <= i < self.waiting_shelf@.len() implies has_owner(
            new,
            (#[trigger] self.waiting_shelf@[i]).oid,
        ) by {
            let oid = self.waiting_shelf@[i].oid;
            assert(has_owner(owners, oid));
            let w = owner_index(owners, oid);
            assert(owners[w].oid == oid);
            assert(new[w].oid == owners[w].oid);
        }
    }

    /// The position of `tid` in the registration list (unique while the
    /// broker is well formed).
    pub open spec fn reg_index(rs: Seq<u64>, tid: u64) -> int {
        choose|i: int| 0 <= i < rs.len() && rs[i] == tid
    }

    /// The exact transition of a shutdown trigger with the given exit
    /// code.  A repeated trigger changes nothing: the first exit code
    /// wins.  Otherwise every registered thread is told to shut down,
    /// and, when none is left, the machine handle is told the protocol
    /// finished.
    pub open spec fn shutdown_step(
        pre: ObjectBroker,
        code: i64,
        post: ObjectBroker,
        out: BrokerOutput,
    ) -> bool {
        &&& post.threads == pre.threads
        &&& post.objects_with_owners == pre.objects_with_owners
        &&& post.objects_owned == pre.objects_owned
        &&& post.registered == pre.registered
        &&& post.waiting_shelf == pre.waiting_shelf
        &&& out.replay@.len() == 0
        &&& out.running == true
        &&& if !(pre.shutdown_state is NOT_IN_SHUTDOWN) {
            &&& post.shutdown_state == pre.shutdown_state
            &&& post.exit_code == pre.exit_code
            &&& out.thread_messages@.len() == 0
            &&& out.vm_messages@.len() == 0
        } else {
            &&& post.exit_code == code
            &&& out.thread_messages@.len() == pre.registered@.len()
            &&& forall|i: int|
                0 <= i < pre.registered@.len() ==> out.thread_messages@[i] == (
                pre.registered@[i],
                ObjectBrokerMessage::OB_SHUTDOWN(0, code),
                )
            &&& if pre.registered@.len() == 0 {
                post.shutdown_state is SHUT_DOWN && out.vm_messages@ == seq![
                    BrokerToVMControlMessage::BROKER_TO_VM_DID_SHUTDOWN(code),
                ]
            } else {
                post.shutdown_state is SHUTTING_DOWN && out.vm_messages@.len() == 0
            }
        }
    }

    /// Start (or ignore, when already started) the shutdown protocol.
    pub fn shutdown_protocol(&mut self, exit_code: i64) -> (out: BrokerOutput)
        requires
            old(self).wf(),
        ensures
            final(self).wf(),
            ObjectBroker::shutdown_step(*old(self), exit_code, *final(self), out),
    {
        let mut out = BrokerOutput {
            thread_messages: Vec::new(),
            vm_messages: Vec::new(),
            replay: Vec::new(),
            running: true,
        };
        match self.shutdown_state {
            ShutdownState::NOT_IN_SHUTDOWN => {},
            _ => {
                return out;
            },
        }
        self.exit_code = exit_code;
        let mut i: usize = 0;
        while i < self.registered.len()
            invariant
                0 <= i <= self.registered@.len(),
                out.thread_messages@.len() == i,
                forall|j: int|
                    0 <= j < i ==> out.thread_messages@[j] == (
                    self.registered@[j],
                    ObjectBrokerMessage::OB_SHUTDOWN(0, exit_code),
                    ),
                out.vm_messages@.len() == 0,
                out.replay@.len() == 0,
                out.running == true,
                *self == (ObjectBroker { exit_code, ..*old(self) }),
            decreases self.registered@.len() - i,
        {
            out.thread_messages.push(
                (self.registered[i], ObjectBrokerMessage::OB_SHUTDOWN(0, exit_code)),
            );
            i += 1;
        }
        if self.registered.len() == 0 {
            self.shutdown_state = ShutdownState::SHUT_DOWN;
            out.vm_messages.push(
                BrokerToVMControlMessage::BROKER_TO_VM_DID_SHUTDOWN(exit_code),
            );
            proof {
                assert(out.vm_messages@ =~= seq![
                    BrokerToVMControlMessage::BROKER_TO_VM_DID_SHUTDOWN(exit_code),
                ]);
            }
        } else {
            self.shutdown_state = ShutdownState::SHUTTING_DOWN;
        }
        out
    }

    /// The exact transition of a thread registering: it gets a channel
    /// and joins the registry in the default group as a non-daemon.
    pub open spec fn register_step(pre: ObjectBroker, a: u64, post: ObjectBroker) -> bool {
        &&& post.registered@ == pre.registered@.push(a)
        &&& post.objects_with_owners == pre.objects_with_owners
        &&& post.objects_owned == pre.objects_owned
        &&& post.waiting_shelf == pre.waiting_shelf
        &&& post.shutdown_state == pre.shutdown_state
        &&& post.exit_code == pre.exit_code
        &&& post.threads.threads@.len() == pre.threads.threads@.len() + 1
        &&& post.threads.threads@.drop_last() == pre.threads.threads@
        &&& post.threads.threads@.last().tid == a
        &&& post.threads.threads@.last().gid == 0
        &&& post.threads.threads@.last().daemon == false
        &&& post.threads.groups@ == pre.threads.groups@
        &&& post.threads.state is TMS_Running
    }

    /// Register thread `a`: record its channel and add it to the thread
    /// registry.
    #[verifier::spinoff_prover]
    pub fn handle_register(&mut self, a: u64)
        requires
            old(self).wf(),
            a != 0,
            !has_tid(old(self).threads.threads@, a),
            !(old(self).shutdown_state is SHUT_DOWN),
        ensures
            final(self).wf(),
            ObjectBroker::register_step(*old(self), a, *final(self)),
    {
        proof {
            assert(has_gid(self.threads.groups@, 0)) by {
                assert(self.threads.groups@[0].gid == 0);
            }
        }
        let r = self.threads.add_thread(a, 0);
        proof {
            if r is Err {
                assert(false);
            }
        }
        self.registered.push(a);
        proof {
            ObjectBroker::lemma_registered_extended(*old(self), *self, a);
        }
    }

    /// Registering a fresh thread (pushed to the list, added to the
    /// registry) keeps the broker well formed.
    proof fn lemma_registered_extended(pre: ObjectBroker, post: ObjectBroker, a: u64)
        requires
            pre.wf(),
            a != 0,
            post.registered@ == pre.registered@.push(a),
            post.objects_with_owners == pre.objects_with_owners,
            post.objects_owned == pre.objects_owned,
            post.waiting_shelf == pre.waiting_shelf,
            post.shutdown_state == pre.shutdown_state,
            post.threads.wf(),
            post.threads.threads@.len() == pre.threads.threads@.len() + 1,
            post.threads.threads@.drop_last() == pre.threads.threads@,
            post.threads.threads@.last().tid == a,
            !(post.shutdown_state is SHUT_DOWN),
        ensures
            post.wf(),
    {
        let rs = post.registered@;
        let old_rs = pre.registered@;
        assert forall|i: int| 0 <= i < rs.len() implies rs[i] == (
        #[trigger] post.threads.threads@[i]).tid by {
            if i < rs.len() - 1 {
                assert(rs[i] == old_rs[i]);
                assert(post.threads.threads@[i] == post.threads.threads@.drop_last()[i]);
            }
        }
        assert forall|i: int|
            0 <= i < post.objects_with_owners@.len() implies ((
        #[trigger] post.objects_with_owners@[i]).owner != 0 ==> is_registered(
            rs,
            post.objects_with_owners@[i].owner,
        )) by {
            if post.objects_with_owners@[i].owner != 0 {
                assert(is_registered(old_rs, pre.objects_with_owners@[i].owner));
                let w = choose|w: int|
                    0 <= w < old_rs.len() && old_rs[w] == post.objects_with_owners@[i].owner;
                assert(rs[w] == old_rs[w]);
            }
        }
    }

    /// The exact transition of a thread unregistering: its channel goes
    /// away, the broker takes over every object it still owned, the
    /// registry drops it, and, when that was the last non-daemon thread,
    /// shutdown begins with exit code 0.
    pub open spec fn unregister_step(
        pre: ObjectBroker,
        a: u64,
        objs: Seq<JavaObject>,
        post: ObjectBroker,
        out: BrokerOutput,
    ) -> bool {
        let ri = ObjectBroker::reg_index(pre.registered@, a);
        let owners = pre.objects_with_owners@;
        let nd = count_nondaemon(post.threads.threads@);
        let empty = post.registered@.len() == 0;
        &&& post.registered@ == pre.registered@.remove(ri)
        &&& post.objects_owned@ == pre.objects_owned@ + objs
        &&& post.objects_with_owners@.len() == owners.len()
        &&& forall|i: int|
            0 <= i < owners.len() ==> (#[trigger] post.objects_with_owners@[i]).oid
                == owners[i].oid
        &&& forall|i: int|
            0 <= i < owners.len() ==> (#[trigger] post.objects_with_owners@[i]).owner == (
            if has_obj(objs, owners[i].oid) {
                0
            } else {
                owners[i].owner
            })
        &&& forall|i: int|
            0 <= i < post.objects_with_owners@.len() ==> (
            #[trigger] post.objects_with_owners@[i]).owner != a
        &&& post.waiting_shelf == pre.waiting_shelf
        &&& post.threads.threads@ == pre.threads.threads@.remove(ri)
        &&& post.threads.groups@ == pre.threads.groups@
        &&& post.threads.stopped_threads@ == pre.threads.stopped_threads@.push(
            pre.threads.threads@[ri],
        )
        &&& post.threads.alive_nondaemon_count == nd
        &&& (post.threads.state is TMS_AllNonDaemonsDead <==> nd == 0)
        &&& (post.threads.state is TMS_Running <==> nd > 0)
        &&& out.replay@.len() == 0
        &&& out.running == true
        &&& if nd > 0 {
            &&& post.shutdown_state == pre.shutdown_state
            &&& post.exit_code == pre.exit_code
            &&& out.thread_messages@.len() == 0
            &&& out.vm_messages@.len() == 0
        } else if pre.shutdown_state is NOT_IN_SHUTDOWN {
            &&& post.exit_code == 0
            &&& out.thread_messages@.len() == post.registered@.len()
            &&& forall|i: int|
                0 <= i < post.registered@.len() ==> out.thread_messages@[i] == (
                post.registered@[i],
                ObjectBrokerMessage::OB_SHUTDOWN(0, 0),
                )
            &&& if empty {
                post.shutdown_state is SHUT_DOWN && out.vm_messages@ == seq![
                    BrokerToVMControlMessage::BROKER_TO_VM_DID_SHUTDOWN(0),
                ]
            } else {
                post.shutdown_state is SHUTTING_DOWN && out.vm_messages@.len() == 0
            }
        } else {
            &&& post.exit_code == pre.exit_code
            &&& out.thread_messages@.len() == 0
            &&& if empty {
                post.shutdown_state is SHUT_DOWN && out.vm_messages@ == seq![
                    BrokerToVMControlMessage::BROKER_TO_VM_DID_SHUTDOWN(pre.exit_code),
                ]
            } else {
                post.shutdown_state == pre.shutdown_state && out.vm_messages@.len() == 0
            }
        }
    }

    /// When an unregistration is free of protocol violations: the thread
    /// is registered, and it hands over exactly the objects the map says
    /// it owns, each alive.
    pub open spec fn valid_unregister(&self, a: u64, objs: Seq<JavaObject>) -> bool {
        &&& is_registered(self.registered@, a)
        &&& forall|i: int, j: int| 0 <= i < j < objs.len() ==> objs[i].oid != objs[j].oid
        &&& forall|i: int| 0 <= i < objs.len() ==> (#[trigger] objs[i]).wf()
        &&& forall|i: int|
            0 <= i < objs.len() ==> has_owner(
                self.objects_with_owners@,
                (#[trigger] objs[i]).oid,
            ) && owner_of(self.objects_with_owners@, objs[i].oid) == a
        &&& forall|i: int|
            0 <= i < self.objects_with_owners@.len() && (
            #[trigger] self.objects_with_owners@[i]).owner == a ==> has_obj(
                objs,
                self.objects_with_owners@[i].oid,
            )
    }

    /// Unregister thread `a`, taking over the objects it hands back.
    pub fn handle_unregister(&mut self, a: u64, objs: Vec<JavaObject>) -> (out: BrokerOutput)
        requires
            old(self).wf(),
            old(self).valid_unregister(a, objs@),
        ensures
            final(self).wf(),
            ObjectBroker::unregister_step(*old(self), a, objs@, *final(self), out),
    {
        let ghost objs0 = objs@;
        let mut objs = objs;
        // take over every handed object: record the broker as its owner
        // and hold it
        let mut k: usize = 0;
        let n = objs.len();
        while k < n
            invariant
                0 <= k <= n == objs0.len(),
                objs@ == objs0.skip(k as int),
                self.wf(),
                old(self).wf(),
                old(self).valid_unregister(a, objs0),
                a != 0,
                self.threads == old(self).threads,
                self.registered == old(self).registered,
                self.waiting_shelf == old(self).waiting_shelf,
                self.shutdown_state == old(self).shutdown_state,
                self.exit_code == old(self).exit_code,
                self.objects_owned@ == old(self).objects_owned@ + objs0.take(k as int),
                self.objects_with_owners@.len() == old(self).objects_with_owners@.len(),
                forall|i: int|
                    0 <= i < self.objects_with_owners@.len() ==> (
                    #[trigger] self.objects_with_owners@[i]).oid == old(
                        self,
                    ).objects_with_owners@[i].oid,
                forall|i: int|
                    0 <= i < self.objects_with_owners@.len() ==> (
                    #[trigger] self.objects_with_owners@[i]).owner == (if has_obj(
                        objs0.take(k as int),
                        old(self).objects_with_owners@[i].oid,
                    ) {
                        0
                    } else {
                        old(self).objects_with_owners@[i].owner
                    }),
            decreases n - k,
        {
            let o = objs.remove(0);
            proof {
                assert(o == objs0[k as int]);
                assert(objs@ =~= objs0.skip(k as int + 1));
                assert(has_owner(old(self).objects_with_owners@, o.oid));
                let w = owner_index(old(self).objects_with_owners@, o.oid);
                assert(old(self).objects_with_owners@[w].oid == o.oid);
                assert(has_owner(self.objects_with_owners@, o.oid)) by {
                    assert(self.objects_with_owners@[w].oid == o.oid);
                }
            }
            let oi = match self.find_owner_index(o.oid) {
                Some(i) => i,
                None => {
                    proof {
                        assert(false);
                    }
                    0
                },
            };
            let ghost mid = *self;
            let ghost obj = o;
            self.objects_with_owners.set(oi, OwnerEntry { oid: o.oid, owner: 0 });
            self.objects_owned.push(o);
            proof {
                let owners = mid.objects_with_owners@;
                let new = self.objects_with_owners@;
                let newo = self.objects_owned@;
                // the handed object was not already held by the broker
                assert(owner_of(old(self).objects_with_owners@, obj.oid) == a);
                assert(old(self).objects_with_owners@[oi as int].owner == a);
                assert(mid.objects_with_owners@[oi as int].owner != 0) by {
                    if has_obj(objs0.take(k as int), obj.oid) {
                        let w = choose|w: int|
                            0 <= w < k && objs0.take(k as int)[w].oid == obj.oid;
                        assert(objs0[w].oid == objs0[k as int].oid);
                    }
                }
                assert(!has_obj(mid.objects_owned@, obj.oid)) by {
                    if has_obj(mid.objects_owned@, obj.oid) {
                        let w = obj_index(mid.objects_owned@, obj.oid);
                        assert(has_owner(owners, mid.objects_owned@[w].oid));
                        assert(owners[owner_index(owners, obj.oid)].oid == obj.oid);
                        assert(owners[oi as int].owner == 0);
                    }
                }
                assert(newo =~= mid.objects_owned@.push(obj));
                assert(newo =~= old(self).objects_owned@ + objs0.take(k as int + 1));
                assert forall|i: int, j: int| 0 <= i < j < newo.len() implies newo[i].oid
                    != newo[j].oid by {
                    if j < newo.len() - 1 {
                        assert(newo[i] == mid.objects_owned@[i] && newo[j]
                            == mid.objects_owned@[j]);
                    } else {
                        assert(newo[i] == mid.objects_owned@[i]);
                        assert(newo[j] == obj);
                    }
                }
                assert forall|i: int| 0 <= i < newo.len() implies (#[trigger] newo[i]).wf() by {
                    if i < newo.len() - 1 {
                        assert(newo[i] == mid.objects_owned@[i]);
                    } else {
                        assert(newo[i] == obj);
                        assert(objs0[k as int].wf());
                    }
                }
                assert forall|i: int, j: int| 0 <= i < j < new.len() implies new[i].oid
                    != new[j].oid by {
                    assert(new[i].oid == owners[i].oid && new[j].oid == owners[j].oid);
                }
                assert forall|i: int| 0 <= i < new.len() implies ((#[trigger] new[i]).owner == 0
                    <==> has_obj(newo, new[i].oid)) by {
                    if i == oi {
                        assert(newo.last().oid == obj.oid);
                    } else {
                        assert(new[i] == owners[i]);
                        assert(new[i].oid != obj.oid) by {
                            assert(owners[i].oid == old(self).objects_with_owners@[i].oid);
                            assert(owners[oi as int].oid == obj.oid);
                        }
                        if has_obj(mid.objects_owned@, new[i].oid) {
                            let w = obj_index(mid.objects_owned@, new[i].oid);
                            assert(newo[w] == mid.objects_owned@[w]);
                        }
                        if has_obj(newo, new[i].oid) {
                            let w = choose|w: int|
                                0 <= w < newo.len() && newo[w].oid == new[i].oid;
                            assert(w < newo.len() - 1);
                            assert(mid.objects_owned@[w] == newo[w]);
                            assert(has_obj(mid.objects_owned@, new[i].oid));
                        }
                    }
                }
                assert forall|i: int| 0 <= i < new.len() implies ((#[trigger] new[i]).owner != 0
                    ==> is_registered(self.registered@, new[i].owner)) by {
                    if i != oi {
                        assert(new[i] == owners[i]);
                    }
                }
                assert forall|i: int| 0 <= i < newo.len() implies has_owner(
                    new,
                    (#[trigger] newo[i]).oid,
                ) by {
                    if i < newo.len() - 1 {
                        assert(newo[i] == mid.objects_owned@[i]);
                        let w = owner_index(owners, newo[i].oid);
                        assert(has_owner(owners, newo[i].oid));
                        assert(new[w].oid == owners[w].oid);
                    } else {
                        assert(new[oi as int].oid == obj.oid);
                    }
                }
                assert forall|i: int| 0 <= i < self.waiting_shelf@.len() implies has_owner(
                    new,
                    (#[trigger] self.waiting_shelf@[i]).oid,
                ) by {
                    let w = owner_index(owners, self.waiting_shelf@[i].oid);
                    assert(has_owner(owners, self.waiting_shelf@[i].oid));
                    assert(new[w].oid == owners[w].oid);
                }
                assert forall|i: int|
                    0 <= i < new.len() implies (#[trigger] new[i]).owner == (if has_obj(
                    objs0.take(k as int + 1),
                    old(self).objects_with_owners@[i].oid,
                ) {
                    0
                } else {
                    old(self).objects_with_owners@[i].owner
                }) by {
                    let take1 = objs0.take(k as int + 1);
                    assert(take1 =~= objs0.take(k as int).push(obj));
                    if i == oi {
                        assert(take1.last().oid == old(self).objects_with_owners@[i].oid);
                    } else {
                        assert(new[i] == owners[i]);
                        assert(new[i].oid != obj.oid);
                        if has_obj(take1, old(self).objects_with_owners@[i].oid) {
                            let w = choose|w: int|
                                0 <= w < take1.len() && take1[w].oid == old(
                                    self,
                                ).objects_with_owners@[i].oid;
                            assert(w < take1.len() - 1);
                            assert(objs0.take(k as int)[w] == take1[w]);
                            assert(has_obj(
                                objs0.take(k as int),
                                old(self).objects_with_owners@[i].oid,
                            ));
                        }
                        if has_obj(objs0.take(k as int), old(self).objects_with_owners@[i].oid) {
                            let w = choose|w: int|
                                0 <= w < k && objs0.take(k as int)[w].oid == old(
                                    self,
                                ).objects_with_owners@[i].oid;
                            assert(take1[w] == objs0.take(k as int)[w]);
                        }
                    }
                }
            }
            k += 1;
        }
        proof {
            assert(objs0.take(n as int) =~= objs0);
            assert(self.objects_owned@ == old(self).objects_owned@ + objs0);
            assert forall|i: int|
                0 <= i < self.objects_with_owners@.len() implies (
            #[trigger] self.objects_with_owners@[i]).owner != a by {
                if !has_obj(objs0, old(self).objects_with_owners@[i].oid) {
                    assert(old(self).objects_with_owners@[i].owner != a);
                }
            }
        }
        // drop the channel and the registry entry
        let ri = match self.find_registered_index(a) {
            Some(i) => i,
            None => {
                proof {
                    assert(false);
                }
                0
            },
        };
        proof {
            assert(self.threads.threads@[ri as int].tid == a);
            assert(has_tid(self.threads.threads@, a));
            assert(ri as int == ObjectBroker::reg_index(old(self).registered@, a)) by {
                let w = ObjectBroker::reg_index(old(self).registered@, a);
                assert(0 <= w < old(self).registered@.len() && old(self).registered@[w] == a);
                if w != ri {
                    assert(self.threads.threads@[w].tid == a);
                }
            }
        }
        self.registered.remove(ri);
        let ghost mid2 = *self;
        let r = self.threads.remove_thread(a);
        proof {
            if r is Err {
                assert(false);
            }
            assert(index_of_tid(mid2.threads.threads@, a) == ri as int) by {
                let w = index_of_tid(mid2.threads.threads@, a);
                assert(0 <= w < mid2.threads.threads@.len() && mid2.threads.threads@[w].tid == a);
                if w != ri {
                    assert(old(self).registered@[w] == a);
                    assert(old(self).registered@[ri as int] == a);
                    assert(mid2.threads.threads@[w].tid != mid2.threads.threads@[ri as int].tid);
                }
            }
            // the pointwise list correspondence survives the twin removal
            assert forall|i: int|
                0 <= i < self.registered@.len() implies self.registered@[i] == (
            #[trigger] self.threads.threads@[i]).tid by {
                if i < ri {
                    assert(self.registered@[i] == old(self).registered@[i]);
                    assert(self.threads.threads@[i] == mid2.threads.threads@[i]);
                } else {
                    assert(self.registered@[i] == old(self).registered@[i + 1]);
                    assert(self.threads.threads@[i] == mid2.threads.threads@[i + 1]);
                }
            }
            assert forall|i: int| 0 <= i < self.registered@.len() implies (
            #[trigger] self.registered@[i]) != 0 by {
                if i < ri {
                    assert(self.registered@[i] == old(self).registered@[i]);
                } else {
                    assert(self.registered@[i] == old(self).registered@[i + 1]);
                }
            }
            // ownership rows never name the leaving thread, so they still
            // name registered threads
            assert forall|i: int|
                0 <= i < self.objects_with_owners@.len() implies ((
            #[trigger] self.objects_with_owners@[i]).owner != 0 ==> is_registered(
                self.registered@,
                self.objects_with_owners@[i].owner,
            )) by {
                if self.objects_with_owners@[i].owner != 0 {
                    assert(is_registered(
                        old(self).registered@,
                        self.objects_with_owners@[i].owner,
                    ));
                    let w = choose|w: int|
                        0 <= w < old(self).registered@.len() && old(self).registered@[w]
                            == self.objects_with_owners@[i].owner;
                    assert(self.objects_with_owners@[i].owner != a);
                    assert(w != ri);
                    let nw: int = if w < ri { w } else { w - 1 };
                    assert(self.registered@[nw] == old(self).registered@[w]);
                }
            }
        }
        // the last non-daemon thread leaving starts the shutdown protocol
        let mut out = match self.threads.get_state() {
            ThreadManagerState::TMS_AllNonDaemonsDead => self.shutdown_protocol(0),
            _ => BrokerOutput {
                thread_messages: Vec::new(),
                vm_messages: Vec::new(),
                replay: Vec::new(),
                running: true,
            },
        };
        // during shutdown, the last thread leaving finishes the protocol
        let finish = match self.shutdown_state {
            ShutdownState::SHUTTING_DOWN => self.registered.len() == 0,
            _ => false,
        };
        if finish {
            self.shutdown_state = ShutdownState::SHUT_DOWN;
            let code = self.exit_code;
            out.vm_messages.push(BrokerToVMControlMessage::BROKER_TO_VM_DID_SHUTDOWN(code));
            proof {
                assert(out.vm_messages@ =~= seq![
                    BrokerToVMControlMessage::BROKER_TO_VM_DID_SHUTDOWN(code),
                ]);
            }
        }
        out
    }

    /// When a message is free of protocol violations and may be handed to
    /// the dispatcher.
    pub open spec fn valid_message(&self, msg: ObjectBrokerMessage) -> bool {
        match msg {
            ObjectBrokerMessage::OB_REMOTE_OBJECT_OP(a, b, op) => self.valid_object_op(a, b, op),
            ObjectBrokerMessage::OB_REGISTER(a) => a != 0 && !has_tid(self.threads.threads@, a)
                && !(self.shutdown_state is SHUT_DOWN),
            ObjectBrokerMessage::OB_UNREGISTER(a, objs) => self.valid_unregister(a, objs@),
            ObjectBrokerMessage::OB_THREAD_REMOTE_OP(_a, _d, op) => !(
            op is THREAD_NOTIFY_TERMINATION),
            ObjectBrokerMessage::OB_VM_TO_BROKER(c) => c is VM_TO_BROKER_DO_SHUTDOWN || (
            self.shutdown_state is SHUT_DOWN),
            ObjectBrokerMessage::OB_SHUTDOWN(_a, _code) => true,
        }
    }

    /// The exact transition of the whole dispatcher, message by message.
    pub open spec fn message_step(
        pre: ObjectBroker,
        msg: ObjectBrokerMessage,
        post: ObjectBroker,
        out: BrokerOutput,
    ) -> bool {
        match msg {
            ObjectBrokerMessage::OB_REMOTE_OBJECT_OP(a, b, op) => ObjectBroker::object_op_step(
                pre,
                a,
                b,
                op,
                post,
                out,
            ),
            ObjectBrokerMessage::OB_REGISTER(a) => ObjectBroker::register_step(pre, a, post)
                && out.thread_messages@.len() == 0 && out.vm_messages@.len() == 0
                && out.replay@.len() == 0 && out.running == true,
            ObjectBrokerMessage::OB_UNREGISTER(a, objs) => ObjectBroker::unregister_step(
                pre,
                a,
                objs@,
                post,
                out,
            ),
            ObjectBrokerMessage::OB_THREAD_REMOTE_OP(_a, _d, _op) => post == pre
                && out.thread_messages@.len() == 0 && out.vm_messages@.len() == 0
                && out.replay@.len() == 0 && out.running == true,
            ObjectBrokerMessage::OB_VM_TO_BROKER(c) => match c {
                VMToBrokerControlMessage::VM_TO_BROKER_DO_SHUTDOWN => ObjectBroker::shutdown_step(
                    pre,
                    EXIT_CODE_VM_INITIATED_SHUTDOWN,
                    post,
                    out,
                ),
                VMToBrokerControlMessage::VM_TO_BROKER_ACK_SHUTDOWN => post == pre
                    && out.thread_messages@.len() == 0 && out.vm_messages@.len() == 0
                    && out.replay@.len() == 0 && out.running == false,
            },
            ObjectBrokerMessage::OB_SHUTDOWN(_a, code) => ObjectBroker::shutdown_step(
                pre,
                code,
                post,
                out,
            ),
        }
    }

    /// Consume one message: the heart of the broker task.  The caller
    /// delivers the returned messages, feeds the replay list back first,
    /// and stops the loop once `running` goes false (after the machine
    /// handle acknowledged shutdown).
    pub fn handle_message(&mut self, msg: ObjectBrokerMessage) -> (out: BrokerOutput)
        requires
            old(self).wf(),
            old(self).valid_message(msg),
        ensures
            final(self).wf(),
            ObjectBroker::message_step(*old(self), msg, *final(self), out),
    {
        match msg {
            ObjectBrokerMessage::OB_REMOTE_OBJECT_OP(a, b, op) => self.handle_object_op(a, b, op),
            ObjectBrokerMessage::OB_REGISTER(a) => {
                self.handle_register(a);
                BrokerOutput {
                    thread_messages: Vec::new(),
                    vm_messages: Vec::new(),
                    replay: Vec::new(),
                    running: true,
                }
            },
            ObjectBrokerMessage::OB_UNREGISTER(a, objs) => self.handle_unregister(a, objs),
            ObjectBrokerMessage::OB_THREAD_REMOTE_OP(a, d, op) => {
                let r = self.threads.process_message(a, d, op);
                proof {
                    if r is Err {
                        assert(false);
                    }
                }
                BrokerOutput {
                    thread_messages: Vec::new(),
                    vm_messages: Vec::new(),
                    replay: Vec::new(),
                    running: true,
                }
            },
            ObjectBrokerMessage::OB_VM_TO_BROKER(c) => match c {
                VMToBrokerControlMessage::VM_TO_BROKER_DO_SHUTDOWN => self.shutdown_protocol(
                    EXIT_CODE_VM_INITIATED_SHUTDOWN,
                ),
                VMToBrokerControlMessage::VM_TO_BROKER_ACK_SHUTDOWN => {
                    // the machine handle saw the shutdown report: the
                    // broker task may end
                    BrokerOutput {
                        thread_messages: Vec::new(),
                        vm_messages: Vec::new(),
                        replay: Vec::new(),
                        running: false,
                    }
                },
            },
            ObjectBrokerMessage::OB_SHUTDOWN(_a, code) => self.shutdown_protocol(code),
        }
    }

    /// Decide at run time whether an object operation is free of
    /// protocol violations.
    fn check_object_op(&self, a: u64, b: u64, op: &RemoteObjectOpMessage) -> (r: bool)
        requires
            self.wf(),
        ensures
            r == self.valid_object_op(a, b, *op),
    {
        if a == 0 {
            return false;
        }
        let shelved = self.find_shelf_index(b).is_some();
        match op {
            RemoteObjectOpMessage::REMOTE_WHO_OWNS => self.find_owner_index(b).is_some()
                && self.find_registered_index(a).is_some(),
            RemoteObjectOpMessage::REMOTE_DISOWN(obj, rec) => {
                match self.find_owner_index(b) {
                    None => false,
                    Some(oi) => self.objects_with_owners[oi].owner == a
                        && self.find_registered_index(*rec).is_some() && shelved && obj.get_oid()
                        == b && obj.check_wf(),
                }
            },
            RemoteObjectOpMessage::REMOTE_ADD_REF => {
                if shelved {
                    return true;
                }
                match self.find_owner_index(b) {
                    None => self.find_registered_index(a).is_some(),
                    Some(oi) => {
                        let owner = self.objects_with_owners[oi].owner;
                        if owner == 0 {
                            let obji = match self.find_owned_index(b) {
                                Some(i) => i,
                                None => {
                                    proof {
                                        assert(false);
                                    }
                                    0
                                },
                            };
                            self.objects_owned[obji].ref_count < usize::MAX
                        } else {
                            true
                        }
                    },
                }
            },
            RemoteObjectOpMessage::REMOTE_RELEASE => shelved || self.find_owner_index(b).is_some(),
            RemoteObjectOpMessage::REMOTE_OWN(_) => {
                if shelved {
                    return true;
                }
                match self.find_owner_index(b) {
                    None => false,
                    Some(oi) => {
                        let owner = self.objects_with_owners[oi].owner;
                        if owner == a {
                            false
                        } else if owner == 0 {
                            self.find_registered_index(a).is_some()
                        } else {
                            true
                        }
                    },
                }
            },
        }
    }

    /// Whether some thread with id `tid` stands in the registry's list.
    fn find_tid(&self, tid: u64) -> (r: bool)
        ensures
            r == has_tid(self.threads.threads@, tid),
    {
        let mut i: usize = 0;
        while i < self.threads.threads.len()
            invariant
                0 <= i <= self.threads.threads@.len(),
                forall|j: int| 0 <= j < i ==> self.threads.threads@[j].tid != tid,
            decreases self.threads.threads@.len() - i,
        {
            if self.threads.threads[i].tid == tid {
                return true;
            }
            i += 1;
        }
        false
    }

    /// Decide at run time whether an unregistration is free of protocol
    /// violations: the thread is registered and hands over exactly the
    /// alive objects it owns.
    fn check_unregister(&self, a: u64, objs: &Vec<JavaObject>) -> (r: bool)
        requires
            self.wf(),
        ensures
            r == self.valid_unregister(a, objs@),
    {
        if self.find_registered_index(a).is_none() {
            return false;
        }
        let n = objs.len();
        let mut i: usize = 0;
        while i < n
            invariant
                0 <= i <= n == objs@.len(),
                self.wf(),
                forall|x: int, y: int| 0 <= x < y < n && x < i ==> objs@[x].oid != objs@[y].oid,
                forall|x: int| 0 <= x < i ==> (#[trigger] objs@[x]).wf(),
                forall|x: int|
                    0 <= x < i ==> has_owner(self.objects_with_owners@, (#[trigger] objs@[x]).oid)
                        && owner_of(self.objects_with_owners@, objs@[x].oid) == a,
            decreases n - i,
        {
            if !objs[i].check_wf() {
                return false;
            }
            match self.find_owner_index(objs[i].get_oid()) {
                None => {
                    return false;
                },
                Some(oi) => {
                    if self.objects_with_owners[oi].owner != a {
                        return false;
                    }
                },
            }
            let mut j: usize = i + 1;
            while j < n
                invariant
                    i < j <= n == objs@.len(),
                    forall|y: int| i < y < j ==> objs@[i as int].oid != objs@[y].oid,
                decreases n - j,
            {
                if objs[j].get_oid() == objs[i].get_oid() {
                    return false;
                }
                j += 1;
            }
            i += 1;
        }
        let m = self.objects_with_owners.len();
        let mut k: usize = 0;
        while k < m
            invariant
                0 <= k <= m == self.objects_with_owners@.len(),
                self.wf(),
                forall|x: int|
                    0 <= x < k && (#[trigger] self.objects_with_owners@[x]).owner == a ==> has_obj(
                        objs@,
                        self.objects_with_owners@[x].oid,
                    ),
            decreases m - k,
        {
            if self.objects_with_owners[k].owner == a {
                if !vec_has_oid(objs, self.objects_with_owners[k].oid) {
                    return false;
                }
            }
            k += 1;
        }
        true
    }

    /// Decide at run time whether a message is free of protocol
    /// violations and may be handed to the dispatcher.  The surrounding
    /// program checks every message with this before dispatching it —
    /// drained shelf messages included — and treats a refusal as a fatal
    /// logic error.
    pub fn check_message(&self, msg: &ObjectBrokerMessage) -> (r: bool)
        requires
            self.wf(),
        ensures
            r == self.valid_message(*msg),
    {
        match msg {
            ObjectBrokerMessage::OB_REMOTE_OBJECT_OP(a, b, op) => self.check_object_op(*a, *b, op),
            ObjectBrokerMessage::OB_REGISTER(a) => *a != 0 && !self.find_tid(*a) && match self.shutdown_state {
                ShutdownState::SHUT_DOWN => false,
                _ => true,
            },
            ObjectBrokerMessage::OB_UNREGISTER(a, objs) => self.check_unregister(*a, objs),
            ObjectBrokerMessage::OB_THREAD_REMOTE_OP(_a, _d, op) => match op {
                RemoteThreadOpMessage::THREAD_NOTIFY_TERMINATION => false,
                _ => true,
            },
            ObjectBrokerMessage::OB_VM_TO_BROKER(c) => match c {
                VMToBrokerControlMessage::VM_TO_BROKER_DO_SHUTDOWN => true,
                VMToBrokerControlMessage::VM_TO_BROKER_ACK_SHUTDOWN => match self.shutdown_state {
                    ShutdownState::SHUT_DOWN => true,
                    _ => false,
                },
            },
            ObjectBrokerMessage::OB_SHUTDOWN(_a, _code) => true,
        }
    }

    /// Dispatch one object operation from thread `a` about object `b`.
    /// The result carries the messages to deliver and, after a transfer,
    /// the drained shelf messages to replay.
    pub fn handle_object_op(&mut self, a: u64, b: JavaObjectId, op: RemoteObjectOpMessage) -> (out:
        BrokerOutput)
        requires
            old(self).wf(),
            old(self).valid_object_op(a, b, op),
        ensures
            final(self).wf(),
            ObjectBroker::object_op_step(*old(self), a, b, op, *final(self), out),
    {
        let mut out = BrokerOutput {
            thread_messages: Vec::new(),
            vm_messages: Vec::new(),
            replay: Vec::new(),
            running: true,
        };
        // a transfer is handled below; an ownership query passes through;
        // everything else is parked while the object is mid-transfer
        let shelve = match &op {
            RemoteObjectOpMessage::REMOTE_ADD_REF => true,
            RemoteObjectOpMessage::REMOTE_RELEASE => true,
            RemoteObjectOpMessage::REMOTE_OWN(_) => true,
            _ => false,
        };
        if shelve {
            if let Some(si) = self.find_shelf_index(b) {
                let mut entry = self.waiting_shelf.remove(si);
                entry.messages.push(ObjectBrokerMessage::OB_REMOTE_OBJECT_OP(a, b, op));
                self.waiting_shelf.insert(si, entry);
                proof {
                    let shelf = old(self).waiting_shelf@;
                    assert forall|j: int|
                        0 <= j < shelf.len() && j != si implies self.waiting_shelf@[j] == shelf[j]
                    by {
                        if j < si {
                            assert(self.waiting_shelf@[j] == shelf.remove(si as int)[j]);
                        } else {
                            assert(self.waiting_shelf@[j] == shelf.remove(si as int)[j - 1]);
                        }
                    }
                    assert(self.waiting_shelf@[si as int].messages@ == shelf[si as int].messages@
                        .push(ObjectBrokerMessage::OB_REMOTE_OBJECT_OP(a, b, op)));
                    assert forall|i: int, j: int|
                        0 <= i < j < self.waiting_shelf@.len() implies self.waiting_shelf@[i].oid
                        != self.waiting_shelf@[j].oid by {
                        assert(self.waiting_shelf@[i].oid == shelf[i].oid);
                        assert(self.waiting_shelf@[j].oid == shelf[j].oid);
                    }
                }
                return out;
            }
        }
        match op {
            RemoteObjectOpMessage::REMOTE_WHO_OWNS => {
                let oi = match self.find_owner_index(b) {
                    Some(i) => i,
                    None => {
                        proof {
                            assert(false);
                        }
                        0
                    },
                };
                let owner = self.objects_with_owners[oi].owner;
                out.thread_messages.push(
                    (
                        a,
                        ObjectBrokerMessage::OB_REMOTE_OBJECT_OP(
                            owner,
                            b,
                            RemoteObjectOpMessage::REMOTE_WHO_OWNS,
                        ),
                    ),
                );
                out
            },
            RemoteObjectOpMessage::REMOTE_DISOWN(obj, rec) => {
                let oi = match self.find_owner_index(b) {
                    Some(i) => i,
                    None => {
                        proof {
                            assert(false);
                        }
                        0
                    },
                };
                let si = match self.find_shelf_index(b) {
                    Some(i) => i,
                    None => {
                        proof {
                            assert(false);
                        }
                        0
                    },
                };
                self.objects_with_owners.set(oi, OwnerEntry { oid: b, owner: rec });
                let entry = self.waiting_shelf.remove(si);
                out.replay = entry.messages;
                out.thread_messages.push(
                    (
                        rec,
                        ObjectBrokerMessage::OB_REMOTE_OBJECT_OP(
                            a,
                            b,
                            RemoteObjectOpMessage::REMOTE_DISOWN(obj, rec),
                        ),
                    ),
                );
                proof {
                    let owners = old(self).objects_with_owners@;
                    let shelf = old(self).waiting_shelf@;
                    assert(self.objects_with_owners@ == owners.update(
                        oi as int,
                        OwnerEntry { oid: b, owner: rec },
                    ));
                    assert forall|i: int, j: int|
                        0 <= i < j < self.objects_with_owners@.len()
                        implies self.objects_with_owners@[i].oid
                        != self.objects_with_owners@[j].oid by {
                        assert(self.objects_with_owners@[i].oid == owners[i].oid);
                        assert(self.objects_with_owners@[j].oid == owners[j].oid);
                    }
                    // the old owner was a thread, so the broker does not hold b
                    assert(!has_obj(old(self).objects_owned@, b));
                    assert forall|i: int|
                        0 <= i < self.objects_with_owners@.len() implies ((
                    #[trigger] self.objects_with_owners@[i]).owner == 0 <==> has_obj(
                        self.objects_owned@,
                        self.objects_with_owners@[i].oid,
                    )) by {
                        if i != oi {
                            assert(self.objects_with_owners@[i] == owners[i]);
                        }
                    }
                    assert forall|i: int|
                        0 <= i < self.objects_owned@.len() implies has_owner(
                        self.objects_with_owners@,
                        (#[trigger] self.objects_owned@[i]).oid,
                    ) by {
                        let w = owner_index(owners, self.objects_owned@[i].oid);
                        assert(has_owner(owners, self.objects_owned@[i].oid));
                        assert(self.objects_with_owners@[w].oid == owners[w].oid);
                    }
                    assert forall|i: int, j: int|
                        0 <= i < j < self.waiting_shelf@.len() implies self.waiting_shelf@[i].oid
                        != self.waiting_shelf@[j].oid by {
                        let oi2: int = if i < si { i } else { i + 1 };
                        let oj2: int = if j < si { j } else { j + 1 };
                        assert(self.waiting_shelf@[i] == shelf[oi2]);
                        assert(self.waiting_shelf@[j] == shelf[oj2]);
                    }
                    assert forall|i: int|
                        0 <= i < self.waiting_shelf@.len() implies has_owner(
                        self.objects_with_owners@,
                        (#[trigger] self.waiting_shelf@[i]).oid,
                    ) by {
                        let o2: int = if i < si { i } else { i + 1 };
                        assert(self.waiting_shelf@[i] == shelf[o2]);
                        let w = owner_index(owners, shelf[o2].oid);
                        assert(has_owner(owners, shelf[o2].oid));
                        assert(self.objects_with_owners@[w].oid == owners[w].oid);
                    }
                    assert forall|i: int, k: int|
                        0 <= i < self.waiting_shelf@.len() && 0 <= k
                        < self.waiting_shelf@[i].messages@.len() implies shelvable(
                        #[trigger] self.waiting_shelf@[i].messages@[k],
                        self.waiting_shelf@[i].oid,
                    ) by {
                        let o2: int = if i < si { i } else { i + 1 };
                        assert(self.waiting_shelf@[i] == shelf[o2]);
                    }
                }
                out
            },
            RemoteObjectOpMessage::REMOTE_ADD_REF => {
                match self.find_owner_index(b) {
                    None => {
                        self.objects_with_owners.push(OwnerEntry { oid: b, owner: a });
                        proof {
                            self.lemma_owners_extended(*old(self), b, a);
                        }
                    },
                    Some(oi) => {
                        let owner = self.objects_with_owners[oi].owner;
                        if owner == 0 {
                            let obji = match self.find_owned_index(b) {
                                Some(i) => i,
                                None => {
                                    proof {
                                        assert(false);
                                    }
                                    0
                                },
                            };
                            let mut o = self.objects_owned.remove(obji);
                            o.intern_add_ref();
                            self.objects_owned.insert(obji, o);
                            proof {
                                let owned = old(self).objects_owned@;
                                assert(self.objects_owned@ =~= owned.update(
                                    obji as int,
                                    JavaObject {
                                        ref_count: (owned[obji as int].ref_count + 1) as usize,
                                        ..owned[obji as int]
                                    },
                                ));
                                self.lemma_owned_updated(*old(self), obji as int);
                            }
                        } else {
                            out.thread_messages.push(
                                (
                                    owner,
                                    ObjectBrokerMessage::OB_REMOTE_OBJECT_OP(
                                        a,
                                        b,
                                        RemoteObjectOpMessage::REMOTE_ADD_REF,
                                    ),
                                ),
                            );
                        }
                    },
                }
                out
            },
            RemoteObjectOpMessage::REMOTE_RELEASE => {
                let oi = match self.find_owner_index(b) {
                    Some(i) => i,
                    None => {
                        proof {
                            assert(false);
                        }
                        0
                    },
                };
                let owner = self.objects_with_owners[oi].owner;
                if owner == a {
                    self.objects_with_owners.remove(oi);
                    proof {
                        self.lemma_owners_removed(*old(self), oi as int);
                    }
                } else if owner == 0 {
                    let obji = match self.find_owned_index(b) {
                        Some(i) => i,
                        None => {
                            proof {
                                assert(false);
                            }
                            0
                        },
                    };
                    let mut o = self.objects_owned.remove(obji);
                    let alive = o.intern_release();
                    if alive {
                        self.objects_owned.insert(obji, o);
                        proof {
                            let owned = old(self).objects_owned@;
                            assert(self.objects_owned@ =~= owned.update(
                                obji as int,
                                JavaObject {
                                    ref_count: (owned[obji as int].ref_count - 1) as usize,
                                    ..owned[obji as int]
                                },
                            ));
                            self.lemma_owned_updated(*old(self), obji as int);
                        }
                    } else {
                        self.objects_with_owners.remove(oi);
                        proof {
                            self.lemma_object_dropped(*old(self), oi as int, obji as int);
                        }
                    }
                } else {
                    out.thread_messages.push(
                        (
                            owner,
                            ObjectBrokerMessage::OB_REMOTE_OBJECT_OP(
                                a,
                                b,
                                RemoteObjectOpMessage::REMOTE_RELEASE,
                            ),
                        ),
                    );
                }
                out
            },
            RemoteObjectOpMessage::REMOTE_OWN(mode) => {
                let oi = match self.find_owner_index(b) {
                    Some(i) => i,
                    None => {
                        proof {
                            assert(false);
                        }
                        0
                    },
                };
                let owner = self.objects_with_owners[oi].owner;
                if owner == 0 {
                    let obji = match self.find_owned_index(b) {
                        Some(i) => i,
                        None => {
                            proof {
                                assert(false);
                            }
                            0
                        },
                    };
                    self.objects_with_owners.set(oi, OwnerEntry { oid: b, owner: a });
                    let o = self.objects_owned.remove(obji);
                    out.thread_messages.push(
                        (
                            a,
                            ObjectBrokerMessage::OB_REMOTE_OBJECT_OP(
                                0,
                                b,
                                RemoteObjectOpMessage::REMOTE_DISOWN(o, a),
                            ),
                        ),
                    );
                    proof {
                        self.lemma_object_granted(*old(self), oi as int, obji as int, a);
                    }
                } else {
                    out.thread_messages.push(
                        (
                            owner,
                            ObjectBrokerMessage::OB_REMOTE_OBJECT_OP(
                                a,
                                b,
                                RemoteObjectOpMessage::REMOTE_OWN(mode),
                            ),
                        ),
                    );
                    self.waiting_shelf.push(ShelfEntry { oid: b, messages: Vec::new() });
                    proof {
                        let shelf = old(self).waiting_shelf@;
                        assert forall|i: int, j: int|
                            0 <= i < j < self.waiting_shelf@.len()
                            implies self.waiting_shelf@[i].oid != self.waiting_shelf@[j].oid by {
                            if j < self.waiting_shelf@.len() - 1 {
                                assert(self.waiting_shelf@[i] == shelf[i]);
                                assert(self.waiting_shelf@[j] == shelf[j]);
                            } else {
                                assert(self.waiting_shelf@[i] == shelf[i]);
                                assert(!has_shelf(shelf, b));
                            }
                        }
                    }
                }
                out
            },
        }
    }
}

} // verus!
