//! An alive Java object: its identity, its reference count, its field
//! cells and its embedded monitor.

use vstd::prelude::*;

use crate::monitor::JavaMonitor;

verus! {

/// Object ids are 64-bit so they are never exhausted over a process
/// lifetime; an id is never reused while the object lives.
pub type JavaObjectId = u64;

/// One Java heap object.  At any time an object has exactly one owner: a
/// thread, or the broker.
pub struct JavaObject {
    /// Unique lifetime id of the object; heaps key objects on it.
    pub oid: JavaObjectId,
    /// Number of live references; at least 1 while the object is alive.
    pub ref_count: usize,
    /// Name of the object's class.
    pub class_name: String,
    /// Flat field storage of 32-bit cells, laid out by the runtime.
    pub fields: Vec<u32>,
    /// The monitor that guards synchronized access to the object.
    pub monitor: JavaMonitor,
}

impl JavaObject {
    /// An alive object: at least one reference, and a well-formed
    /// monitor.
    pub open spec fn wf(&self) -> bool {
        &&& self.ref_count >= 1
        &&& self.monitor.wf()
    }

    /// Decide at run time whether the object is alive and its monitor
    /// well formed.
    pub fn check_wf(&self) -> (r: bool)
        ensures
            r == self.wf(),
    {
        self.ref_count >= 1 && self.monitor.check_wf()
    }

    /// A fresh object of the given class under the given id, with
    /// reference count 1 and a free monitor.  Objects are made through
    /// the local heap, which also announces the id to the broker.
    pub fn new(class_name: String, oid: JavaObjectId) -> (r: JavaObject)
        ensures
            r.wf(),
            r.oid == oid,
            r.ref_count == 1,
            r.class_name@ == class_name@,
            r.fields@.len() == 0,
            r.monitor.lock_count == 0,
            r.monitor.owner is None,
            r.monitor.waiters@.len() == 0,
            r.monitor.waiters_prio@.len() == 0,
    {
        JavaObject {
            oid,
            ref_count: 1,
            class_name,
            fields: Vec::new(),
            monitor: JavaMonitor::new(),
        }
    }

    /// The id of the object; constant over its lifetime.
    pub fn get_oid(&self) -> (r: JavaObjectId)
        ensures
            r == self.oid,
    {
        self.oid
    }

    /// The name of the object's class.
    pub fn get_class(&self) -> (r: &String)
        ensures
            r@ == self.class_name@,
    {
        &self.class_name
    }

    /// Take one more reference.  Use the local heap's interface instead
    /// of calling this directly.
    pub fn intern_add_ref(&mut self)
        requires
            old(self).ref_count < usize::MAX,
        ensures
            *final(self) == (JavaObject { ref_count: (old(self).ref_count + 1) as usize,
                ..*old(self) }),
    {
        self.ref_count = self.ref_count + 1;
    }

    /// Drop one reference; the result says whether the object stays
    /// alive.  Use the local heap's interface instead of calling this
    /// directly.
    pub fn intern_release(&mut self) -> (r: bool)
        requires
            old(self).ref_count >= 1,
        ensures
            *final(self) == (JavaObject { ref_count: (old(self).ref_count - 1) as usize,
                ..*old(self) }),
            r == (old(self).ref_count > 1),
    {
        self.ref_count = self.ref_count - 1;
        self.ref_count != 0
    }

    /// Read the field cell at `idx`.
    pub fn field_at(&self, idx: usize) -> (r: u32)
        requires
            idx < self.fields@.len(),
        ensures
            r == self.fields@[idx as int],
    {
        self.fields[idx]
    }
}

} // verus!
