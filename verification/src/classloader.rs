//! The class loader's shared cache: a table of classes keyed by fully
//! qualified name, deduplicating concurrent loads.
//!
//! A load first probes the table.  A loaded class is served at once; a
//! pending load enqueues the caller as a waiter; an unknown name claims
//! the fetch by inserting a pending entry, and only that caller fetches
//! and parses the bytes.  When the winner registers the class (or its
//! failure), every waiter is released.  The surrounding program supplies
//! the sharing (one table behind a lock, cheap clones of the loader) and
//! the asynchronous workers; one-shot waiter channels stand behind the
//! waiter counts kept here.

use vstd::prelude::*;

use crate::class::JavaClass;
use crate::classpath::{classpath_entries, ClassPath};

verus! {

/// One cache row: a class name and its load state.
pub struct ClassTableSlot {
    pub name: String,
    pub entry: ClassTableEntry,
}

/// The load state of one class name.
pub enum ClassTableEntry {
    /// The class is fully loaded.
    ClassLoaded(JavaClass),
    /// A load is under way; the count is the number of enqueued waiters.
    ClassPending(u64),
}

/// Whether the table holds a row for `name`.
pub open spec fn table_has(ts: Seq<ClassTableSlot>, name: Seq<char>) -> bool {
    exists|i: int| 0 <= i < ts.len() && ts[i].name@ == name
}

/// The position of `name`'s row (unique while the loader is well formed).
pub open spec fn table_index(ts: Seq<ClassTableSlot>, name: Seq<char>) -> int {
    choose|i: int| 0 <= i < ts.len() && ts[i].name@ == name
}

/// What a probe of the table decided.
#[derive(Clone, Copy, PartialEq, Eq, Structural, Debug)]
pub enum LoadProbe {
    /// The class is loaded; serve it from the cache.
    AlreadyLoaded,
    /// Another load is under way; the caller was enqueued as a waiter.
    Enqueued,
    /// The caller claimed the fetch: it alone fetches and parses, then
    /// registers the class.
    MustLoad,
}

/// The cache of loaded classes behind every loader handle.
pub struct ClassLoader {
    pub classpath: ClassPath,
    pub table: Vec<ClassTableSlot>,
}

/// The exact effect of one table probe for `name`.
pub open spec fn probe_step(
    pre: ClassLoader,
    name: Seq<char>,
    post: ClassLoader,
    r: LoadProbe,
) -> bool {
    &&& post.classpath == pre.classpath
    &&& if table_has(pre.table@, name) {
        let i = table_index(pre.table@, name);
        match pre.table@[i].entry {
            ClassTableEntry::ClassLoaded(_) => r is AlreadyLoaded && post.table == pre.table,
            ClassTableEntry::ClassPending(n) => {
                &&& r is Enqueued
                &&& post.table@.len() == pre.table@.len()
                &&& forall|j: int| 0 <= j < pre.table@.len() && j != i ==> post.table@[j] == pre.table@[j]
                &&& post.table@[i].name@ == name
                &&& post.table@[i].entry == ClassTableEntry::ClassPending((n + 1) as u64)
            },
        }
    } else {
        &&& r is MustLoad
        &&& post.table@.len() == pre.table@.len() + 1
        &&& post.table@.drop_last() == pre.table@
        &&& post.table@.last().name@ == name
        &&& post.table@.last().entry == ClassTableEntry::ClassPending(0)
    }
}

impl ClassLoader {
    /// Well-formedness: class names are unique within the loader.
    pub open spec fn wf(&self) -> bool {
        forall|i: int, j: int|
            0 <= i < j < self.table@.len() ==> self.table@[i].name@ != self.table@[j].name@
    }

    /// A loader over the classpath written in `classpath`, with an empty
    /// cache.
    pub fn new_from_string(classpath: &str) -> (r: ClassLoader)
        ensures
            r.wf(),
            r.classpath@ == classpath_entries(classpath@),
            r.table@.len() == 0,
    {
        ClassLoader { classpath: ClassPath::new_from_string(classpath), table: Vec::new() }
    }

    /// A loader over an explicit classpath and an existing table, used to
    /// share one cache between loader handles.
    pub fn new(classpath: ClassPath, table: Vec<ClassTableSlot>) -> (r: ClassLoader)
        requires
            forall|i: int, j: int| 0 <= i < j < table@.len() ==> table@[i].name@ != table@[j].name@,
        ensures
            r.wf(),
            r.classpath == classpath,
            r.table == table,
    {
        ClassLoader { classpath, table }
    }

    /// The classpath backing this loader.
    pub fn get_classpath(&self) -> (r: ClassPath)
        ensures
            r@ == self.classpath@,
    {
        self.classpath.clone()
    }

    /// The position of `name`'s row, if present.
    fn find_slot(&self, name: &str) -> (r: Option<usize>)
        requires
            self.wf(),
        ensures
            match r {
                Some(i) => 0 <= i < self.table@.len() && self.table@[i as int].name@ == name@ && i
                    == table_index(self.table@, name@) && table_has(self.table@, name@),
                None => !table_has(self.table@, name@),
            },
    {
        let mut i: usize = 0;
        while i < self.table.len()
            invariant
                0 <= i <= self.table@.len(),
                forall|j: int| 0 <= j < i ==> self.table@[j].name@ != name@,
                self.wf(),
            decreases self.table@.len() - i,
        {
            if crate::classfile::str_eq(self.table[i].name.as_str(), name) {
                proof {
                    assert(table_has(self.table@, name@));
                    let w = table_index(self.table@, name@);
                    assert(0 <= w < self.table@.len() && self.table@[w].name@ == name@);
                }
                return Some(i);
            }
            i += 1;
        }
        None
    }

    /// A non-blocking cache query: the class, only if it is fully loaded.
    pub fn get_class(&self, name: &str) -> (r: Option<&JavaClass>)
        requires
            self.wf(),
        ensures
            r is Some <==> (table_has(self.table@, name@) && self.table@[table_index(
                self.table@,
                name@,
            )].entry is ClassLoaded),
            r is Some ==> self.table@[table_index(self.table@, name@)].entry
                == ClassTableEntry::ClassLoaded(*r.unwrap()),
    {
        match self.find_slot(name) {
            Some(i) => match &self.table[i].entry {
                ClassTableEntry::ClassLoaded(c) => Some(c),
                ClassTableEntry::ClassPending(_) => None,
            },
            None => None,
        }
    }

    /// Probe the table for `name`: serve a loaded class, enqueue behind a
    /// pending load, or claim the fetch by inserting a fresh pending
    /// entry.  At most one caller ever claims the fetch for a name.
    pub fn check_is_present_or_enqueue(&mut self, name: &str) -> (r: LoadProbe)
        requires
            old(self).wf(),
            (table_has(old(self).table@, name@) && (old(self).table@[table_index(
                old(self).table@,
                name@,
            )].entry matches ClassTableEntry::ClassPending(n) && n < u64::MAX)) || !table_has(
                old(self).table@,
                name@,
            ) || old(self).table@[table_index(old(self).table@, name@)].entry is ClassLoaded,
        ensures
            final(self).wf(),
            probe_step(*old(self), name@, *final(self), r),
            table_has(final(self).table@, name@),
    {
        match self.find_slot(name) {
            Some(i) => {
                let loaded = match &self.table[i].entry {
                    ClassTableEntry::ClassLoaded(_) => true,
                    ClassTableEntry::ClassPending(_) => false,
                };
                if loaded {
                    proof {
                        assert(self.table@[table_index(self.table@, name@)].name@ == name@);
                    }
                    LoadProbe::AlreadyLoaded
                } else {
                    let mut slot = self.table.remove(i);
                    let n = match &slot.entry {
                        ClassTableEntry::ClassPending(n) => *n,
                        _ => 0,
                    };
                    slot.entry = ClassTableEntry::ClassPending(n + 1);
                    self.table.insert(i, slot);
                    proof {
                        let ts = self.table@;
                        let old_ts = old(self).table@;
                        assert forall|x: int, y: int| 0 <= x < y < ts.len() implies ts[x].name@
                            != ts[y].name@ by {
                            assert(ts[x].name@ == old_ts[x].name@);
                            assert(ts[y].name@ == old_ts[y].name@);
                        }
                        assert(ts[i as int].name@ == name@);
                        assert(table_has(ts, name@));
                        let w = table_index(ts, name@);
                        assert(ts[w].name@ == name@);
                        if w != i {
                            assert(old_ts[w].name@ == ts[w].name@);
                        }
                    }
                    LoadProbe::Enqueued
                }
            },
            None => {
                let slot = ClassTableSlot {
                    name: name.to_owned(),
                    entry: ClassTableEntry::ClassPending(0),
                };
                self.table.push(slot);
                proof {
                    let ts = self.table@;
                    let old_ts = old(self).table@;
                    assert(ts.drop_last() =~= old_ts);
                    assert forall|x: int, y: int| 0 <= x < y < ts.len() implies ts[x].name@
                        != ts[y].name@ by {
                        if y < ts.len() - 1 {
                            assert(ts[x] == old_ts[x] && ts[y] == old_ts[y]);
                        } else {
                            assert(ts[x] == old_ts[x]);
                        }
                    }
                    assert(ts.last().name@ == name@);
                    assert(table_has(ts, name@));
                }
                LoadProbe::MustLoad
            },
        }
    }

    /// Mark `name` officially loaded: replace its pending entry by the
    /// class.  Returns how many waiters are to be released with the
    /// class.
    pub fn register_class(&mut self, name: &str, class: JavaClass) -> (waiters: u64)
        requires
            old(self).wf(),
            table_has(old(self).table@, name@),
            old(self).table@[table_index(old(self).table@, name@)].entry is ClassPending,
        ensures
            final(self).wf(),
            final(self).classpath == old(self).classpath,
            final(self).table@.len() == old(self).table@.len(),
            ({
                let i = table_index(old(self).table@, name@);
                &&& forall|j: int|
                    0 <= j < old(self).table@.len() && j != i ==> final(self).table@[j] == old(
                        self,
                    ).table@[j]
                &&& final(self).table@[i].name@ == name@
                &&& final(self).table@[i].entry == ClassTableEntry::ClassLoaded(class)
                &&& old(self).table@[i].entry == ClassTableEntry::ClassPending(waiters)
            }),
    {
        let i = match self.find_slot(name) {
            Some(i) => i,
            None => {
                proof {
                    assert(false);
                }
                0
            },
        };
        let mut slot = self.table.remove(i);
        let waiters = match &slot.entry {
            ClassTableEntry::ClassPending(n) => *n,
            _ => 0,
        };
        slot.entry = ClassTableEntry::ClassLoaded(class);
        self.table.insert(i, slot);
        proof {
            let ts = self.table@;
            let old_ts = old(self).table@;
            assert forall|x: int, y: int| 0 <= x < y < ts.len() implies ts[x].name@
                != ts[y].name@ by {
                assert(ts[x].name@ == old_ts[x].name@);
                assert(ts[y].name@ == old_ts[y].name@);
            }
        }
        waiters
    }

    /// Record that the load of `name` failed: its pending entry leaves
    /// the table so a later load may retry.  Returns how many waiters are
    /// to be told of the failure (waiters are never leaked).
    pub fn register_failure(&mut self, name: &str) -> (waiters: u64)
        requires
            old(self).wf(),
            table_has(old(self).table@, name@),
            old(self).table@[table_index(old(self).table@, name@)].entry is ClassPending,
        ensures
            final(self).wf(),
            final(self).classpath == old(self).classpath,
            final(self).table@ == old(self).table@.remove(table_index(old(self).table@, name@)),
            old(self).table@[table_index(old(self).table@, name@)].entry
                == ClassTableEntry::ClassPending(waiters),
    {
        let i = match self.find_slot(name) {
            Some(i) => i,
            None => {
                proof {
                    assert(false);
                }
                0
            },
        };
        let slot = self.table.remove(i);
        proof {
            let ts = self.table@;
            let old_ts = old(self).table@;
            assert forall|x: int, y: int| 0 <= x < y < ts.len() implies ts[x].name@
                != ts[y].name@ by {
                let ox: int = if x < i { x } else { x + 1 };
                let oy: int = if y < i { y } else { y + 1 };
                assert(ts[x] == old_ts[ox] && ts[y] == old_ts[oy]);
            }
        }
        match slot.entry {
            ClassTableEntry::ClassPending(n) => n,
            _ => 0,
        }
    }
}

/// Any number of loads of one name cause exactly one fetch: once a probe
/// has claimed the fetch, the name stays in the table, and every later
/// probe is served from the cache or enqueued, never told to fetch
/// again.
pub proof fn lemma_fetch_claimed_once(
    pre: ClassLoader,
    mid: ClassLoader,
    post: ClassLoader,
    name: Seq<char>,
    r1: LoadProbe,
    r2: LoadProbe,
)
    requires
        probe_step(pre, name, mid, r1),
        probe_step(mid, name, post, r2),
    ensures
        !(r1 is MustLoad && r2 is MustLoad),
{
    if r1 is MustLoad {
        assert(mid.table@.last().name@ == name);
        assert(table_has(mid.table@, name));
    }
}

/// A mock loader that refuses to load any class; used by tests.
pub struct DummyClassLoader;

impl DummyClassLoader {
    /// Refuse to load `name`.
    pub fn load(&self, name: &str) -> (r: Result<JavaClass, String>)
        ensures
            r matches Err(m) && m@ == "DUMMY"@,
    {
        Err("DUMMY".to_owned())
    }

    /// Refuse to load `name` from the given bytes.
    pub fn load_from_bytes(&self, name: &str, bytes: &Vec<u8>) -> (r: Result<JavaClass, String>)
        ensures
            r matches Err(m) && m@ == "DUMMY"@,
    {
        Err("DUMMY".to_owned())
    }
}

} // verus!
