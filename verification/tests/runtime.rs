//! Tests of the classpath, the thread registry, the monitor, the
//! class-file parser, the loader cache, the local heap, the broker and
//! the machine lifecycle.

use rustyvm::class::JavaClass;
use rustyvm::classfile::{load_constant_pool, parse_class_file, resolve_name_cpool_entry, ClassFileError};
use rustyvm::classloader::{ClassLoader, DummyClassLoader, LoadProbe};
use rustyvm::classpath::ClassPath;
use rustyvm::code::CodeBlock;
use rustyvm::def::Constant;
use rustyvm::field::{BaseType, FieldDescriptor, JavaField};
use rustyvm::localheap::LocalHeap;
use rustyvm::methods::read_methods;
use rustyvm::monitor::JavaMonitor;
use rustyvm::object::JavaObject;
use rustyvm::objectbroker::{
    ObjectBroker, ObjectBrokerMessage, RemoteObjectOpMessage, RequestObjectAccessType,
    EXIT_CODE_VM_INITIATED_SHUTDOWN,
};
use rustyvm::threadmanager::{ThreadManager, ThreadManagerError, ThreadManagerState};
use rustyvm::util::{assert_is_err, assert_no_err};
use rustyvm::vm::{BrokerToVMControlMessage, VMToBrokerControlMessage, VmExitStatus};

// ---------------------------------------------------------------- classpath

#[test]
fn test_class_path_decomposition() {
    let cp = ClassPath::new_from_string("~/some/other/bar; /bar/baz;dir ;");
    let expect = vec![
        ".".to_string(),
        "~/some/other/bar".to_string(),
        "/bar/baz".to_string(),
        "dir".to_string(),
    ];
    assert_eq!(*cp.get_paths(), expect);
    assert_eq!(*cp.get_paths(), expect);
}

#[test]
fn test_class_path_empty_string() {
    let cp = ClassPath::new_from_string("");
    assert_eq!(*cp.get_paths(), vec![".".to_string()]);
}

// ----------------------------------------------------------- threadmanager

#[test]
fn test_threadmanager_lifecycle() {
    let mut t = ThreadManager::new();
    assert_eq!(t.get_state(), ThreadManagerState::TMS_NoThreadSeenYet);

    t.add_thread(12, 0).unwrap();
    assert_eq!(t.get_state(), ThreadManagerState::TMS_Running);
    t.add_thread(13, 0).unwrap();

    t.remove_thread(13).unwrap();
    assert_eq!(t.get_state(), ThreadManagerState::TMS_Running);

    t.remove_thread(12).unwrap();
    assert_eq!(t.get_state(), ThreadManagerState::TMS_AllNonDaemonsDead);

    t.add_thread(16, 0).unwrap();
    assert_eq!(t.get_state(), ThreadManagerState::TMS_Running);
}

#[test]
fn test_threadmanager_lifecycle_with_groups() {
    let mut t = ThreadManager::new();
    assert_eq!(t.get_state(), ThreadManagerState::TMS_NoThreadSeenYet);

    t.add_group(1, 0).unwrap();
    t.add_thread(12, 1).unwrap();
    t.add_thread(13, 1).unwrap();
    t.add_thread(14, 0).unwrap();

    assert_eq!(t.get_group_size(0), 1);
    assert_eq!(t.get_group_size_rec(0), 3);
    assert_eq!(t.get_group_size(1), 2);
    t.remove_thread(12).unwrap();
    assert_eq!(t.get_group_size(1), 1);
    t.remove_thread(13).unwrap();
    assert_eq!(t.get_group_size(1), 0);
    assert_eq!(t.get_group_size(0), 1);
    t.remove_group(1).unwrap();
}

#[test]
fn test_threadmanager_groups_cannot_remove_gid0() {
    let mut t = ThreadManager::new();
    assert!(t.remove_group(0).is_err());
}

#[test]
fn test_threadmanager_groups_cannot_remove_nonempty_gid() {
    let mut t = ThreadManager::new();

    t.add_group(1, 0).unwrap();
    t.add_thread(12, 1).unwrap();
    t.add_thread(13, 1).unwrap();
    assert!(t.remove_group(1).is_err());
}

#[test]
fn test_threadmanager_lifecycle_with_daemons() {
    let mut t = ThreadManager::new();
    t.add_thread(12, 0).unwrap();
    t.add_thread(13, 0).unwrap();

    t.set_daemon(13, true).unwrap();
    assert_eq!(t.get_state(), ThreadManagerState::TMS_Running);

    t.remove_thread(13).unwrap();
    assert_eq!(t.get_state(), ThreadManagerState::TMS_Running);

    t.set_daemon(12, true).unwrap();
    assert_eq!(t.get_state(), ThreadManagerState::TMS_AllNonDaemonsDead);
}

#[test]
fn test_threadmanager_error_variants() {
    let mut t = ThreadManager::new();
    assert_eq!(t.add_thread(12, 7), Err(ThreadManagerError::UnknownGroup));
    t.add_thread(12, 0).unwrap();
    assert_eq!(t.add_thread(12, 0), Err(ThreadManagerError::DuplicateThread));
    assert_eq!(t.remove_thread(99), Err(ThreadManagerError::UnknownThread));
    assert_eq!(t.set_daemon(99, true), Err(ThreadManagerError::UnknownThread));
    assert_eq!(t.add_group(1, 9), Err(ThreadManagerError::UnknownGroup));
    t.add_group(1, 0).unwrap();
    assert_eq!(t.add_group(1, 0), Err(ThreadManagerError::DuplicateGroup));
    assert_eq!(t.remove_group(0), Err(ThreadManagerError::ReservedGroup));
    assert_eq!(t.remove_group(5), Err(ThreadManagerError::UnknownGroup));
    t.add_thread(13, 1).unwrap();
    assert_eq!(t.remove_group(1), Err(ThreadManagerError::GroupInUse));
}

// ----------------------------------------------------------------- monitor

#[test]
fn test_monitor_lock_cycle() {
    let mut m = JavaMonitor::new();
    assert!(!m.is_locked());
    assert!(m.can_be_locked_by_thread(7));
    m.lock(7);
    m.lock(7);
    assert!(m.is_locked());
    assert!(m.is_locked_by_thread(7));
    assert!(!m.can_be_locked_by_thread(8));
    m.unlock(7);
    assert!(m.is_locked_by_thread(7));
    m.unlock(7);
    assert!(!m.is_locked());
}

#[test]
fn test_monitor_wait_notify_order() {
    let mut m = JavaMonitor::new();
    m.lock(1);
    m.wait_noblock(1);
    // the monitor is free again; an outside thread queues and a ready
    // check prefers notified waiters
    m.push_thread(9, false);
    assert_eq!(m.pop_ready_thread(), Some(9));
    // thread 1 still waits un-notified, so nobody is ready
    assert_eq!(m.pop_ready_thread(), None);
    m.lock(2);
    m.notify_one(2);
    m.unlock(2);
    assert_eq!(m.pop_ready_thread(), Some(1));
    assert_eq!(m.pop_ready_thread(), None);
}

#[test]
fn test_monitor_notify_all() {
    let mut m = JavaMonitor::new();
    m.lock(1);
    m.wait_noblock(1);
    m.lock(2);
    m.wait_noblock(2);
    m.lock(3);
    m.notify_all(3);
    m.unlock(3);
    assert_eq!(m.pop_ready_thread(), Some(1));
    assert_eq!(m.pop_ready_thread(), Some(2));
    assert_eq!(m.pop_ready_thread(), None);
}

// ------------------------------------------------------------------ parser

/// A minimal class file naming itself `EmptyClass` with super class
/// `java/lang/Object`, no interfaces and no fields.
fn empty_class_bytes() -> Vec<u8> {
    let mut b: Vec<u8> = Vec::new();
    b.extend_from_slice(&[0xCA, 0xFE, 0xBA, 0xBE]); // magic
    b.extend_from_slice(&[0x00, 0x00, 0x00, 0x33]); // minor 0, major 51
    b.extend_from_slice(&[0x00, 0x05]); // cpool count: 5 (4 entries)
    b.push(1); // 1: utf8 "EmptyClass"
    b.extend_from_slice(&[0x00, 0x0A]);
    b.extend_from_slice(b"EmptyClass");
    b.push(7); // 2: class -> 1
    b.extend_from_slice(&[0x00, 0x01]);
    b.push(1); // 3: utf8 "java/lang/Object"
    b.extend_from_slice(&[0x00, 0x10]);
    b.extend_from_slice(b"java/lang/Object");
    b.push(7); // 4: class -> 3
    b.extend_from_slice(&[0x00, 0x03]);
    b.extend_from_slice(&[0x00, 0x21]); // access: public super
    b.extend_from_slice(&[0x00, 0x02]); // this: 2
    b.extend_from_slice(&[0x00, 0x04]); // super: 4
    b.extend_from_slice(&[0x00, 0x00]); // interfaces: 0
    b.extend_from_slice(&[0x00, 0x00]); // fields: 0
    b
}

#[test]
fn test_parse_empty_class() {
    let bytes = empty_class_bytes();
    let c = parse_class_file("EmptyClass", &bytes).unwrap();
    assert_eq!(c.minor, 0);
    assert_eq!(c.major, 51);
    assert_eq!(c.own_name, "EmptyClass");
    assert_eq!(c.access, 0x21);
    assert_eq!(c.super_class, 4);
    assert_eq!(c.parent_names.len(), 1);
    assert_eq!(c.parent_names[0], "java.lang.Object");
    assert_eq!(c.fields_count, 0);
    assert_eq!(c.constants.len(), 4);
    match &c.constants[0] {
        Constant::CONSTANT_utf8_info(s) => assert_eq!(s, "EmptyClass"),
        _ => panic!("expected a utf8 entry"),
    }
}

#[test]
fn test_parse_reparse_equivalent() {
    // parsing the same bytes twice yields an equivalent class
    let bytes = empty_class_bytes();
    let c1 = parse_class_file("EmptyClass", &bytes).unwrap();
    let c2 = parse_class_file("EmptyClass", &bytes).unwrap();
    assert_eq!(c1.own_name, c2.own_name);
    assert_eq!(c1.access, c2.access);
    assert_eq!(c1.parent_names, c2.parent_names);
    assert_eq!(c1.constants.len(), c2.constants.len());
}

#[test]
fn test_parse_bad_magic() {
    let mut bytes = empty_class_bytes();
    bytes[0] = 0xCB;
    assert!(matches!(
        parse_class_file("EmptyClass", &bytes),
        Err(ClassFileError::BadMagic)
    ));
}

#[test]
fn test_parse_truncated() {
    let bytes = vec![0xCA, 0xFE];
    assert!(matches!(
        parse_class_file("EmptyClass", &bytes),
        Err(ClassFileError::UnexpectedEOF)
    ));
    let mut longer = empty_class_bytes();
    longer.truncate(longer.len() - 3);
    assert!(matches!(
        parse_class_file("EmptyClass", &longer),
        Err(ClassFileError::UnexpectedEOF)
    ));
}

#[test]
fn test_parse_bad_pool_tag() {
    let mut bytes = empty_class_bytes();
    bytes[10] = 99; // first entry's tag
    assert!(matches!(
        parse_class_file("EmptyClass", &bytes),
        Err(ClassFileError::BadPoolTag)
    ));
}

#[test]
fn test_parse_bad_utf8() {
    let mut bytes = empty_class_bytes();
    bytes[13] = 0xFF; // corrupt the first byte of "EmptyClass"
    assert!(matches!(
        parse_class_file("EmptyClass", &bytes),
        Err(ClassFileError::BadUtf8)
    ));
}

#[test]
fn test_pool_index_zero_rejected() {
    // a class entry pointing at slot 0 must be rejected
    let mut b: Vec<u8> = Vec::new();
    b.extend_from_slice(&[0xCA, 0xFE, 0xBA, 0xBE]);
    b.extend_from_slice(&[0x00, 0x00, 0x00, 0x33]);
    b.extend_from_slice(&[0x00, 0x02]); // one entry
    b.push(7);
    b.extend_from_slice(&[0x00, 0x00]); // class -> 0
    assert!(matches!(
        parse_class_file("X", &b),
        Err(ClassFileError::PoolIndexOutOfRange)
    ));
}

#[test]
fn test_pool_index_beyond_count_rejected() {
    let mut b: Vec<u8> = Vec::new();
    b.extend_from_slice(&[0xCA, 0xFE, 0xBA, 0xBE]);
    b.extend_from_slice(&[0x00, 0x00, 0x00, 0x33]);
    b.extend_from_slice(&[0x00, 0x02]); // one entry: count is 2
    b.push(7);
    b.extend_from_slice(&[0x00, 0x02]); // class -> 2, not below the count
    assert!(matches!(
        parse_class_file("X", &b),
        Err(ClassFileError::PoolIndexOutOfRange)
    ));
}

#[test]
fn test_long_entry_consumes_two_slots() {
    let mut b: Vec<u8> = Vec::new();
    b.extend_from_slice(&[0x00, 0x04]); // count 4: three slots after slot 0
    b.push(5); // long at slot 1 (takes slots 1 and 2)
    b.extend_from_slice(&[0, 0, 0, 0, 0, 0, 0, 42]);
    b.push(3); // integer at slot 3
    b.extend_from_slice(&[0, 0, 0, 7]);
    let mut pos = 0usize;
    let pool = load_constant_pool(&b, &mut pos).unwrap();
    assert_eq!(pool.len(), 3);
    assert!(matches!(pool[0], Constant::CONSTANT_long_info(42)));
    assert!(matches!(pool[1], Constant::CONSTANT_unusable));
    assert!(matches!(pool[2], Constant::CONSTANT_integer_info(7)));
}

#[test]
fn test_superclass_zero_needs_object_or_interface() {
    // an interface with super 0 parses; a plain class under another name
    // does not
    let mut b: Vec<u8> = Vec::new();
    b.extend_from_slice(&[0xCA, 0xFE, 0xBA, 0xBE]);
    b.extend_from_slice(&[0x00, 0x00, 0x00, 0x33]);
    b.extend_from_slice(&[0x00, 0x03]); // two entries
    b.push(1);
    b.extend_from_slice(&[0x00, 0x04]);
    b.extend_from_slice(b"Face");
    b.push(7);
    b.extend_from_slice(&[0x00, 0x01]);
    b.extend_from_slice(&[0x02, 0x00]); // access: interface
    b.extend_from_slice(&[0x00, 0x02]); // this: 2
    b.extend_from_slice(&[0x00, 0x00]); // super: 0
    b.extend_from_slice(&[0x00, 0x00]); // interfaces
    b.extend_from_slice(&[0x00, 0x00]); // fields
    assert!(parse_class_file("Face", &b).is_ok());

    let mut plain = b.clone();
    let acc_at = plain.len() - 10;
    plain[acc_at] = 0x00; // access: not an interface
    plain[acc_at + 1] = 0x21;
    assert!(matches!(
        parse_class_file("Face", &plain),
        Err(ClassFileError::NoSuperclass)
    ));
}

#[test]
fn test_decode_opcodes() {
    let cb = CodeBlock::new(2, 3, vec![0, 0, 0], Vec::new());
    let ops = cb.decode_opcodes().unwrap();
    assert_eq!(ops.len(), 3);
    let bad = CodeBlock::new(2, 3, vec![0, 1], Vec::new());
    assert!(bad.decode_opcodes().is_none());
}

#[test]
fn test_read_methods_with_code() {
    // a pool holding the strings and class entries the method needs
    let mut pool_bytes: Vec<u8> = Vec::new();
    pool_bytes.extend_from_slice(&[0x00, 0x07]); // six entries
    pool_bytes.push(1); // 1: "main"
    pool_bytes.extend_from_slice(&[0x00, 0x04]);
    pool_bytes.extend_from_slice(b"main");
    pool_bytes.push(1); // 2: "()V"
    pool_bytes.extend_from_slice(&[0x00, 0x03]);
    pool_bytes.extend_from_slice(b"()V");
    pool_bytes.push(1); // 3: "Code"
    pool_bytes.extend_from_slice(&[0x00, 0x04]);
    pool_bytes.extend_from_slice(b"Code");
    pool_bytes.push(1); // 4: "java/lang/Exception"
    pool_bytes.extend_from_slice(&[0x00, 0x13]);
    pool_bytes.extend_from_slice(b"java/lang/Exception");
    pool_bytes.push(7); // 5: class -> 4
    pool_bytes.extend_from_slice(&[0x00, 0x04]);
    pool_bytes.push(1); // 6: "Other"
    pool_bytes.extend_from_slice(&[0x00, 0x05]);
    pool_bytes.extend_from_slice(b"Other");
    let mut pos = 0usize;
    let pool = load_constant_pool(&pool_bytes, &mut pos).unwrap();

    // one method: main ()V with one attribute, its Code block
    let mut mb: Vec<u8> = Vec::new();
    mb.extend_from_slice(&[0x00, 0x01]); // method count
    mb.extend_from_slice(&[0x00, 0x09]); // access
    mb.extend_from_slice(&[0x00, 0x01]); // name -> "main"
    mb.extend_from_slice(&[0x00, 0x02]); // descriptor -> "()V"
    mb.extend_from_slice(&[0x00, 0x01]); // one attribute
    mb.extend_from_slice(&[0x00, 0x03]); // attribute name -> "Code"
    mb.extend_from_slice(&[0x00, 0x02]); // max stack
    mb.extend_from_slice(&[0x00, 0x03]); // max locals
    mb.extend_from_slice(&[0x00, 0x02]); // code length
    mb.extend_from_slice(&[0x00, 0x00]); // two nop opcodes
    mb.extend_from_slice(&[0x00, 0x01]); // one handler
    mb.extend_from_slice(&[0x00, 0x00]); // start pc
    mb.extend_from_slice(&[0x00, 0x02]); // end pc
    mb.extend_from_slice(&[0x00, 0x02]); // handler pc
    mb.extend_from_slice(&[0x00, 0x05]); // catch type -> class 5
    let mut mpos = 0usize;
    let ms = read_methods(&mb, &mut mpos, &pool).unwrap();
    assert_eq!(ms.len(), 1);
    assert_eq!(ms[0].name, "main");
    assert_eq!(ms[0].descriptor, "()V");
    assert_eq!(ms[0].code.max_stack, 2);
    assert_eq!(ms[0].code.max_locals, 3);
    assert_eq!(ms[0].code.code, vec![0, 0]);
    assert_eq!(ms[0].code.exceptions.len(), 1);
    assert_eq!(ms[0].code.exceptions[0].end_pc, 2);
    assert_eq!(ms[0].code.exceptions[0].catch_type, "java.lang.Exception");
}

#[test]
fn test_read_methods_requires_code() {
    // a method without a Code attribute is rejected
    let mut pool_bytes: Vec<u8> = Vec::new();
    pool_bytes.extend_from_slice(&[0x00, 0x03]);
    pool_bytes.push(1);
    pool_bytes.extend_from_slice(&[0x00, 0x04]);
    pool_bytes.extend_from_slice(b"main");
    pool_bytes.push(1);
    pool_bytes.extend_from_slice(&[0x00, 0x03]);
    pool_bytes.extend_from_slice(b"()V");
    let mut pos = 0usize;
    let pool = load_constant_pool(&pool_bytes, &mut pos).unwrap();
    let mut mb: Vec<u8> = Vec::new();
    mb.extend_from_slice(&[0x00, 0x01]);
    mb.extend_from_slice(&[0x00, 0x09]);
    mb.extend_from_slice(&[0x00, 0x01]);
    mb.extend_from_slice(&[0x00, 0x02]);
    mb.extend_from_slice(&[0x00, 0x00]); // no attributes
    let mut mpos = 0usize;
    assert!(matches!(
        read_methods(&mb, &mut mpos, &pool),
        Err(ClassFileError::MissingCodeAttribute)
    ));
}

// ------------------------------------------------------------ class loader

#[test]
fn test_class_loader_fail() {
    // empty classpath: the fetch fails and every waiter hears of it
    let mut cl = ClassLoader::new_from_string("");
    let probe = cl.check_is_present_or_enqueue("FooClassDoesNotExist");
    assert_eq!(probe, LoadProbe::MustLoad);
    // the classpath holds only the current directory; the fetch (done by
    // the surrounding program) finds nothing, so the load fails
    assert_eq!(*cl.get_classpath().get_paths(), vec![".".to_string()]);
    let waiters = cl.register_failure("FooClassDoesNotExist");
    assert_eq!(waiters, 0);
    assert!(cl.get_class("FooClassDoesNotExist").is_none());
}

#[test]
fn test_class_loader_good() {
    let mut cl = ClassLoader::new_from_string("../test/java;../rt");
    let probe = cl.check_is_present_or_enqueue("EmptyClass");
    assert_eq!(probe, LoadProbe::MustLoad);
    let bytes = empty_class_bytes();
    let parsed = parse_class_file("EmptyClass", &bytes).unwrap();
    let class = JavaClass::new("EmptyClass", parsed.constants, parsed.parent_names);
    cl.register_class("EmptyClass", class);
    let got = cl.get_class("EmptyClass");
    assert!(got.is_some());
    assert_eq!(*got.unwrap().get_name(), "EmptyClass".to_string());
}

#[test]
fn test_class_loader_concurrent_loading() {
    // two loads race for the same name: the table serializes them, only
    // one fetches, the other is enqueued and served the same class
    let mut cl = ClassLoader::new_from_string("../test/java;../rt");
    let first = cl.check_is_present_or_enqueue("EmptyClass");
    let second = cl.check_is_present_or_enqueue("EmptyClass");
    assert_eq!(first, LoadProbe::MustLoad);
    assert_eq!(second, LoadProbe::Enqueued);
    let bytes = empty_class_bytes();
    let parsed = parse_class_file("EmptyClass", &bytes).unwrap();
    let class = JavaClass::new("EmptyClass", parsed.constants, parsed.parent_names);
    let waiters = cl.register_class("EmptyClass", class);
    assert_eq!(waiters, 1);
    assert!(cl.get_class("EmptyClass").is_some());
    let third = cl.check_is_present_or_enqueue("EmptyClass");
    assert_eq!(third, LoadProbe::AlreadyLoaded);
}

// ------------------------------------------------------------------- field

#[test]
fn test_field_desc_parsing() {
    let cl = JavaField::resolve_field_desc("Ljava/lang/Object;");
    assert_no_err(&cl);
    match cl {
        Ok(FieldDescriptor::FD_ObjectType(c)) => assert_eq!(c, "java.lang.Object"),
        _ => panic!("expected an object type"),
    }

    let cl = JavaField::resolve_field_desc("[[LEmptyClass;");
    assert_no_err(&cl);
    match cl {
        Ok(FieldDescriptor::FD_ArrayType(inner)) => match *inner {
            FieldDescriptor::FD_ArrayType(inner2) => match *inner2 {
                FieldDescriptor::FD_ObjectType(c) => assert_eq!(c, "EmptyClass"),
                _ => panic!("expected an object type"),
            },
            _ => panic!("expected a nested array"),
        },
        _ => panic!("expected an array type"),
    }

    let cl = JavaField::resolve_field_desc("B");
    assert_no_err(&cl);
    match cl {
        Ok(FieldDescriptor::FD_BaseType(bt)) => assert_eq!(bt, BaseType::BT_B_byte),
        _ => panic!("expected a base type"),
    }
}

#[test]
fn test_field_desc_parsing_fail() {
    let dummy = DummyClassLoader;
    assert!(dummy.load("anything").is_err());
    assert!(JavaField::resolve_field_desc("Ljava/lang/Object").is_err());
    assert!(JavaField::resolve_field_desc("Ljava/lang/Object;[").is_err());
    assert!(JavaField::resolve_field_desc("").is_err());
    assert!(JavaField::resolve_field_desc("b").is_err());
    assert!(JavaField::resolve_field_desc("[").is_err());
    assert_is_err(&JavaField::resolve_field_desc("["));
}

// ------------------------------------------------------------- local heap

#[test]
fn test_local_heap_lifecycle() {
    let mut h = LocalHeap::new_with_owner(1);
    let m = h.new_object("EmptyClass".to_string(), 15);
    match m {
        ObjectBrokerMessage::OB_REMOTE_OBJECT_OP(src, oid, RemoteObjectOpMessage::REMOTE_ADD_REF) => {
            assert_eq!(src, 1);
            assert_eq!(oid, 15);
        }
        _ => panic!("expected an add-ref announcement"),
    }
    assert!(h.owns(15));
    // local add-ref and release stay local
    assert!(h.add_ref(15).is_none());
    assert!(h.release(15).is_none());
    // a remote release turns into a broker message
    assert!(h.release(99).is_some());
    // the last release destroys the object
    assert!(h.release(15).is_none());
    assert!(!h.owns(15));
}

#[test]
fn test_local_heap_transfer() {
    let mut h = LocalHeap::new_with_owner(1);
    h.new_object("EmptyClass".to_string(), 15);
    // another thread asks to own object 15
    let m = h.handle_message(2, 15, RemoteObjectOpMessage::REMOTE_OWN(
        RequestObjectAccessType::OBJECT_ACCESS_Normal,
    ));
    match m {
        Some(ObjectBrokerMessage::OB_REMOTE_OBJECT_OP(
            1,
            15,
            RemoteObjectOpMessage::REMOTE_DISOWN(obj, 2),
        )) => {
            assert_eq!(obj.get_oid(), 15);
            assert_eq!(*obj.get_class(), "EmptyClass".to_string());
        }
        _ => panic!("expected a transfer"),
    }
    assert!(!h.owns(15));
}

// ------------------------------------------------------------------ broker

#[test]
fn test_shutdown_initiated_by_vm() {
    let mut ob = ObjectBroker::new();
    let out = ob.handle_message(ObjectBrokerMessage::OB_VM_TO_BROKER(
        VMToBrokerControlMessage::VM_TO_BROKER_DO_SHUTDOWN,
    ));
    // must confirm the shutdown with the reserved negative exit code
    assert_eq!(
        out.vm_messages,
        vec![BrokerToVMControlMessage::BROKER_TO_VM_DID_SHUTDOWN(
            EXIT_CODE_VM_INITIATED_SHUTDOWN
        )]
    );
    assert!(out.running);
    // after the handle acknowledges, the broker task ends
    let out = ob.handle_message(ObjectBrokerMessage::OB_VM_TO_BROKER(
        VMToBrokerControlMessage::VM_TO_BROKER_ACK_SHUTDOWN,
    ));
    assert!(!out.running);
}

#[test]
fn test_shutdown_initiated_by_threads() {
    let mut ob = ObjectBroker::new();
    ob.handle_message(ObjectBrokerMessage::OB_REGISTER(1));
    ob.handle_message(ObjectBrokerMessage::OB_REGISTER(2));
    // thread 1 asks for exit code 15: even the initiating thread hears
    // the broadcast
    let out = ob.handle_message(ObjectBrokerMessage::OB_SHUTDOWN(1, 15));
    assert_eq!(out.thread_messages.len(), 2);
    for (tid, msg) in [(1u64, &out.thread_messages[0]), (2u64, &out.thread_messages[1])] {
        assert_eq!(msg.0, tid);
        assert!(matches!(msg.1, ObjectBrokerMessage::OB_SHUTDOWN(0, 15)));
    }
    // the first exit code wins, so a second request changes nothing
    let out = ob.handle_message(ObjectBrokerMessage::OB_SHUTDOWN(2, 16));
    assert!(out.thread_messages.is_empty());
    // both threads unregister; the machine handle hears code 15
    let out = ob.handle_message(ObjectBrokerMessage::OB_UNREGISTER(1, Vec::new()));
    assert!(out.vm_messages.is_empty());
    let out = ob.handle_message(ObjectBrokerMessage::OB_UNREGISTER(2, Vec::new()));
    assert_eq!(
        out.vm_messages,
        vec![BrokerToVMControlMessage::BROKER_TO_VM_DID_SHUTDOWN(15)]
    );
}

#[test]
fn test_object_broker() {
    let mut ob = ObjectBroker::new();
    ob.handle_message(ObjectBrokerMessage::OB_REGISTER(1));
    ob.handle_message(ObjectBrokerMessage::OB_REGISTER(2));
    // thread 1 registers object 15
    let out = ob.handle_message(ObjectBrokerMessage::OB_REMOTE_OBJECT_OP(
        1,
        15,
        RemoteObjectOpMessage::REMOTE_ADD_REF,
    ));
    assert!(out.thread_messages.is_empty());
    // thread 2 wants to own object 15: the request goes to thread 1
    let out = ob.handle_message(ObjectBrokerMessage::OB_REMOTE_OBJECT_OP(
        2,
        15,
        RemoteObjectOpMessage::REMOTE_OWN(RequestObjectAccessType::OBJECT_ACCESS_Normal),
    ));
    assert_eq!(out.thread_messages.len(), 1);
    assert_eq!(out.thread_messages[0].0, 1);
    assert!(matches!(
        out.thread_messages[0].1,
        ObjectBrokerMessage::OB_REMOTE_OBJECT_OP(
            2,
            15,
            RemoteObjectOpMessage::REMOTE_OWN(RequestObjectAccessType::OBJECT_ACCESS_Normal)
        )
    ));
    // thread 1 answers with the object; it goes to thread 2
    let obj = JavaObject::new("EmptyClass".to_string(), 15);
    let out = ob.handle_message(ObjectBrokerMessage::OB_REMOTE_OBJECT_OP(
        1,
        15,
        RemoteObjectOpMessage::REMOTE_DISOWN(obj, 2),
    ));
    assert_eq!(out.thread_messages.len(), 1);
    assert_eq!(out.thread_messages[0].0, 2);
    match &out.thread_messages[0].1 {
        ObjectBrokerMessage::OB_REMOTE_OBJECT_OP(1, 15, RemoteObjectOpMessage::REMOTE_DISOWN(o, 2)) => {
            assert_eq!(*o.get_class(), "EmptyClass".to_string());
        }
        _ => panic!("expected the transfer to thread 2"),
    }
    assert!(out.replay.is_empty());
    // thread 2 releases the object before leaving
    ob.handle_message(ObjectBrokerMessage::OB_REMOTE_OBJECT_OP(
        2,
        15,
        RemoteObjectOpMessage::REMOTE_RELEASE,
    ));
    // both threads die: natural shutdown with exit code 0
    ob.handle_message(ObjectBrokerMessage::OB_UNREGISTER(1, Vec::new()));
    let out = ob.handle_message(ObjectBrokerMessage::OB_UNREGISTER(2, Vec::new()));
    assert_eq!(
        out.vm_messages,
        vec![BrokerToVMControlMessage::BROKER_TO_VM_DID_SHUTDOWN(0)]
    );
    let out = ob.handle_message(ObjectBrokerMessage::OB_VM_TO_BROKER(
        VMToBrokerControlMessage::VM_TO_BROKER_ACK_SHUTDOWN,
    ));
    assert!(!out.running);
}

#[test]
fn test_broker_message_check() {
    // the dispatch guard refuses protocol violations and accepts the rest
    let mut ob = ObjectBroker::new();
    assert!(!ob.check_message(&ObjectBrokerMessage::OB_REGISTER(0)));
    assert!(ob.check_message(&ObjectBrokerMessage::OB_REGISTER(1)));
    ob.handle_message(ObjectBrokerMessage::OB_REGISTER(1));
    assert!(!ob.check_message(&ObjectBrokerMessage::OB_REGISTER(1)));
    // an operation on an unknown object is refused; a first add-ref passes
    assert!(!ob.check_message(&ObjectBrokerMessage::OB_REMOTE_OBJECT_OP(
        1,
        15,
        RemoteObjectOpMessage::REMOTE_RELEASE,
    )));
    assert!(ob.check_message(&ObjectBrokerMessage::OB_REMOTE_OBJECT_OP(
        1,
        15,
        RemoteObjectOpMessage::REMOTE_ADD_REF,
    )));
    ob.handle_message(ObjectBrokerMessage::OB_REMOTE_OBJECT_OP(
        1,
        15,
        RemoteObjectOpMessage::REMOTE_ADD_REF,
    ));
    // asking to own one's own object is a violation
    assert!(!ob.check_message(&ObjectBrokerMessage::OB_REMOTE_OBJECT_OP(
        1,
        15,
        RemoteObjectOpMessage::REMOTE_OWN(RequestObjectAccessType::OBJECT_ACCESS_Normal),
    )));
    // the shutdown acknowledgement is valid only once shutdown finished
    assert!(!ob.check_message(&ObjectBrokerMessage::OB_VM_TO_BROKER(
        VMToBrokerControlMessage::VM_TO_BROKER_ACK_SHUTDOWN,
    )));
    // leaving with an object one does not own is a violation
    assert!(!ob.check_message(&ObjectBrokerMessage::OB_UNREGISTER(
        1,
        vec![JavaObject::new("EmptyClass".to_string(), 99)],
    )));
    assert!(!ob.check_message(&ObjectBrokerMessage::OB_UNREGISTER(1, Vec::new())));
    assert!(ob.check_message(&ObjectBrokerMessage::OB_UNREGISTER(
        1,
        vec![JavaObject::new("EmptyClass".to_string(), 15)],
    )));
}

#[test]
fn test_finish_access_serves_ready_waiter() {
    // after an access, a queued outside requester receives the object
    let mut h = LocalHeap::new_with_owner(1);
    h.new_object("EmptyClass".to_string(), 15);
    // thread 2 asked for the monitor while thread 1 held it
    let m = h.handle_message(2, 15, RemoteObjectOpMessage::REMOTE_OWN(
        RequestObjectAccessType::OBJECT_ACCESS_Monitor,
    ));
    assert!(m.is_some()); // free monitor: transferred at once
    let mut h = LocalHeap::new_with_owner(1);
    h.new_object("EmptyClass".to_string(), 15);
    assert!(h.can_access(RequestObjectAccessType::OBJECT_ACCESS_Monitor, 15));
    // with no queued waiter the object stays put
    assert!(h.finish_access(15).is_none());
    assert!(h.owns(15));
}

// ---------------------------------------------------------------------- vm

#[test]
fn test_vm_init_exit() {
    let mut ob = ObjectBroker::new();
    let mut v = VmExitStatus::new();
    assert!(!v.is_exited());
    // exit: ask the broker to shut down, record its report, acknowledge
    let out = ob.handle_message(ObjectBrokerMessage::OB_VM_TO_BROKER(
        VMToBrokerControlMessage::VM_TO_BROKER_DO_SHUTDOWN,
    ));
    let BrokerToVMControlMessage::BROKER_TO_VM_DID_SHUTDOWN(code) = out.vm_messages[0];
    v.record_did_shutdown(code);
    assert!(v.is_exited());
    assert_eq!(v.get_exit_code(), Some(EXIT_CODE_VM_INITIATED_SHUTDOWN));
}

#[test]
fn test_vm_exit_idempotent() {
    // exiting twice reports the same code both times
    let mut v = VmExitStatus::new();
    v.record_did_shutdown(15);
    let first = v.get_exit_code();
    v.record_did_shutdown(16);
    let second = v.get_exit_code();
    assert_eq!(first, second);
    assert_eq!(first, Some(15));
}

// ------------------------------------------------------------------- names

#[test]
fn test_utf8_entries_are_decoded() {
    // a pool with a non-ASCII utf8 entry decodes to the right characters
    let mut b: Vec<u8> = Vec::new();
    b.extend_from_slice(&[0x00, 0x02]);
    b.push(1);
    b.extend_from_slice(&[0x00, 0x03]);
    b.extend_from_slice("Aé".as_bytes()); // two chars, three bytes
    let mut pos = 0usize;
    let pool = load_constant_pool(&b, &mut pos).unwrap();
    let name = resolve_name_cpool_entry(&pool, 1).unwrap();
    assert_eq!(name, "Aé");
    assert_eq!(name.chars().count(), 2);
}
