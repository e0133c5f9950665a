//! Core runtime of a Java virtual machine: class-file parsing, the class
//! loader's cache, object monitors, the per-thread heap, the object broker
//! that serializes cross-thread ownership transfers, and the VM lifecycle.
//!
//! Everything here is pure logic over plain values.  The surrounding
//! program supplies what cannot be verified: file reading, channels and
//! task spawning.

pub mod class;
pub mod classfile;
pub mod classloader;
pub mod classpath;
pub mod code;
pub mod def;
pub mod field;
pub mod localheap;
pub mod methods;
pub mod monitor;
pub mod object;
pub mod objectbroker;
pub mod opcode;
pub mod thread;
pub mod threadmanager;
pub mod util;
pub mod vm;

use vstd::prelude::*;

verus! {

} // verus!
