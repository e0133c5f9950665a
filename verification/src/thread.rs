//! The per-thread execution context's verified parts: the frame record
//! and the decision whether an incoming broker message ends the thread's
//! bytecode loop.
//!
//! The context itself (channels, the interpreter loop, task spawning)
//! lives in the surrounding program; it forwards object operations to
//! the local heap and stops on a shutdown notice.

use vstd::prelude::*;

use crate::objectbroker::ObjectBrokerMessage;

verus! {

/// Bookkeeping of one interpreter frame.
pub struct FrameInfo {
    /// Program counter (not necessarily current for the top of stack).
    pub pc: usize,
    /// Operand-stack base of the frame.
    pub pc_opstack: usize,
    /// Local-variable base of the frame.
    pub pc_locals: usize,
}

/// Whether a message from the broker tells the thread that the machine
/// is shutting down, so it must stop executing user code.
pub fn is_shutdown_notice(msg: &ObjectBrokerMessage) -> (r: bool)
    ensures
        r == (msg is OB_SHUTDOWN),
{
    match msg {
        ObjectBrokerMessage::OB_SHUTDOWN(_, _) => true,
        _ => false,
    }
}

} // verus!
