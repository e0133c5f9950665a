//! The control messages between the machine handle and the broker, and
//! the handle's view of the exit code.
//!
//! The machine has a lifecycle of created, running, exited.  Exit is
//! idempotent: the first shutdown event fixes the exit code, and every
//! later query or exit call sees that same code.

#![allow(non_camel_case_types)]

use vstd::prelude::*;

verus! {

/// What the machine handle may send the broker.
#[derive(Clone, Copy, PartialEq, Eq, Structural, Debug)]
pub enum VMToBrokerControlMessage {
    /// Ask the broker to run the shutdown protocol.
    VM_TO_BROKER_DO_SHUTDOWN,
    /// Acknowledge the shutdown report; the broker may now terminate.
    VM_TO_BROKER_ACK_SHUTDOWN,
}

/// What the broker may send the machine handle.
#[derive(Clone, Copy, PartialEq, Eq, Structural, Debug)]
pub enum BrokerToVMControlMessage {
    /// Shutdown finished with the given exit code.
    BROKER_TO_VM_DID_SHUTDOWN(i64),
}

/// The recorded exit code after observing a shutdown report: the first
/// report wins, later ones change nothing.
pub open spec fn spec_record_exit(st: Option<i64>, code: i64) -> Option<i64> {
    if st is Some {
        st
    } else {
        Some(code)
    }
}

/// The machine handle's knowledge of the exit code.  `None` until a
/// shutdown report has been seen.
pub struct VmExitStatus {
    pub exit_code: Option<i64>,
}

impl VmExitStatus {
    /// A handle that has not seen the machine exit.
    pub fn new() -> (r: VmExitStatus)
        ensures
            r.exit_code is None,
    {
        VmExitStatus { exit_code: None }
    }

    /// Record a shutdown report.  The first recorded code is kept; any
    /// later report leaves it unchanged.
    pub fn record_did_shutdown(&mut self, code: i64)
        ensures
            final(self).exit_code == spec_record_exit(old(self).exit_code, code),
            final(self).exit_code is Some,
    {
        if self.exit_code.is_none() {
            self.exit_code = Some(code);
        }
    }

    /// The exit code, once the machine has exited.
    pub fn get_exit_code(&self) -> (r: Option<i64>)
        ensures
            r == self.exit_code,
    {
        self.exit_code
    }

    /// Whether the machine has exited; equivalent to the exit code being
    /// known.
    pub fn is_exited(&self) -> (r: bool)
        ensures
            r == (self.exit_code is Some),
    {
        self.exit_code.is_some()
    }
}

/// Exiting is idempotent: once a shutdown report has fixed the exit
/// code, recording any further report returns the very same code, so two
/// exit calls observe equal codes.
pub proof fn lemma_exit_code_first_wins(st: Option<i64>, c1: i64, c2: i64)
    ensures
        spec_record_exit(spec_record_exit(st, c1), c2) == spec_record_exit(st, c1),
{
}

} // verus!
