//! The `Code` attribute of a method: stack and local sizes, the raw
//! bytecode, and its exception handler table.

use vstd::prelude::*;

use crate::opcode::{spec_opcode_value, DecodedOpcode, Opcode};

verus! {

/// One exception handler: the protected program-counter range, the
/// handler's entry point, and the name of the caught class.
pub struct ExceptionHandler {
    pub start_pc: u16,
    pub end_pc: u16,
    pub handler_pc: u16,
    pub catch_type: String,
}

/// The code block of one method.
pub struct CodeBlock {
    pub max_stack: u16,
    pub max_locals: u16,
    pub code: Vec<u8>,
    pub exceptions: Vec<ExceptionHandler>,
}

impl CodeBlock {
    /// Assemble a code block from its parts.
    pub fn new(max_stack: u16, max_locals: u16, code: Vec<u8>, exceptions: Vec<ExceptionHandler>)
        -> (r: CodeBlock)
        ensures
            r.max_stack == max_stack,
            r.max_locals == max_locals,
            r.code@ == code@,
            r.exceptions == exceptions,
    {
        CodeBlock { max_stack, max_locals, code, exceptions }
    }

    /// Decode the raw code stream into symbolic opcodes.  Returns `None`
    /// when some byte is not a known instruction.
    pub fn decode_opcodes(&self) -> (r: Option<Vec<DecodedOpcode>>)
        ensures
            r is Some <==> (forall|i: int|
                0 <= i < self.code@.len() ==> self.code@[i] == spec_opcode_value(
                    Opcode::OpCode_nop,
                )),
            r is Some ==> r.unwrap()@.len() == self.code@.len() && forall|i: int|
                0 <= i < self.code@.len() ==> r.unwrap()@[i] == DecodedOpcode::DecodedOpcode_nop,
    {
        let mut out: Vec<DecodedOpcode> = Vec::new();
        let mut i: usize = 0;
        while i < self.code.len()
            invariant
                0 <= i <= self.code@.len(),
                out@.len() == i,
                forall|j: int| 0 <= j < i ==> self.code@[j] == 0,
                forall|j: int| 0 <= j < i ==> out@[j] == DecodedOpcode::DecodedOpcode_nop,
            decreases self.code@.len() - i,
        {
            match Opcode::from_u8(self.code[i]) {
                Some(op) => {
                    match op {
                        Opcode::OpCode_nop => out.push(DecodedOpcode::DecodedOpcode_nop),
                    }
                },
                None => {
                    return None;
                },
            }
            i += 1;
        }
        Some(out)
    }
}

} // verus!
