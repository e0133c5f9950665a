//! Symbolic opcode identifiers for the bytecode found in class files, and
//! their decoded, linked form.

#![allow(non_camel_case_types)]

use vstd::prelude::*;

verus! {

/// An instruction code as it appears in a class file's code stream.
#[derive(Clone, Copy, PartialEq, Eq, Structural, Debug)]
pub enum Opcode {
    OpCode_nop,
}

/// The byte that encodes each opcode.
pub open spec fn spec_opcode_value(op: Opcode) -> u8 {
    match op {
        Opcode::OpCode_nop => 0,
    }
}

impl Opcode {
    /// The opcode encoded by byte `v`, if it is a known instruction.
    pub fn from_u8(v: u8) -> (r: Option<Opcode>)
        ensures
            r is Some <==> v == 0,
            r is Some ==> spec_opcode_value(r.unwrap()) == v,
    {
        if v == 0 {
            Some(Opcode::OpCode_nop)
        } else {
            None
        }
    }
}

/// The decoded and linked form of an opcode, with any extra bytes of the
/// instruction attached in their most natural representation.
#[derive(Clone, Copy, PartialEq, Eq, Structural, Debug)]
pub enum DecodedOpcode {
    DecodedOpcode_nop,
}

} // verus!
