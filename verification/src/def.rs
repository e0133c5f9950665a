//! Class-file constants: access flags, constant-pool tags and the parsed
//! form of constant-pool entries.
//!
//! A constant pool is 1-indexed.  `long` and `double` entries occupy two
//! slots; the slot after such an entry is unusable and is represented
//! here explicitly so that stored indices keep their meaning.  Floating
//! point entries carry their raw big-endian bit patterns.

#![allow(non_camel_case_types)]

use vstd::prelude::*;

verus! {

pub const ACC_PUBLIC: u16 = 0x1;

pub const ACC_PRIVATE: u16 = 0x2;

pub const ACC_PROTECTED: u16 = 0x4;

pub const ACC_STATIC: u16 = 0x8;

pub const ACC_FINAL: u16 = 0x10;

pub const ACC_SYNCHRONIZED: u16 = 0x20;

pub const ACC_VOLATILE: u16 = 0x40;

pub const ACC_TRANSIENT: u16 = 0x80;

pub const ACC_NATIVE: u16 = 0x100;

pub const ACC_INTERFACE: u16 = 0x200;

pub const ACC_ABSTRACT: u16 = 0x400;

pub const ACC_STRICTFP: u16 = 0x800;

pub const ACC_SYNTHETIC: u16 = 0x1000;

pub const ACC_ANNOTATION: u16 = 0x2000;

pub const ACC_ENUM: u16 = 0x4000;

/// The tag byte kinds a constant-pool entry may carry.
#[derive(Clone, Copy, PartialEq, Eq, Structural, Debug)]
pub enum ConstantPoolTags {
    CONSTANT_class,
    CONSTANT_fieldref,
    CONSTANT_methodref,
    CONSTANT_ifacemethodref,
    CONSTANT_string,
    CONSTANT_integer,
    CONSTANT_float,
    CONSTANT_long,
    CONSTANT_double,
    CONSTANT_nameandtype,
    CONSTANT_utf8,
    CONSTANT_methodhandle,
    CONSTANT_methodtype,
    CONSTANT_invokedynamic,
}

/// The tag byte written in a class file for each tag kind.
pub open spec fn spec_tag_value(t: ConstantPoolTags) -> u8 {
    match t {
        ConstantPoolTags::CONSTANT_class => 7,
        ConstantPoolTags::CONSTANT_fieldref => 9,
        ConstantPoolTags::CONSTANT_methodref => 10,
        ConstantPoolTags::CONSTANT_ifacemethodref => 11,
        ConstantPoolTags::CONSTANT_string => 8,
        ConstantPoolTags::CONSTANT_integer => 3,
        ConstantPoolTags::CONSTANT_float => 4,
        ConstantPoolTags::CONSTANT_long => 5,
        ConstantPoolTags::CONSTANT_double => 6,
        ConstantPoolTags::CONSTANT_nameandtype => 12,
        ConstantPoolTags::CONSTANT_utf8 => 1,
        ConstantPoolTags::CONSTANT_methodhandle => 15,
        ConstantPoolTags::CONSTANT_methodtype => 16,
        ConstantPoolTags::CONSTANT_invokedynamic => 18,
    }
}

/// The tag kind a byte denotes, if any.
pub open spec fn spec_tag_from_u8(v: u8) -> Option<ConstantPoolTags> {
    if v == 7 {
        Some(ConstantPoolTags::CONSTANT_class)
    } else if v == 9 {
        Some(ConstantPoolTags::CONSTANT_fieldref)
    } else if v == 10 {
        Some(ConstantPoolTags::CONSTANT_methodref)
    } else if v == 11 {
        Some(ConstantPoolTags::CONSTANT_ifacemethodref)
    } else if v == 8 {
        Some(ConstantPoolTags::CONSTANT_string)
    } else if v == 3 {
        Some(ConstantPoolTags::CONSTANT_integer)
    } else if v == 4 {
        Some(ConstantPoolTags::CONSTANT_float)
    } else if v == 5 {
        Some(ConstantPoolTags::CONSTANT_long)
    } else if v == 6 {
        Some(ConstantPoolTags::CONSTANT_double)
    } else if v == 12 {
        Some(ConstantPoolTags::CONSTANT_nameandtype)
    } else if v == 1 {
        Some(ConstantPoolTags::CONSTANT_utf8)
    } else if v == 15 {
        Some(ConstantPoolTags::CONSTANT_methodhandle)
    } else if v == 16 {
        Some(ConstantPoolTags::CONSTANT_methodtype)
    } else if v == 18 {
        Some(ConstantPoolTags::CONSTANT_invokedynamic)
    } else {
        None
    }
}

impl ConstantPoolTags {
    /// The tag byte of this kind.
    pub fn tag_value(&self) -> (r: u8)
        ensures
            r == spec_tag_value(*self),
    {
        match self {
            ConstantPoolTags::CONSTANT_class => 7,
            ConstantPoolTags::CONSTANT_fieldref => 9,
            ConstantPoolTags::CONSTANT_methodref => 10,
            ConstantPoolTags::CONSTANT_ifacemethodref => 11,
            ConstantPoolTags::CONSTANT_string => 8,
            ConstantPoolTags::CONSTANT_integer => 3,
            ConstantPoolTags::CONSTANT_float => 4,
            ConstantPoolTags::CONSTANT_long => 5,
            ConstantPoolTags::CONSTANT_double => 6,
            ConstantPoolTags::CONSTANT_nameandtype => 12,
            ConstantPoolTags::CONSTANT_utf8 => 1,
            ConstantPoolTags::CONSTANT_methodhandle => 15,
            ConstantPoolTags::CONSTANT_methodtype => 16,
            ConstantPoolTags::CONSTANT_invokedynamic => 18,
        }
    }

    /// The tag kind written as byte `v`, if `v` is a known tag.
    pub fn from_u8(v: u8) -> (r: Option<ConstantPoolTags>)
        ensures
            r == spec_tag_from_u8(v),
            r is Some ==> spec_tag_value(r.unwrap()) == v,
    {
        match v {
            7 => Some(ConstantPoolTags::CONSTANT_class),
            9 => Some(ConstantPoolTags::CONSTANT_fieldref),
            10 => Some(ConstantPoolTags::CONSTANT_methodref),
            11 => Some(ConstantPoolTags::CONSTANT_ifacemethodref),
            8 => Some(ConstantPoolTags::CONSTANT_string),
            3 => Some(ConstantPoolTags::CONSTANT_integer),
            4 => Some(ConstantPoolTags::CONSTANT_float),
            5 => Some(ConstantPoolTags::CONSTANT_long),
            6 => Some(ConstantPoolTags::CONSTANT_double),
            12 => Some(ConstantPoolTags::CONSTANT_nameandtype),
            1 => Some(ConstantPoolTags::CONSTANT_utf8),
            15 => Some(ConstantPoolTags::CONSTANT_methodhandle),
            16 => Some(ConstantPoolTags::CONSTANT_methodtype),
            18 => Some(ConstantPoolTags::CONSTANT_invokedynamic),
            _ => None,
        }
    }
}

/// One parsed constant-pool entry.  Stored indices are the 1-based slot
/// numbers of the class file.  `float` and `double` entries carry the raw
/// big-endian bit patterns of their values.
pub enum Constant {
    CONSTANT_class_info(u16),
    CONSTANT_fieldref_info(u16, u16),
    CONSTANT_methodref_info(u16, u16),
    CONSTANT_ifacemethodref_info(u16, u16),
    CONSTANT_string_info(u16),
    CONSTANT_integer_info(i32),
    CONSTANT_float_info(u32),
    CONSTANT_long_info(i64),
    CONSTANT_double_info(u64),
    CONSTANT_nameandtype_info(u16, u16),
    CONSTANT_utf8_info(String),
    CONSTANT_methodhandle_info(u8, u16),
    CONSTANT_methodtype_info(u16),
    CONSTANT_invokedynamic_info(u16, u16),
    /// The unusable slot that follows a `long` or `double` entry.
    CONSTANT_unusable,
}

impl Clone for Constant {
    fn clone(&self) -> (r: Self)
        ensures
            r == *self,
    {
        match self {
            Constant::CONSTANT_class_info(a) => Constant::CONSTANT_class_info(*a),
            Constant::CONSTANT_fieldref_info(a, b) => Constant::CONSTANT_fieldref_info(*a, *b),
            Constant::CONSTANT_methodref_info(a, b) => Constant::CONSTANT_methodref_info(*a, *b),
            Constant::CONSTANT_ifacemethodref_info(a, b) => Constant::CONSTANT_ifacemethodref_info(
                *a,
                *b,
            ),
            Constant::CONSTANT_string_info(a) => Constant::CONSTANT_string_info(*a),
            Constant::CONSTANT_integer_info(a) => Constant::CONSTANT_integer_info(*a),
            Constant::CONSTANT_float_info(a) => Constant::CONSTANT_float_info(*a),
            Constant::CONSTANT_long_info(a) => Constant::CONSTANT_long_info(*a),
            Constant::CONSTANT_double_info(a) => Constant::CONSTANT_double_info(*a),
            Constant::CONSTANT_nameandtype_info(a, b) => Constant::CONSTANT_nameandtype_info(
                *a,
                *b,
            ),
            Constant::CONSTANT_utf8_info(s) => Constant::CONSTANT_utf8_info(s.clone()),
            Constant::CONSTANT_methodhandle_info(a, b) => Constant::CONSTANT_methodhandle_info(
                *a,
                *b,
            ),
            Constant::CONSTANT_methodtype_info(a) => Constant::CONSTANT_methodtype_info(*a),
            Constant::CONSTANT_invokedynamic_info(a, b) => Constant::CONSTANT_invokedynamic_info(
                *a,
                *b,
            ),
            Constant::CONSTANT_unusable => Constant::CONSTANT_unusable,
        }
    }
}

} // verus!
