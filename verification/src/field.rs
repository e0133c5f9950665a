//! Java field descriptors, parsed after the official grammar: a base
//! type letter, an object type `L<name>;`, or `[` prefixes adding array
//! dimensions.

#![allow(non_camel_case_types)]

use vstd::prelude::*;

use crate::classfile::dotted;

verus! {

/// The primitive field types, by their descriptor letters.
#[derive(Clone, Copy, PartialEq, Eq, Structural, Debug)]
pub enum BaseType {
    BT_B_byte,
    BT_C_char,
    BT_D_double,
    BT_F_float,
    BT_I_int,
    BT_J_long,
    BT_S_short,
    BT_Z_boolean,
}

/// The descriptor letter of each primitive type.
pub open spec fn spec_base_type_char(b: BaseType) -> char {
    match b {
        BaseType::BT_B_byte => 'B',
        BaseType::BT_C_char => 'C',
        BaseType::BT_D_double => 'D',
        BaseType::BT_F_float => 'F',
        BaseType::BT_I_int => 'I',
        BaseType::BT_J_long => 'J',
        BaseType::BT_S_short => 'S',
        BaseType::BT_Z_boolean => 'Z',
    }
}

/// A parsed field descriptor.
pub enum FieldDescriptor {
    /// A primitive type.
    FD_BaseType(BaseType),
    /// An object type, by the dotted name of its class.
    FD_ObjectType(String),
    /// One array dimension over the inner type.
    FD_ArrayType(Box<FieldDescriptor>),
}

/// Whether descriptor characters `s` are well formed.
pub open spec fn valid_field_desc(s: Seq<char>) -> bool
    decreases s.len(),
{
    if s.len() == 0 {
        false
    } else if s[0] == 'L' {
        s.len() >= 2 && s.last() == ';'
    } else if s[0] == '[' {
        valid_field_desc(s.drop_first())
    } else {
        s.len() == 1 && (s[0] == 'B' || s[0] == 'C' || s[0] == 'D' || s[0] == 'F' || s[0] == 'I'
            || s[0] == 'J' || s[0] == 'S' || s[0] == 'Z')
    }
}

/// Whether `fd` is exactly the descriptor written as `s`.
pub open spec fn fd_matches(fd: FieldDescriptor, s: Seq<char>) -> bool
    decreases fd,
{
    match fd {
        FieldDescriptor::FD_BaseType(b) => s =~= seq![spec_base_type_char(b)],
        FieldDescriptor::FD_ObjectType(name) => s.len() >= 2 && s[0] == 'L' && s.last() == ';'
            && name@ == dotted(s.subrange(1, s.len() - 1)),
        FieldDescriptor::FD_ArrayType(inner) => s.len() >= 1 && s[0] == '[' && fd_matches(
            *inner,
            s.drop_first(),
        ),
    }
}

/// A named field with its parsed type.
pub struct JavaField {
    pub name: String,
    pub jtype: FieldDescriptor,
}

impl JavaField {
    /// Parse `field_desc` and bind it under `name`.
    pub fn new_from_string(name: &str, field_desc: &str) -> (r: Result<JavaField, String>)
        ensures
            r is Ok <==> valid_field_desc(field_desc@),
            r is Ok ==> r.unwrap().name@ == name@ && fd_matches(r.unwrap().jtype, field_desc@),
    {
        match JavaField::resolve_field_desc(field_desc) {
            Ok(t) => Ok(JavaField { name: name.to_owned(), jtype: t }),
            Err(s) => Err(s),
        }
    }

    /// Parse a field descriptor: a primitive letter, `L<name>;` (whose
    /// name, with `/` turned to `.`, names the class to load lazily), or
    /// `[` for each array dimension.
    pub fn resolve_field_desc(field_desc: &str) -> (r: Result<FieldDescriptor, String>)
        ensures
            r is Ok <==> valid_field_desc(field_desc@),
            r is Ok ==> fd_matches(r.unwrap(), field_desc@),
        decreases field_desc@.len(),
    {
        let n = field_desc.unicode_len();
        if n == 0 {
            return Err("empty field descriptor".to_owned());
        }
        let head = field_desc.get_char(0);
        if head == 'L' {
            if n >= 2 && field_desc.get_char(n - 1) == ';' {
                let inner = field_desc.substring_char(1, n - 1);
                let name = crate::classfile::replace_slashes(inner);
                proof {
                    assert(inner@ =~= field_desc@.subrange(1, field_desc@.len() - 1));
                }
                Ok(FieldDescriptor::FD_ObjectType(name))
            } else {
                Err("class name must end with ;".to_owned())
            }
        } else if head == '[' {
            let rest = field_desc.substring_char(1, n);
            proof {
                assert(rest@ =~= field_desc@.drop_first());
            }
            match JavaField::resolve_field_desc(rest) {
                Ok(fd) => Ok(FieldDescriptor::FD_ArrayType(Box::new(fd))),
                Err(s) => Err(s),
            }
        } else if head == 'B' || head == 'C' || head == 'D' || head == 'F' || head == 'I' || head
            == 'J' || head == 'S' || head == 'Z' {
            if n == 1 {
                let b = if head == 'B' {
                    BaseType::BT_B_byte
                } else if head == 'C' {
                    BaseType::BT_C_char
                } else if head == 'D' {
                    BaseType::BT_D_double
                } else if head == 'F' {
                    BaseType::BT_F_float
                } else if head == 'I' {
                    BaseType::BT_I_int
                } else if head == 'J' {
                    BaseType::BT_J_long
                } else if head == 'S' {
                    BaseType::BT_S_short
                } else {
                    BaseType::BT_Z_boolean
                };
                proof {
                    assert(field_desc@ =~= seq![spec_base_type_char(b)]);
                }
                Ok(FieldDescriptor::FD_BaseType(b))
            } else {
                Err("non-consumed trailing characters".to_owned())
            }
        } else {
            Err("cannot parse, unrecognized character".to_owned())
        }
    }
}

} // verus!
