//! The internal representation of a loaded Java class.

use vstd::prelude::*;

use crate::code::CodeBlock;
use crate::def::Constant;

verus! {

/// One method of a class: its name, its descriptor string and its code.
pub struct JavaMethod {
    pub name: String,
    pub descriptor: String,
    pub code: CodeBlock,
}

impl JavaMethod {
    /// Assemble a method from its parts.
    pub fn new(name: String, descriptor: String, code: CodeBlock) -> (r: JavaMethod)
        ensures
            r.name@ == name@,
            r.descriptor@ == descriptor@,
            r.code == code,
    {
        JavaMethod { name, descriptor, code }
    }
}

/// A loaded Java class: its fully qualified dotted name, access flags,
/// frozen constant pool, the names of its parents (super class first,
/// then implemented interfaces) and its method table.
pub struct JavaClass {
    pub name: String,
    pub attrs: u16,
    pub constants: Vec<Constant>,
    /// Names of the super class and the implemented interfaces; parents
    /// are looked up in the loader under these names.
    pub parents: Vec<String>,
    pub methods: Vec<JavaMethod>,
}

impl JavaClass {
    /// Assemble a class from its parsed parts, with no methods attached
    /// yet and no access flags.
    pub fn new(name: &str, constants: Vec<Constant>, parents: Vec<String>) -> (r: JavaClass)
        ensures
            r.name@ == name@,
            r.attrs == 0,
            r.constants == constants,
            r.parents == parents,
            r.methods@.len() == 0,
    {
        JavaClass {
            name: name.to_owned(),
            attrs: 0,
            constants,
            parents,
            methods: Vec::new(),
        }
    }

    /// The fully qualified dotted name of the class.
    pub fn get_name(&self) -> (r: &String)
        ensures
            r@ == self.name@,
    {
        &self.name
    }
}

} // verus!
