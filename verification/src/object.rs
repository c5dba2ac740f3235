//! The closed set of language types and the runtime values.

use vstd::prelude::*;

verus! {

/// A type of the language. `Void` marks the absence of a value and has no runtime value.
#[derive(Debug, Clone, Copy, PartialEq, Eq, Structural)]
pub enum Type {
    Void,
    String,
    Integer,
    Boolean,
}

impl Type {
    /// The keyword that names the type in source text and in messages.
    pub open spec fn spec_name(self) -> Seq<char> {
        match self {
            Type::Void => "void"@,
            Type::String => "str"@,
            Type::Integer => "int"@,
            Type::Boolean => "bool"@,
        }
    }

    pub fn name(&self) -> (text: &'static str)
        ensures
            text@ == self.spec_name(),
    {
        match self {
            Type::Void => "void",
            Type::String => "str",
            Type::Integer => "int",
            Type::Boolean => "bool",
        }
    }
}

/// A runtime value.
#[derive(Debug, PartialEq, Eq)]
pub enum Object {
    Integer(i32),
    String(String),
    Boolean(bool),
}

impl Object {
    /// The type whose values have this value's kind.
    pub open spec fn spec_kind(self) -> Type {
        match self {
            Object::Integer(_) => Type::Integer,
            Object::String(_) => Type::String,
            Object::Boolean(_) => Type::Boolean,
        }
    }

    pub fn kind(&self) -> (t: Type)
        ensures
            t == self.spec_kind(),
    {
        match self {
            Object::Integer(_) => Type::Integer,
            Object::String(_) => Type::String,
            Object::Boolean(_) => Type::Boolean,
        }
    }
}

impl Clone for Object {
    fn clone(&self) -> (res: Self)
        ensures
            res == *self,
    {
        match self {
            Object::Integer(x) => Object::Integer(*x),
            Object::String(s) => Object::String(s.clone()),
            Object::Boolean(b) => Object::Boolean(*b),
        }
    }
}

} // verus!
