//! Function signatures, compiled functions and whole programs.

use vstd::prelude::*;
use crate::bytecode::{ByteCodeStream, Opcode};
use crate::object::{Object, Type};
use crate::pool::Pool;

verus! {

/// The signature of a function, user-defined or native.
#[derive(Debug, PartialEq, Eq)]
pub struct FunctionPrototype {
    pub arity: usize,
    pub return_type: Type,
    pub parameters_types: Vec<Type>,
}

/// The mathematical content of a signature.
pub struct PrototypeView {
    pub arity: usize,
    pub return_type: Type,
    pub parameters_types: Seq<Type>,
}

impl View for FunctionPrototype {
    type V = PrototypeView;

    open spec fn view(&self) -> PrototypeView {
        PrototypeView {
            arity: self.arity,
            return_type: self.return_type,
            parameters_types: self.parameters_types@,
        }
    }
}

impl FunctionPrototype {
    pub fn new(arity: usize, return_type: Type, parameters_types: Vec<Type>) -> (proto: Self)
        ensures
            proto == (FunctionPrototype { arity, return_type, parameters_types }),
    {
        Self { arity, return_type, parameters_types }
    }
}

impl Clone for FunctionPrototype {
    fn clone(&self) -> (res: Self)
        ensures
            res@ == self@,
    {
        let mut types: Vec<Type> = Vec::new();
        let mut i: usize = 0;
        while i < self.parameters_types.len()
            invariant
                i <= self.parameters_types@.len(),
                types@ == self.parameters_types@.subrange(0, i as int),
            decreases self.parameters_types@.len() - i,
        {
            types.push(self.parameters_types[i]);
            i += 1;
            assert(types@ =~= self.parameters_types@.subrange(0, i as int));
        }
        assert(types@ =~= self.parameters_types@);
        Self { arity: self.arity, return_type: self.return_type, parameters_types: types }
    }
}

/// A compiled user function.
#[derive(Debug, PartialEq, Eq)]
pub struct DefinedFn {
    pub start_line: usize,
    pub arity: usize,
    pub code: ByteCodeStream,
    pub max_locals: usize,
}

/// The mathematical content of a compiled function.
pub struct DefinedFnView {
    pub start_line: usize,
    pub arity: usize,
    pub code: Seq<Opcode>,
    pub max_locals: usize,
}

impl View for DefinedFn {
    type V = DefinedFnView;

    open spec fn view(&self) -> DefinedFnView {
        DefinedFnView {
            start_line: self.start_line,
            arity: self.arity,
            code: self.code@,
            max_locals: self.max_locals,
        }
    }
}

impl DefinedFn {
    pub fn new(start_line: usize, arity: usize, code: ByteCodeStream, max_locals: usize) -> (f:
        Self)
        ensures
            f == (DefinedFn { start_line, arity, code, max_locals }),
    {
        Self { start_line, arity, code, max_locals }
    }
}

impl Default for DefinedFn {
    fn default() -> (f: Self)
        ensures
            f@ == (DefinedFnView {
                start_line: 0,
                arity: 0,
                code: Seq::<Opcode>::empty(),
                max_locals: 0,
            }),
    {
        Self { start_line: 0, arity: 0, code: ByteCodeStream::empty(), max_locals: 0 }
    }
}

impl Clone for DefinedFn {
    fn clone(&self) -> (res: Self)
        ensures
            res@ == self@,
    {
        Self {
            start_line: self.start_line,
            arity: self.arity,
            code: self.code.clone(),
            max_locals: self.max_locals,
        }
    }
}

/// A compiled function under its name.
#[derive(Debug, PartialEq, Eq)]
pub struct NamedFn {
    pub name: String,
    pub function: DefinedFn,
}

/// The mathematical content of a named compiled function.
pub struct NamedFnView {
    pub name: Seq<char>,
    pub function: DefinedFnView,
}

impl View for NamedFn {
    type V = NamedFnView;

    open spec fn view(&self) -> NamedFnView {
        NamedFnView { name: self.name@, function: self.function@ }
    }
}

/// The place in the table of the function called `name`, if there is one: that of the
/// latest entry under the name.
pub open spec fn function_index(fns: Seq<NamedFnView>, name: Seq<char>) -> Option<int>
    decreases fns.len(),
{
    if fns.len() == 0 {
        None
    } else if fns.last().name == name {
        Some(fns.len() - 1)
    } else {
        function_index(fns.drop_last(), name)
    }
}

/// Whether no two functions of the table have the same name.
pub open spec fn unique_names(fns: Seq<NamedFnView>) -> bool {
    forall|i: int, j: int|
        0 <= i < j < fns.len() ==> (#[trigger] fns[i]).name != (#[trigger] fns[j]).name
}

/// The place of a name that is in the table is a place of the table, and the function
/// there has that name; a name that is not in the table is the name of no function.
pub proof fn lemma_function_index(fns: Seq<NamedFnView>, name: Seq<char>)
    ensures
        match function_index(fns, name) {
            Some(k) => 0 <= k < fns.len() && fns[k].name == name,
            None => forall|i: int| 0 <= i < fns.len() ==> (#[trigger] fns[i]).name != name,
        },
    decreases fns.len(),
{
    if fns.len() > 0 && fns.last().name != name {
        lemma_function_index(fns.drop_last(), name);
        assert forall|i: int| 0 <= i < fns.len() && function_index(fns, name) is None implies (#[trigger] fns[i]).name
            != name by {
            if i < fns.len() - 1 {
                assert(fns.drop_last()[i] == fns[i]);
            }
        }
    }
}

/// A compiled program: the constant pool and the functions by name. In a program that
/// the code generator produces no two functions have the same name.
#[derive(Debug, PartialEq, Eq)]
pub struct Program {
    pub pool: Pool,
    pub fns: Vec<NamedFn>,
}

/// The mathematical content of a program.
pub struct ProgramView {
    pub pool: Seq<Object>,
    pub fns: Seq<NamedFnView>,
}

impl View for Program {
    type V = ProgramView;

    open spec fn view(&self) -> ProgramView {
        ProgramView { pool: self.pool@, fns: self.fns@.map_values(|f: NamedFn| f@) }
    }
}

} // verus!
