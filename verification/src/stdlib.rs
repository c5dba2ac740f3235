//! The native functions that every program can call.

use vstd::prelude::*;
use vstd::string::*;
use crate::object::Type;
use crate::program::{FunctionPrototype, PrototypeView};

verus! {

/// A native function as the compiler and the engine know it: its name and signature.
/// The host keeps the callable itself.
#[derive(Debug, PartialEq, Eq)]
pub struct NativeFn {
    pub name: String,
    pub prototype: FunctionPrototype,
}

/// The mathematical content of a native function's entry.
pub struct NativeFnView {
    pub name: Seq<char>,
    pub prototype: PrototypeView,
}

impl View for NativeFn {
    type V = NativeFnView;

    open spec fn view(&self) -> NativeFnView {
        NativeFnView { name: self.name@, prototype: self.prototype@ }
    }
}

/// The contents of a table of native functions, in order.
pub open spec fn natives_view(natives: Seq<NativeFn>) -> Seq<NativeFnView> {
    natives.map_values(|n: NativeFn| n@)
}

/// The place in the table of the native function called `name`, if there is one: that
/// of the latest entry under the name.
pub open spec fn native_index(natives: Seq<NativeFnView>, name: Seq<char>) -> Option<int>
    decreases natives.len(),
{
    if natives.len() == 0 {
        None
    } else if natives.last().name == name {
        Some(natives.len() - 1)
    } else {
        native_index(natives.drop_last(), name)
    }
}

/// The standard table: `write`, which takes one argument of any type and returns nothing.
pub open spec fn standard_natives() -> Seq<NativeFnView> {
    seq![
        NativeFnView {
            name: "write"@,
            prototype: PrototypeView {
                arity: 1,
                return_type: Type::Void,
                parameters_types: Seq::<Type>::empty(),
            },
        },
    ]
}

pub fn list_natives() -> (natives: Vec<NativeFn>)
    ensures
        natives_view(natives@) == standard_natives(),
{
    let prototype = FunctionPrototype::new(1, Type::Void, Vec::new());
    let mut natives: Vec<NativeFn> = Vec::new();
    natives.push(NativeFn { name: String::from_str("write"), prototype });
    assert(natives_view(natives@) =~= standard_natives());
    natives
}

} // verus!
