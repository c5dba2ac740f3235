//! How the state of the checker and the state of the code generator belong together
//! while both walk one accepted tree.

use vstd::prelude::*;
use crate::analysis::model::{AnalyserView, MetaStackEntry};
use crate::analysis::scope::{lookup_in, ScopeType, ScopeView, SymbolView};
use crate::ast::Statement;
use crate::bytecode::Opcode;
use crate::codegen::laws::ranges_ok;
use crate::codegen::model::{local_index, GeneratorView};
use crate::program::{function_index, NamedFnView, ProgramView};
use crate::stdlib::{native_index, NativeFnView};

verus! {

broadcast use vstd::std_specs::vec::group_vec_axioms;

/// Where in a tree a statement stands.
pub enum Place {
    /// At the top level of the tree.
    Top,
    /// Inside a block that is in no function.
    Block,
    /// Inside the function of that name.
    Function(Seq<char>),
}

/// The place of the statements of a block that stands at `place`.
pub open spec fn inside_block(place: Place) -> Place {
    match place {
        Place::Top => Place::Block,
        _ => place,
    }
}

/// Whether a statement that stands at `place` declares every function at the top
/// level and every variable inside a function.
pub open spec fn regular(statement: Statement, place: Place) -> bool
    decreases statement, 0nat,
{
    match statement {
        Statement::Function(f) => place == Place::Top && regular_all(
            f.body.statements@,
            Place::Function(f.identifier.label@),
        ),
        Statement::If(i) => regular_all(i.block.statements@, inside_block(place)),
        Statement::Variable(_) => place is Function,
        _ => true,
    }
}

/// Whether statements that stand at `place` declare every function at the top level
/// and every variable inside a function.
pub open spec fn regular_all(statements: Seq<Statement>, place: Place) -> bool
    decreases statements, 1nat,
{
    forall|i: int| 0 <= i < statements.len() ==> regular(#[trigger] statements[i], place)
}

/// Whether `name` is the name of a function of the table or of a native function.
pub open spec fn resolves(
    name: Seq<char>,
    fns: Seq<NamedFnView>,
    natives: Seq<NativeFnView>,
) -> bool {
    function_index(fns, name).is_some() || native_index(natives, name).is_some()
}

/// Whether an instruction of code of `length` instructions is in order: a loaded
/// constant is in the pool, a jump goes to an instruction of the code, and a called
/// name is that of a function of the program or of a native function.
pub open spec fn instruction_ok(
    op: Opcode,
    length: int,
    program: ProgramView,
    natives: Seq<NativeFnView>,
) -> bool {
    match op {
        Opcode::Ldc(index) => index < program.pool.len(),
        Opcode::Jump(offset) => offset < length,
        Opcode::JumpIfFalse(offset) => offset < length,
        Opcode::Invoke(name) => resolves(name@, program.fns, natives),
        _ => true,
    }
}

/// Whether every instruction of every function of the program is in order.
pub open spec fn well_formed(program: ProgramView, natives: Seq<NativeFnView>) -> bool {
    forall|i: int, j: int|
        0 <= i < program.fns.len() && 0 <= j < program.fns[i].function.code.len()
            ==> instruction_ok(
            #[trigger] program.fns[i].function.code[j],
            program.fns[i].function.code.len() as int,
            program,
            natives,
        )
}

/// Whether a scope binds functions only.
pub open spec fn only_functions(scope: ScopeView) -> bool {
    forall|i: int| 0 <= i < scope.store.len() ==> (#[trigger] scope.store[i]).object is FnPrototype
}

/// Whether a scope binds variables only.
pub open spec fn only_variables(scope: ScopeView) -> bool {
    forall|i: int| 0 <= i < scope.store.len() ==> (#[trigger] scope.store[i]).object is VarType
}

/// The names that a scope binds, in the order of their declaration.
pub open spec fn names_of(scope: ScopeView) -> Seq<Seq<char>> {
    scope.store.map_values(|s: SymbolView| s.name)
}

/// Whether every name that the code calls is bound in the scope.
pub open spec fn calls_declared(code: Seq<Opcode>, global: ScopeView) -> bool {
    forall|j: int|
        0 <= j < code.len() ==> ((#[trigger] code[j]) matches Opcode::Invoke(name)
            ==> global.is_declared(name@))
}

/// Whether every variable that the meta-stack names is a local.
pub open spec fn places_known(stack: Seq<MetaStackEntry>, locals: Seq<Seq<char>>) -> bool {
    forall|k: int|
        0 <= k < stack.len() ==> ((#[trigger] stack[k]).place() matches Some(p) ==> local_index(
            locals,
            p.0@,
        ).is_some())
}

/// Whether every name bound in the scope is that of a generated function, of a native
/// function, or of the function that is being generated.
pub open spec fn declared_resolve(
    global: ScopeView,
    fns: Seq<NamedFnView>,
    natives: Seq<NativeFnView>,
    place: Place,
) -> bool {
    forall|name: Seq<char>| #[trigger]
        global.is_declared(name) ==> resolves(name, fns, natives) || place == Place::Function(
            name,
        )
}

/// Whether the name of every generated function is bound in the scope.
pub open spec fn functions_declared(fns: Seq<NamedFnView>, global: ScopeView) -> bool {
    forall|name: Seq<char>|
        (#[trigger] function_index(fns, name)).is_some() ==> global.is_declared(name)
}

/// Whether every name that a generated function calls is bound in the scope.
pub open spec fn functions_call_declared(fns: Seq<NamedFnView>, global: ScopeView) -> bool {
    forall|i: int|
        0 <= i < fns.len() ==> calls_declared((#[trigger] fns[i]).function.code, global)
}

/// Whether the checker, in state `s` without a diagnostic, and the code generator, in
/// state `g`, are at the same point of a tree, at `place`.
pub open spec fn related(
    s: AnalyserView,
    g: GeneratorView,
    place: Place,
    natives: Seq<NativeFnView>,
) -> bool {
    &&& s.errors.len() == 0
    &&& s.scopes.len() == (if place is Function {
        2int
    } else {
        1int
    })
    &&& g.nested == !(place is Top)
    &&& s.scopes[0].type_ == ScopeType::Global
    &&& only_functions(s.scopes[0])
    &&& declared_resolve(s.scopes[0], g.fns, natives, place)
    &&& functions_declared(g.fns, s.scopes[0])
    &&& functions_call_declared(g.fns, s.scopes[0])
    &&& calls_declared(g.code, s.scopes[0])
    &&& places_known(s.metastack, g.locals)
    &&& (place matches Place::Function(f) ==> {
        &&& only_variables(s.scopes[1])
        &&& names_of(s.scopes[1]) == g.locals
        &&& s.scopes[0].is_declared(f)
        &&& function_index(g.fns, f).is_none()
    })
    &&& ranges_ok(g)
}

/// What a binding added to a store does to the meaning of a name.
pub proof fn lemma_lookup_push(store: Seq<SymbolView>, symbol: SymbolView, name: Seq<char>)
    ensures
        lookup_in(store.push(symbol), name) == (if symbol.name == name {
            Some(symbol.object)
        } else {
            lookup_in(store, name)
        }),
{
    assert(store.push(symbol).drop_last() =~= store);
}

/// What a local added to the locals does to the index of a name.
pub proof fn lemma_local_push(locals: Seq<Seq<char>>, local: Seq<char>, name: Seq<char>)
    ensures
        local_index(locals.push(local), name) == (if local == name {
            Some(locals.len() as int)
        } else {
            local_index(locals, name)
        }),
{
    assert(locals.push(local).drop_last() =~= locals);
}

/// What a function added to the table does to the place of a name.
pub proof fn lemma_function_push(fns: Seq<NamedFnView>, f: NamedFnView, name: Seq<char>)
    ensures
        function_index(fns.push(f), name) == (if f.name == name {
            Some(fns.len() as int)
        } else {
            function_index(fns, name)
        }),
{
    assert(fns.push(f).drop_last() =~= fns);
}

/// A store binds a name exactly if the name is among the names it binds.
pub proof fn lemma_lookup_names(store: Seq<SymbolView>, name: Seq<char>)
    ensures
        lookup_in(store, name).is_some() == local_index(
            store.map_values(|s: SymbolView| s.name),
            name,
        ).is_some(),
    decreases store.len(),
{
    let names = store.map_values(|s: SymbolView| s.name);
    if store.len() > 0 {
        assert(names.last() == store.last().name);
        assert(names.drop_last() =~= store.drop_last().map_values(|s: SymbolView| s.name));
        lemma_lookup_names(store.drop_last(), name);
    }
}

/// What a name stands for in a store is the meaning of one of the store's bindings.
pub proof fn lemma_lookup_is_binding(store: Seq<SymbolView>, name: Seq<char>)
    requires
        lookup_in(store, name).is_some(),
    ensures
        exists|i: int| 0 <= i < store.len() && (#[trigger] store[i]).object == lookup_in(
            store,
            name,
        ).unwrap(),
    decreases store.len(),
{
    if store.last().name == name {
        assert(store[store.len() - 1].object == lookup_in(store, name).unwrap());
    } else {
        lemma_lookup_is_binding(store.drop_last(), name);
        let i = choose|i: int|
            0 <= i < store.drop_last().len() && (#[trigger] store.drop_last()[i]).object
                == lookup_in(store.drop_last(), name).unwrap();
        assert(store[i] == store.drop_last()[i]);
    }
}

/// The global scope over the native functions binds exactly their names.
pub proof fn lemma_native_lookup(natives: Seq<NativeFnView>, name: Seq<char>)
    ensures
        ScopeView::global(natives).is_declared(name) == native_index(natives, name).is_some(),
    decreases natives.len(),
{
    let store = ScopeView::global(natives).store;
    if natives.len() > 0 {
        assert(store.last().name == natives.last().name);
        assert(store.drop_last() =~= ScopeView::global(natives.drop_last()).store);
        lemma_native_lookup(natives.drop_last(), name);
    }
}

} // verus!
