//! The types that the check gives to the code it lets the generator write: which
//! trees are checked soundly, and how the state of the checker types the instructions
//! of the function that is being generated.

use vstd::prelude::*;
use crate::analysis::model::{prototype_of, AnalyserView, MetaStackEntry};
use crate::analysis::scope::{lookup_in, MetaObjectView, ScopeView, SymbolView};
use crate::ast::{Statement, StatementExpression, StatementFunction};
use crate::bytecode::Opcode;
use crate::codegen::model::local_index;
use crate::compiler::relation::names_of;
use crate::engine::typing::{call_typed, ends_with, local_typed, FunctionTyping, Point};
use crate::object::{Object, Type};
use crate::program::{function_index, NamedFnView};
use crate::stdlib::{native_index, NativeFnView};

verus! {

broadcast use vstd::std_specs::vec::group_vec_axioms;

/// The types of the values that the meta-stack stands for, in order. A variable that
/// was just declared stands for no value.
pub open spec fn value_types(stack: Seq<MetaStackEntry>) -> Seq<Type>
    decreases stack.len(),
{
    if stack.len() == 0 {
        Seq::empty()
    } else {
        match stack.last().value_type() {
            Some(t) => value_types(stack.drop_last()).push(t),
            None => value_types(stack.drop_last()),
        }
    }
}

/// The type of the variable that a binding binds; `Void` for a function.
pub open spec fn symbol_type(symbol: SymbolView) -> Type {
    match symbol.object {
        MetaObjectView::VarType(t) => t,
        MetaObjectView::FnPrototype(_) => Type::Void,
    }
}

/// The types of the variables of a scope, in the order of their declaration.
pub open spec fn local_types(scope: ScopeView) -> Seq<Type> {
    scope.store.map_values(|s: SymbolView| symbol_type(s))
}

/// The locals that hold a value of their type when a function starts: its parameters.
pub open spec fn parameters_ready(f: StatementFunction) -> Set<int> {
    Set::new(|i: int| 0 <= i < f.parameters.parameters@.len())
}

/// The locals that were written after a statement, `ready` being those that were
/// written before it: an accepted assignment writes its variable. What is written
/// inside the block of an `if` is not written where the block is skipped.
pub open spec fn ready_after(s: AnalyserView, ready: Set<int>, statement: Statement) -> Set<int> {
    match statement {
        Statement::Assignment(_) => match s.assignment_target() {
            Some(name) => match local_index(names_of(s.scopes.last()), name@) {
                Some(index) => ready.insert(index),
                None => ready,
            },
            None => ready,
        },
        _ => ready,
    }
}

/// The locals that were written after the first `count` of the statements.
pub open spec fn ready_after_all(
    s: AnalyserView,
    ready: Set<int>,
    statements: Seq<Statement>,
    count: nat,
) -> Set<int>
    decreases count,
{
    if count == 0 || count > statements.len() {
        ready
    } else {
        ready_after(
            s.statements(statements, (count - 1) as nat),
            ready_after_all(s, ready, statements, (count - 1) as nat),
            statements[count - 1],
        )
    }
}

/// Whether the check of a statement that starts in state `s`, with the locals `ready`
/// written, in a function that returns `yields`, is sound: a variable that is read is
/// an integer or was written; every return marker returns what the function returns;
/// and an assignment to a variable that stands on the meta-stack as a value finds no
/// other value below it.
pub open spec fn disciplined(
    s: AnalyserView,
    ready: Set<int>,
    statement: Statement,
    yields: Type,
) -> bool
    decreases statement, 0nat,
{
    match statement {
        Statement::Function(f) => disciplined_all(
            s.open_function(f).parameters(f, f.parameters.parameters@.len()),
            parameters_ready(f),
            f.body.statements@,
            f.return_type,
        ),
        Statement::If(i) => s.condition_ok() ==> disciplined_all(
            s.open_if(i),
            ready,
            i.block.statements@,
            yields,
        ),
        Statement::Variable(_) => true,
        Statement::Assignment(_) => {
            let n = s.depth();
            n >= 2 && s.metastack[n - 2] is Identifier ==> value_types(
                s.metastack.subrange(0, n - 2),
            ).len() == 0
        },
        Statement::Expression(StatementExpression::Return(_)) => s.return_annotation()
            == yields,
        Statement::Expression(StatementExpression::Identifier(identifier)) => {
            match crate::analysis::scope::lookup_scopes(s.scopes, identifier.label@) {
                Some(MetaObjectView::VarType(t)) => t == Type::Integer || (local_index(
                    names_of(s.scopes.last()),
                    identifier.label@,
                ) matches Some(index) && ready.contains(index)),
                _ => true,
            }
        },
        Statement::Expression(_) => true,
    }
}

/// Whether the check of each of the statements is sound, the check of the sequence
/// starting in state `s` with the locals `ready` written.
pub open spec fn disciplined_all(
    s: AnalyserView,
    ready: Set<int>,
    statements: Seq<Statement>,
    yields: Type,
) -> bool
    decreases statements, 1nat,
{
    forall|i: int|
        0 <= i < statements.len() ==> disciplined(
            s.statements(statements, i as nat),
            ready_after_all(s, ready, statements, i as nat),
            #[trigger] statements[i],
            yields,
        )
}

/// What the instruction that comes next finds: the values that the meta-stack stands
/// for, and the locals `ready` written.
pub open spec fn point(s: AnalyserView, ready: Set<int>) -> Point {
    Point { stack: value_types(s.metastack), ready }
}

/// The types of the function `f` while it is being generated: `points` for the
/// instructions written so far, and for the instruction that comes next what the
/// meta-stack stands for and the locals `ready`.
pub open spec fn draft(
    s: AnalyserView,
    points: Seq<Point>,
    ready: Set<int>,
    f: StatementFunction,
) -> FunctionTyping {
    FunctionTyping {
        parameters: prototype_of(f).parameters_types,
        return_type: f.return_type,
        locals: local_types(s.scopes[1]),
        points: points.push(point(s, ready)),
    }
}

/// Whether an instruction of the function that is being generated finds what it needs
/// and leaves what its successors expect. A call is held against the signature that
/// the global scope gives its name.
pub open spec fn shaped(
    op: Opcode,
    ip: int,
    own: FunctionTyping,
    pool: Seq<Object>,
    global: ScopeView,
    natives: Seq<NativeFnView>,
) -> bool {
    match op {
        Opcode::Invoke(name) => match lookup_in(global.store, name@) {
            Some(MetaObjectView::FnPrototype(p)) => if native_index(natives, name@) is Some {
                call_typed(own, ip, p.arity as int, None, p.return_type)
            } else {
                p.arity == p.parameters_types.len() && call_typed(
                    own,
                    ip,
                    p.arity as int,
                    Some(p.parameters_types),
                    p.return_type,
                )
            },
            _ => false,
        },
        op => local_typed(op, pool, own, ip),
    }
}

/// Whether the global scope gives each native function its signature.
pub open spec fn natives_bound(global: ScopeView, natives: Seq<NativeFnView>) -> bool {
    forall|name: Seq<char>|
        (#[trigger] native_index(natives, name)) matches Some(k) ==> lookup_in(
            global.store,
            name,
        ) == Some(MetaObjectView::FnPrototype(natives[k].prototype))
}

/// Whether the function called `name` is in the table with types that make up the
/// signature `p`.
pub open spec fn bound_to(
    fns: Seq<NamedFnView>,
    done: Seq<FunctionTyping>,
    name: Seq<char>,
    p: crate::program::PrototypeView,
) -> bool {
    match function_index(fns, name) {
        Some(k) => done[k].parameters == p.parameters_types && done[k].return_type
            == p.return_type,
        None => false,
    }
}

/// Whether `name` and `p` are the name and the signature of the function that is
/// being generated.
pub open spec fn is_current(
    current: Option<StatementFunction>,
    name: Seq<char>,
    p: crate::program::PrototypeView,
) -> bool {
    match current {
        Some(f) => f.identifier.label@ == name && p == prototype_of(f),
        None => false,
    }
}

/// Whether the global scope gives each function that is no native function the
/// signature of its types, the function `current` being the one that is generated.
pub open spec fn functions_bound(
    global: ScopeView,
    natives: Seq<NativeFnView>,
    fns: Seq<NamedFnView>,
    done: Seq<FunctionTyping>,
    current: Option<StatementFunction>,
) -> bool {
    forall|name: Seq<char>|
        match #[trigger] lookup_in(global.store, name) {
            Some(MetaObjectView::FnPrototype(p)) => native_index(natives, name) is None ==> {
                &&& p.arity == p.parameters_types.len()
                &&& bound_to(fns, done, name, p) || is_current(current, name, p)
            },
            _ => true,
        }
}

/// Whether every variable that the meta-stack names has, in the scope, the type that
/// the meta-stack gives it.
pub open spec fn places_typed(stack: Seq<MetaStackEntry>, scope: ScopeView) -> bool {
    forall|k: int|
        0 <= k < stack.len() ==> ((#[trigger] stack[k]).place() matches Some(p) ==> lookup_in(
            scope.store,
            p.0@,
        ) == Some(MetaObjectView::VarType(p.1)))
}

/// Whether the instruction that finds `later` asks at most for what `earlier` offers.
pub open spec fn admits(earlier: Point, later: Point) -> bool {
    ends_with(earlier.stack, later.stack) && later.ready.subset_of(earlier.ready)
}

/// Whether `later` says of the instructions what `earlier` says, and at most less of
/// the instruction that comes next.
pub open spec fn refines(earlier: Seq<Point>, later: Seq<Point>) -> bool {
    &&& earlier.len() > 0
    &&& later.len() >= earlier.len()
    &&& forall|t: int| 0 <= t < earlier.len() - 1 ==> #[trigger] later[t] == earlier[t]
    &&& admits(earlier.last(), later[earlier.len() - 1])
}

/// Whether `later` starts with `earlier`.
pub open spec fn extends<T>(earlier: Seq<T>, later: Seq<T>) -> bool {
    later.len() >= earlier.len() && later.subrange(0, earlier.len() as int) == earlier
}

/// The types of values with one more entry.
pub proof fn lemma_value_types_push(stack: Seq<MetaStackEntry>, entry: MetaStackEntry)
    ensures
        value_types(stack.push(entry)) == (match entry.value_type() {
            Some(t) => value_types(stack).push(t),
            None => value_types(stack),
        }),
{
    assert(stack.push(entry).drop_last() =~= stack);
}

/// Where the topmost `count` entries are values, the types of the values of the
/// meta-stack are those of the entries below them followed by theirs.
pub proof fn lemma_value_types_top(stack: Seq<MetaStackEntry>, count: nat)
    requires
        count <= stack.len(),
        forall|i: int|
            stack.len() - count <= i < stack.len() ==> (#[trigger] stack[i]).value_type().is_some(),
    ensures
        value_types(stack).len() == value_types(stack.subrange(0, stack.len() - count)).len()
            + count,
        value_types(stack).subrange(0, value_types(stack).len() - count) == value_types(
            stack.subrange(0, stack.len() - count),
        ),
        forall|i: int|
            0 <= i < count ==> #[trigger] value_types(stack)[value_types(stack).len() - count
                + i] == stack[stack.len() - count + i].value_type().unwrap(),
    decreases count,
{
    let n = stack.len() as int;
    if count == 0 {
        assert(stack.subrange(0, n) =~= stack);
        assert(value_types(stack).subrange(0, value_types(stack).len() as int) =~= value_types(
            stack,
        ));
    } else {
        let below = stack.drop_last();
        assert(stack[n - 1].value_type().is_some());
        assert forall|i: int| below.len() - (count - 1) <= i < below.len() implies (#[trigger] below[i]).value_type().is_some() by {
            assert(below[i] == stack[i]);
        }
        lemma_value_types_top(below, (count - 1) as nat);
        assert(below.subrange(0, below.len() - (count - 1)) =~= stack.subrange(0, n - count));
        let types = value_types(stack);
        let lower = value_types(below);
        assert(types == lower.push(stack[n - 1].value_type().unwrap()));
        assert(types.subrange(0, types.len() - count) =~= lower.subrange(
            0,
            lower.len() - (count - 1),
        ));
        assert forall|i: int| 0 <= i < count implies #[trigger] types[types.len() - count + i]
            == stack[n - count + i].value_type().unwrap() by {
            if i < count - 1 {
                assert(types[types.len() - count + i] == lower[lower.len() - (count - 1) + i]);
                assert(below[below.len() - (count - 1) + i] == stack[n - count + i]);
            }
        }
    }
}

} // verus!
