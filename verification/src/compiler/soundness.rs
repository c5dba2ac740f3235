//! The programs that come out of soundly checked trees are well typed.

use vstd::prelude::*;
use crate::analysis::model::{
    annotated,
    annotated_all,
    annotated_expression,
    argument_errors,
    operator_result,
    prototype_of,
    residual_ok,
    AnalyserView,
    MetaStackEntry,
};
use crate::analysis::scope::{lookup_in, lookup_scopes, MetaObjectView, ScopeView, SymbolView};
use crate::analysis::shape::{lemma_parameters_keep, lemma_statement_keeps, lemma_statements_keep};
use crate::ast::{
    Statement,
    StatementAssignment,
    StatementExpression,
    StatementFunction,
    StatementIf,
    StatementVariable,
};
use crate::bytecode::Opcode;
use crate::codegen::model::{fits, fits_after_each, local_index, return_opcode, GeneratorView};
use crate::compiler::frames::{
    keeps_code,
    keeps_scopes,
    lemma_extends_index,
    lemma_extends_push,
    lemma_extends_self,
    lemma_extends_trans,
    lemma_statement_keeps_code,
    lemma_statement_keeps_scopes,
    lemma_statements_keep_code,
    lemma_statements_keep_scopes,
    lemma_top_keeps,
};
use crate::compiler::laws::{
    lemma_assignment_generates,
    lemma_expression_generates,
    lemma_open_function_related,
    lemma_parameters_generate,
    lemma_statement_generates,
    lemma_statements_generate,
    lemma_variable_generates,
    lemma_variable_is_local,
};
use crate::compiler::relation::{
    inside_block,
    lemma_function_push,
    lemma_lookup_is_binding,
    lemma_lookup_push,
    lemma_native_lookup,
    names_of,
    only_functions,
    regular,
    regular_all,
    related,
    Place,
};
use crate::compiler::typed::{
    bound_to,
    disciplined,
    disciplined_all,
    draft,
    extends,
    functions_bound,
    is_current,
    lemma_value_types_push,
    lemma_value_types_top,
    local_types,
    natives_bound,
    admits,
    parameters_ready,
    places_typed,
    point,
    ready_after,
    ready_after_all,
    refines,
    shaped,
    value_types,
};
use crate::engine::frame::FrameView;
use crate::engine::model::EngineView;
use crate::engine::safety::{
    ended_well,
    lemma_run_is_safe,
    lemma_start_is_typed,
    lemma_ends_with_self,
    lemma_ends_with_trans,
};
use crate::engine::typing::{
    after_call,
    call_typed,
    ends_with,
    engine_typed,
    flows,
    indexable,
    program_typed,
    function_typed,
    functions_typed,
    instruction_typed,
    signature_typed,
    holds,
    FunctionTyping,
    Point,
    ProgramTyping,
};
use crate::object::{Object, Type};
use crate::program::{function_index, lemma_function_index, NamedFnView, PrototypeView};
use crate::stdlib::{native_index, NativeFnView};

verus! {

broadcast use vstd::std_specs::vec::group_vec_axioms;

/// Whether the first locals are the parameters.
pub open spec fn locals_fit(locals: Seq<Type>, parameters: Seq<Type>) -> bool {
    extends(parameters, locals)
}

/// Whether the instructions of the function `f` that were written from `base` on are
/// well typed, `stacks` being what they find, `ready` the locals that are written now,
/// and `entry` what control brings to the instruction at `base`.
pub open spec fn body_typed(
    s: AnalyserView,
    g: GeneratorView,
    natives: Seq<NativeFnView>,
    stacks: Seq<Point>,
    ready: Set<int>,
    f: StatementFunction,
    base: int,
    entry: Point,
) -> bool {
    let own = draft(s, stacks, ready, f);
    &&& stacks.len() == g.code.len()
    &&& 0 <= base <= g.code.len()
    &&& admits(entry, own.points[base])
    &&& forall|i: int|
        base <= i < g.code.len() ==> shaped(
            #[trigger] g.code[i],
            i,
            own,
            g.pool,
            s.scopes[0],
            natives,
        )
    &&& places_typed(s.metastack, s.scopes[1])
    &&& s.scopes[1].expected_type == f.return_type
    &&& locals_fit(local_types(s.scopes[1]), prototype_of(f).parameters_types)
}

/// Whether the functions generated so far are well typed by `done`, and the global
/// scope gives every function the signature of its types.
pub open spec fn tables_typed(
    s: AnalyserView,
    g: GeneratorView,
    natives: Seq<NativeFnView>,
    done: Seq<FunctionTyping>,
    current: Option<StatementFunction>,
) -> bool {
    &&& done.len() == g.fns.len()
    &&& functions_typed(g.pool, g.fns, natives, ProgramTyping { functions: done })
    &&& natives_bound(s.scopes[0], natives)
    &&& functions_bound(s.scopes[0], natives, g.fns, done, current)
}

/// What passes to an instruction under the earlier types passes to it under types
/// that refine them.
pub proof fn lemma_flows_stays(
    own: FunctionTyping,
    later: FunctionTyping,
    stack: Seq<Type>,
    held: Set<int>,
    target: int,
)
    requires
        flows(own, stack, held, target),
        refines(own.points, later.points),
    ensures
        flows(later, stack, held, target),
{
    if target < own.points.len() - 1 {
        assert(later.points[target] == own.points[target]);
    } else {
        lemma_ends_with_trans(stack, own.points[target].stack, later.points[target].stack);
    }
}

/// A call that is well typed under the earlier types is well typed under types that
/// refine them.
pub proof fn lemma_call_stays(
    own: FunctionTyping,
    later: FunctionTyping,
    ip: int,
    arity: int,
    parameters: Option<Seq<Type>>,
    return_type: Type,
)
    requires
        call_typed(own, ip, arity, parameters, return_type),
        0 <= ip < own.points.len() - 1,
        refines(own.points, later.points),
    ensures
        call_typed(later, ip, arity, parameters, return_type),
{
    assert(later.points[ip] == own.points[ip]);
    lemma_flows_stays(
        own,
        later,
        after_call(own.points[ip].stack, arity, return_type),
        own.points[ip].ready,
        ip + 1,
    );
}

/// An instruction that is well typed under the earlier types, pool and locals is well
/// typed under types that refine them, a pool and locals that extend them.
pub proof fn lemma_shaped_stays(
    op: Opcode,
    ip: int,
    own: FunctionTyping,
    later: FunctionTyping,
    pool: Seq<Object>,
    larger: Seq<Object>,
    global: ScopeView,
    natives: Seq<NativeFnView>,
)
    requires
        shaped(op, ip, own, pool, global, natives),
        0 <= ip < own.points.len() - 1,
        refines(own.points, later.points),
        extends(own.locals, later.locals),
        later.return_type == own.return_type,
        extends(pool, larger),
    ensures
        shaped(op, ip, later, larger, global, natives),
{
    let stack = own.points[ip].stack;
    let held = own.points[ip].ready;
    let n = stack.len() as int;
    assert(later.points[ip] == own.points[ip]);
    match op {
        Opcode::Nop => {
            lemma_flows_stays(own, later, stack, held, ip + 1);
        },
        Opcode::Push(operand) => {
            lemma_flows_stays(
                own,
                later,
                stack.push(crate::engine::model::immediate(operand).spec_kind()),
                held,
                ip + 1,
            );
        },
        Opcode::Ldc(index) => {
            lemma_extends_index(pool, larger, index as int);
            lemma_flows_stays(
                own,
                later,
                stack.push(pool[index as int].spec_kind()),
                held,
                ip + 1,
            );
        },
        Opcode::LLoad(index) => {
            lemma_extends_index(own.locals, later.locals, index as int);
            lemma_flows_stays(own, later, stack.push(own.locals[index as int]), held, ip + 1);
        },
        Opcode::LStore(index) => {
            lemma_extends_index(own.locals, later.locals, index as int);
            lemma_flows_stays(
                own,
                later,
                stack.subrange(0, n - 1),
                held.insert(index as int),
                ip + 1,
            );
        },
        Opcode::IAdd => {
            lemma_flows_stays(
                own,
                later,
                stack.subrange(0, n - 2).push(Type::Integer),
                held,
                ip + 1,
            );
        },
        Opcode::ISub => {
            lemma_flows_stays(
                own,
                later,
                stack.subrange(0, n - 2).push(Type::Integer),
                held,
                ip + 1,
            );
        },
        Opcode::ICmpGT => {
            lemma_flows_stays(
                own,
                later,
                stack.subrange(0, n - 2).push(Type::Boolean),
                held,
                ip + 1,
            );
        },
        Opcode::Jump(offset) => {
            lemma_flows_stays(own, later, stack, held, offset as int);
        },
        Opcode::JumpIfFalse(offset) => {
            lemma_flows_stays(own, later, stack.subrange(0, n - 1), held, ip + 1);
            lemma_flows_stays(own, later, stack.subrange(0, n - 1), held, offset as int);
        },
        Opcode::Invoke(name) => {
            let p = lookup_in(global.store, name@)->Some_0->FnPrototype_0;
            if native_index(natives, name@) is Some {
                lemma_call_stays(own, later, ip, p.arity as int, None, p.return_type);
            } else {
                lemma_call_stays(
                    own,
                    later,
                    ip,
                    p.arity as int,
                    Some(p.parameters_types),
                    p.return_type,
                );
            }
        },
        Opcode::Return => {},
        Opcode::IReturn => {},
    }
}

/// The instructions that were well typed stay so when the types of the function are
/// refined and the pool and the locals are extended.
pub proof fn lemma_body_stays(
    s: AnalyserView,
    t: AnalyserView,
    g: GeneratorView,
    h: GeneratorView,
    natives: Seq<NativeFnView>,
    stacks: Seq<Point>,
    ready: Set<int>,
    later: Seq<Point>,
    held: Set<int>,
    f: StatementFunction,
    base: int,
    entry: Point,
)
    requires
        body_typed(s, g, natives, stacks, ready, f, base, entry),
        refines(draft(s, stacks, ready, f).points, draft(t, later, held, f).points),
        t.scopes[0] == s.scopes[0],
        extends(s.scopes[1].store, t.scopes[1].store),
        extends(g.pool, h.pool),
    ensures
        forall|i: int|
            base <= i < g.code.len() ==> shaped(
                #[trigger] g.code[i],
                i,
                draft(t, later, held, f),
                h.pool,
                t.scopes[0],
                natives,
            ),
        admits(entry, draft(t, later, held, f).points[base]),
{
    let own = draft(s, stacks, ready, f);
    let new = draft(t, later, held, f);
    lemma_local_types_extend(s.scopes[1], t.scopes[1]);
    assert forall|i: int| base <= i < g.code.len() implies shaped(
        #[trigger] g.code[i],
        i,
        new,
        h.pool,
        t.scopes[0],
        natives,
    ) by {
        lemma_shaped_stays(g.code[i], i, own, new, g.pool, h.pool, s.scopes[0], natives);
    }
    if base < own.points.len() - 1 {
        assert(new.points[base] == own.points[base]);
    } else {
        lemma_ends_with_trans(entry.stack, own.points[base].stack, new.points[base].stack);
    }
}

/// The types of the variables of a scope are the first types of the variables of a
/// scope that extends it.
pub proof fn lemma_local_types_extend(scope: ScopeView, larger: ScopeView)
    requires
        extends(scope.store, larger.store),
    ensures
        extends(local_types(scope), local_types(larger)),
{
    assert(local_types(larger).subrange(0, scope.store.len() as int) =~= local_types(scope)) by {
        assert forall|i: int| 0 <= i < scope.store.len() implies local_types(larger)[i]
            == local_types(scope)[i] by {
            lemma_extends_index(scope.store, larger.store, i);
        }
    }
}

/// A function that is well typed stays so when the pool is extended and a function
/// with a new name comes behind the others.
pub proof fn lemma_function_stays(
    pool: Seq<Object>,
    larger: Seq<Object>,
    fns: Seq<NamedFnView>,
    more: Seq<NamedFnView>,
    natives: Seq<NativeFnView>,
    done: Seq<FunctionTyping>,
    later: Seq<FunctionTyping>,
    k: int,
)
    requires
        0 <= k < fns.len(),
        done.len() == fns.len(),
        function_typed(pool, fns, natives, ProgramTyping { functions: done }, k),
        extends(pool, larger),
        more == fns || (more.len() == fns.len() + 1 && extends(fns, more) && function_index(
            fns,
            more.last().name,
        ) is None),
        extends(done, later),
        later.len() == more.len(),
    ensures
        function_typed(larger, more, natives, ProgramTyping { functions: later }, k),
{
    let typing = ProgramTyping { functions: done };
    let after = ProgramTyping { functions: later };
    lemma_extends_index(done, later, k);
    if more != fns {
        lemma_extends_index(fns, more, k);
        assert(more =~= fns.push(more.last()));
    }
    let own = done[k];
    let code = fns[k].function.code;
    assert forall|ip: int| 0 <= ip < code.len() implies #[trigger] instruction_typed(
        larger,
        more,
        natives,
        after,
        k,
        ip,
    ) by {
        assert(instruction_typed(pool, fns, natives, typing, k, ip));
        match code[ip] {
            Opcode::Invoke(name) => {
                if native_index(natives, name@) is None {
                    let j = function_index(fns, name@)->Some_0;
                    lemma_function_index(fns, name@);
                    if more != fns {
                        lemma_function_push(fns, more.last(), name@);
                    }
                    lemma_extends_index(done, later, j);
                }
            },
            Opcode::Ldc(index) => {
                lemma_extends_index(pool, larger, index as int);
            },
            _ => {},
        }
    }
}

/// Functions that are well typed stay so when the pool is extended.
pub proof fn lemma_functions_stay(
    pool: Seq<Object>,
    larger: Seq<Object>,
    fns: Seq<NamedFnView>,
    natives: Seq<NativeFnView>,
    done: Seq<FunctionTyping>,
)
    requires
        functions_typed(pool, fns, natives, ProgramTyping { functions: done }),
        extends(pool, larger),
    ensures
        functions_typed(larger, fns, natives, ProgramTyping { functions: done }),
{
    lemma_extends_self(done);
    assert forall|k: int| 0 <= k < fns.len() implies #[trigger] function_typed(
        larger,
        fns,
        natives,
        ProgramTyping { functions: done },
        k,
    ) by {
        assert(function_typed(pool, fns, natives, ProgramTyping { functions: done }, k));
        lemma_function_stays(pool, larger, fns, fns, natives, done, done, k);
    }
}

/// One more instruction that is well typed keeps the body well typed. The instruction
/// finds what the meta-stack stood for before it.
pub proof fn lemma_emit_typed(
    s: AnalyserView,
    t: AnalyserView,
    g: GeneratorView,
    h: GeneratorView,
    natives: Seq<NativeFnView>,
    stacks: Seq<Point>,
    ready: Set<int>,
    held: Set<int>,
    f: StatementFunction,
    base: int,
    entry: Point,
    op: Opcode,
)
    requires
        body_typed(s, g, natives, stacks, ready, f, base, entry),
        h.code == g.code.push(op),
        extends(g.pool, h.pool),
        t.scopes == s.scopes,
        places_typed(t.metastack, t.scopes[1]),
        shaped(
            op,
            g.code.len() as int,
            draft(t, stacks.push(point(s, ready)), held, f),
            h.pool,
            t.scopes[0],
            natives,
        ),
    ensures
        body_typed(t, h, natives, stacks.push(point(s, ready)), held, f, base, entry),
{
    let later = stacks.push(point(s, ready));
    let own = draft(s, stacks, ready, f);
    let new = draft(t, later, held, f);
    lemma_ends_with_self(value_types(s.metastack));
    assert(refines(own.points, new.points));
    lemma_extends_self(s.scopes[1].store);
    lemma_body_stays(s, t, g, h, natives, stacks, ready, later, held, f, base, entry);
    assert forall|i: int| base <= i < h.code.len() implies shaped(
        #[trigger] h.code[i],
        i,
        new,
        h.pool,
        t.scopes[0],
        natives,
    ) by {
        if i < g.code.len() {
            assert(h.code[i] == g.code[i]);
        }
    }
}

/// The place of a name among the names of a scope is the place of the binding that
/// gives the name its meaning.
pub proof fn lemma_index_binding(store: Seq<SymbolView>, name: Seq<char>)
    requires
        local_index(store.map_values(|s: SymbolView| s.name), name).is_some(),
    ensures
        0 <= local_index(store.map_values(|s: SymbolView| s.name), name).unwrap() < store.len(),
        lookup_in(store, name) == Some(
            store[local_index(store.map_values(|s: SymbolView| s.name), name).unwrap()].object,
        ),
    decreases store.len(),
{
    let names = store.map_values(|s: SymbolView| s.name);
    assert(names.last() == store.last().name);
    if store.last().name != name {
        assert(names.drop_last() =~= store.drop_last().map_values(|s: SymbolView| s.name));
        lemma_index_binding(store.drop_last(), name);
    }
}

/// What a name stands for inside a function, where it stands for a variable: what the
/// function's scope gives it.
pub proof fn lemma_variable_lookup(
    s: AnalyserView,
    g: GeneratorView,
    natives: Seq<NativeFnView>,
    fname: Seq<char>,
    name: Seq<char>,
)
    requires
        related(s, g, Place::Function(fname), natives),
        lookup_scopes(s.scopes, name) matches Some(MetaObjectView::VarType(_)),
    ensures
        lookup_in(s.scopes[1].store, name) == lookup_scopes(s.scopes, name),
        local_index(g.locals, name).is_some(),
        0 <= local_index(g.locals, name).unwrap() < s.scopes[1].store.len(),
        local_types(s.scopes[1])[local_index(g.locals, name).unwrap()] == lookup_scopes(
            s.scopes,
            name,
        )->Some_0->VarType_0,
{
    reveal_with_fuel(lookup_scopes, 3);
    lemma_variable_is_local(s, g, Place::Function(fname), natives, name);
    assert(s.scopes.last() == s.scopes[1]);
    assert(s.scopes.drop_last().last() == s.scopes[0]);
    if s.scopes[1].lookup(name).is_none() {
        lemma_lookup_is_binding(s.scopes[0].store, name);
    }
    lemma_index_binding(s.scopes[1].store, name);
}

/// What a name stands for inside a function, where it stands for a function: what the
/// global scope gives it.
pub proof fn lemma_function_lookup(
    s: AnalyserView,
    g: GeneratorView,
    natives: Seq<NativeFnView>,
    fname: Seq<char>,
    name: Seq<char>,
)
    requires
        related(s, g, Place::Function(fname), natives),
        lookup_scopes(s.scopes, name) matches Some(MetaObjectView::FnPrototype(_)),
    ensures
        lookup_in(s.scopes[0].store, name) == lookup_scopes(s.scopes, name),
{
    reveal_with_fuel(lookup_scopes, 3);
    assert(s.scopes.last() == s.scopes[1]);
    assert(s.scopes.drop_last().last() == s.scopes[0]);
    if s.scopes[1].lookup(name).is_some() {
        lemma_lookup_is_binding(s.scopes[1].store, name);
    }
}

/// The entries of the lower part of a meta-stack name variables with their types if
/// those of the whole do.
pub proof fn lemma_places_keep(stack: Seq<MetaStackEntry>, depth: int, scope: ScopeView)
    requires
        places_typed(stack, scope),
        0 <= depth <= stack.len(),
    ensures
        places_typed(stack.subrange(0, depth), scope),
{
    assert forall|k: int| 0 <= k < depth implies ((#[trigger] stack.subrange(0, depth)[k]).place() matches Some(
        p,
    ) ==> lookup_in(scope.store, p.0@) == Some(MetaObjectView::VarType(p.1))) by {
        assert(stack.subrange(0, depth)[k] == stack[k]);
    }
}

/// One more entry that names no variable, or one with its type, keeps the entries
/// naming variables with their types.
pub proof fn lemma_places_push(stack: Seq<MetaStackEntry>, entry: MetaStackEntry, scope: ScopeView)
    requires
        places_typed(stack, scope),
        entry.place() matches Some(p) ==> lookup_in(scope.store, p.0@) == Some(
            MetaObjectView::VarType(p.1),
        ),
    ensures
        places_typed(stack.push(entry), scope),
{
    assert forall|k: int| 0 <= k < stack.len() + 1 implies ((#[trigger] stack.push(entry)[k]).place() matches Some(
        p,
    ) ==> lookup_in(scope.store, p.0@) == Some(MetaObjectView::VarType(p.1))) by {
        if k < stack.len() {
            assert(stack.push(entry)[k] == stack[k]);
        }
    }
}

/// Where a call reports nothing about its arguments, each of them is a value, and
/// where the signature gives the parameter a type, of that type.
pub proof fn lemma_arguments_fit(
    args: Seq<MetaStackEntry>,
    prototype: PrototypeView,
    name: Seq<char>,
    count: nat,
)
    requires
        argument_errors(args, prototype, name, count).len() == 0,
    ensures
        forall|i: int|
            0 <= i < count ==> (#[trigger] args[i]).value_type().is_some() && (i
                < prototype.parameters_types.len() ==> prototype.parameters_types[i]
                == args[i].value_type().unwrap()),
    decreases count,
{
    if count > 0 {
        lemma_arguments_fit(args, prototype, name, (count - 1) as nat);
    }
}

/// The literal, the variable, the operator, the call or the return marker that the
/// checker accepts becomes an instruction that is well typed.
pub proof fn lemma_body_expression(
    s: AnalyserView,
    g: GeneratorView,
    natives: Seq<NativeFnView>,
    done: Seq<FunctionTyping>,
    stacks: Seq<Point>,
    ready: Set<int>,
    f: StatementFunction,
    base: int,
    entry: Point,
    old: StatementExpression,
    new: StatementExpression,
)
    requires
        related(s, g, Place::Function(f.identifier.label@), natives),
        tables_typed(s, g, natives, done, Some(f)),
        body_typed(s, g, natives, stacks, ready, f, base, entry),
        annotated_expression(s, old, new),
        disciplined(s, ready, Statement::Expression(old), f.return_type),
        s.expression(old).errors.len() == 0,
        g.expression(new).is_ok() ==> fits(g.expression(new).unwrap()),
    ensures
        g.expression(new).is_ok(),
        body_typed(
            s.expression(old),
            g.expression(new).unwrap(),
            natives,
            stacks.push(point(s, ready)),
            ready,
            f,
            base,
            entry,
        ),
{
    let fname = f.identifier.label@;
    lemma_expression_generates(s, g, Place::Function(fname), natives, old, new);
    let t = s.expression(old);
    let h = g.expression(new).unwrap();
    let before = value_types(s.metastack);
    let later = stacks.push(point(s, ready));
    let own = draft(t, later, ready, f);
    let len = g.code.len() as int;
    let n = s.depth();
    lemma_extends_self(g.pool);
    assert(own.points[len] == point(s, ready));
    assert(own.points[len + 1] == point(t, ready));
    lemma_ends_with_self(value_types(t.metastack));
    match old {
        StatementExpression::Literal(literal) => {
            let pushed = MetaStackEntry::Type(literal.spec_type(), literal.spec_span());
            assert(t.metastack == s.metastack.push(pushed));
            lemma_value_types_push(s.metastack, pushed);
            lemma_places_push(s.metastack, pushed, s.scopes[1]);
            assert(value_types(t.metastack) == before.push(literal.spec_type()));
            if h.pool != g.pool {
                lemma_extends_push(g.pool, h.pool.last());
                assert(h.pool =~= g.pool.push(h.pool.last()));
            }
            let op = h.code.last();
            assert(h.code == g.code.push(op));
            assert(flows(own, before.push(literal.spec_type()), ready, len + 1));
            assert(shaped(op, len, own, h.pool, t.scopes[0], natives));
            lemma_emit_typed(s, t, g, h, natives, stacks, ready, ready, f, base, entry, op);
        },
        StatementExpression::Identifier(identifier) => {
            lemma_variable_lookup(s, g, natives, fname, identifier.label@);
            let found = lookup_scopes(s.scopes, identifier.label@)->Some_0->VarType_0;
            let pushed = MetaStackEntry::Identifier(identifier.label, found, identifier.span);
            assert(t.metastack == s.metastack.push(pushed));
            lemma_value_types_push(s.metastack, pushed);
            lemma_places_push(s.metastack, pushed, s.scopes[1]);
            assert(value_types(t.metastack) == before.push(found));
            let index = local_index(g.locals, identifier.label@).unwrap();
            let op = Opcode::LLoad(index as usize);
            assert(h.code == g.code.push(op));
            assert(own.locals[index] == found);
            assert(s.scopes.last() == s.scopes[1]);
            assert(holds(own, ready, index));
            assert(flows(own, before.push(found), ready, len + 1));
            assert(shaped(op, len, own, h.pool, t.scopes[0], natives));
            lemma_emit_typed(s, t, g, h, natives, stacks, ready, ready, f, base, entry, op);
        },
        StatementExpression::Binary(binary) => {
            assert(s.binary_operands(binary.operator).is_some());
            let result = operator_result(binary.operator, Type::Integer)->Some_0;
            lemma_value_types_top(s.metastack, 2);
            lemma_places_keep(s.metastack, n - 2, s.scopes[1]);
            lemma_value_types_push(s.metastack.subrange(0, n - 2), t.metastack.last());
            lemma_places_push(s.metastack.subrange(0, n - 2), t.metastack.last(), s.scopes[1]);
            assert(t.metastack == s.metastack.subrange(0, n - 2).push(t.metastack.last()));
            let k = before.len() as int;
            assert(before[k - 2 + 0] == Type::Integer);
            assert(before[k - 2 + 1] == Type::Integer);
            lemma_emit_typed(
                s,
                t,
                g,
                h,
                natives,
                stacks,
                ready,
                ready,
                f,
                base,
                entry,
                h.code.last(),
            );
        },
        StatementExpression::Call(call) => {
            let name = call.identifier.label@;
            lemma_function_lookup(s, g, natives, fname, name);
            let p = lookup_scopes(s.scopes, name)->Some_0->FnPrototype_0;
            let arity = p.arity as int;
            let args = s.metastack.subrange(n - arity, n);
            assert(argument_errors(args, p, name, p.arity as nat).len() == 0);
            lemma_arguments_fit(args, p, name, p.arity as nat);
            assert forall|i: int| n - arity <= i < n implies (#[trigger] s.metastack[i]).value_type().is_some() by {
                assert(args[i - (n - arity)] == s.metastack[i]);
            }
            lemma_value_types_top(s.metastack, p.arity as nat);
            lemma_places_keep(s.metastack, n - arity, s.scopes[1]);
            let k = before.len() as int;
            let rest = s.metastack.subrange(0, n - arity);
            if p.return_type != Type::Void {
                lemma_value_types_push(rest, t.metastack.last());
                lemma_places_push(rest, t.metastack.last(), s.scopes[1]);
                assert(t.metastack == rest.push(t.metastack.last()));
            } else {
                assert(t.metastack == rest);
            }
            if native_index(natives, name) is None {
                assert(p.arity == p.parameters_types.len());
                assert(before.subrange(k - arity, k) =~= p.parameters_types) by {
                    assert forall|i: int| 0 <= i < arity implies before.subrange(k - arity, k)[i]
                        == p.parameters_types[i] by {
                        assert(before[k - arity + i] == s.metastack[n - arity
                            + i].value_type().unwrap());
                        assert(args[i] == s.metastack[n - arity + i]);
                    }
                }
            }
            lemma_emit_typed(
                s,
                t,
                g,
                h,
                natives,
                stacks,
                ready,
                ready,
                f,
                base,
                entry,
                Opcode::Invoke(call.identifier.label),
            );
        },
        StatementExpression::Return(ret) => {
            if n > 0 {
                assert(s.metastack.drop_last().push(s.metastack.last()) =~= s.metastack);
                lemma_value_types_push(s.metastack.drop_last(), s.metastack.last());
            }
            lemma_emit_typed(
                s,
                t,
                g,
                h,
                natives,
                stacks,
                ready,
                ready,
                f,
                base,
                entry,
                h.code.last(),
            );
        },
    }
}

/// The tables stay well typed over a statement inside a function: the functions
/// generated before stay as they are and the pool is only extended.
pub proof fn lemma_tables_stay(
    s: AnalyserView,
    t: AnalyserView,
    g: GeneratorView,
    h: GeneratorView,
    natives: Seq<NativeFnView>,
    done: Seq<FunctionTyping>,
    current: Option<StatementFunction>,
)
    requires
        tables_typed(s, g, natives, done, current),
        t.scopes[0] == s.scopes[0],
        h.fns == g.fns,
        extends(g.pool, h.pool),
    ensures
        tables_typed(t, h, natives, done, current),
{
    lemma_functions_stay(g.pool, h.pool, g.fns, natives, done);
}

/// The declaration of a variable that the checker accepts keeps the body well typed.
pub proof fn lemma_body_variable(
    s: AnalyserView,
    g: GeneratorView,
    natives: Seq<NativeFnView>,
    stacks: Seq<Point>,
    ready: Set<int>,
    f: StatementFunction,
    base: int,
    entry: Point,
    variable: StatementVariable,
)
    requires
        related(s, g, Place::Function(f.identifier.label@), natives),
        body_typed(s, g, natives, stacks, ready, f, base, entry),
        s.variable(variable).errors.len() == 0,
    ensures
        g.local(variable.identifier.label@, variable.identifier.span).is_ok(),
        body_typed(
            s.variable(variable),
            g.local(variable.identifier.label@, variable.identifier.span).unwrap(),
            natives,
            stacks,
            ready,
            f,
            base,
            entry,
        ),
{
    let fname = f.identifier.label@;
    let name = variable.identifier.label@;
    lemma_variable_generates(s, g, Place::Function(fname), natives, variable);
    let t = s.variable(variable);
    let h = g.local(name, variable.identifier.span).unwrap();
    let object = MetaObjectView::VarType(variable.typ);
    let symbol = SymbolView { name, object };
    assert(s.scopes.last() == s.scopes[1]);
    assert(!s.scopes[1].is_declared(name));
    assert(t.scopes[0] == s.scopes[0]);
    assert(t.scopes[1].store == s.scopes[1].store.push(symbol));
    let pushed = MetaStackEntry::VariableDeclaration(
        variable.identifier.label,
        variable.typ,
        variable.span,
    );
    assert(t.metastack == s.metastack.push(pushed));
    lemma_value_types_push(s.metastack, pushed);
    lemma_extends_push(s.scopes[1].store, symbol);
    lemma_extends_self(g.pool);
    lemma_ends_with_self(value_types(s.metastack));
    assert(point(t, ready) == point(s, ready));
    assert(refines(draft(s, stacks, ready, f).points, draft(t, stacks, ready, f).points));
    lemma_body_stays(s, t, g, h, natives, stacks, ready, stacks, ready, f, base, entry);
    assert forall|k: int| 0 <= k < t.metastack.len() implies ((#[trigger] t.metastack[k]).place() matches Some(
        p,
    ) ==> lookup_in(t.scopes[1].store, p.0@) == Some(MetaObjectView::VarType(p.1))) by {
        if t.metastack[k].place() is Some {
            lemma_lookup_push(s.scopes[1].store, symbol, t.metastack[k].place().unwrap().0@);
            if k < s.metastack.len() {
                assert(t.metastack[k] == s.metastack[k]);
            }
        }
    }
    let types = local_types(t.scopes[1]);
    assert(types =~= local_types(s.scopes[1]).push(variable.typ));
    lemma_extends_push(local_types(s.scopes[1]), variable.typ);
    lemma_extends_trans(prototype_of(f).parameters_types, local_types(s.scopes[1]), types);
    assert forall|i: int| 0 <= i < h.code.len() && base <= i implies shaped(
        #[trigger] h.code[i],
        i,
        draft(t, stacks, ready, f),
        h.pool,
        t.scopes[0],
        natives,
    ) by {
        assert(h.code[i] == g.code[i]);
    }
}

/// An assignment that the checker accepts and checks soundly becomes a store that is
/// well typed.
pub proof fn lemma_body_assignment(
    s: AnalyserView,
    g: GeneratorView,
    natives: Seq<NativeFnView>,
    stacks: Seq<Point>,
    ready: Set<int>,
    f: StatementFunction,
    base: int,
    entry: Point,
    old: StatementAssignment,
    new: StatementAssignment,
)
    requires
        related(s, g, Place::Function(f.identifier.label@), natives),
        body_typed(s, g, natives, stacks, ready, f, base, entry),
        new == (StatementAssignment { target: s.assignment_annotation(old), ..old }),
        disciplined(s, ready, Statement::Assignment(old), f.return_type),
        s.assignment(old).errors.len() == 0,
        g.assignment(new).is_ok() ==> fits(g.assignment(new).unwrap()),
    ensures
        g.assignment(new).is_ok(),
        body_typed(
            s.assignment(old),
            g.assignment(new).unwrap(),
            natives,
            stacks.push(point(s, ready)),
            ready_after(s, ready, Statement::Assignment(old)),
            f,
            base,
            entry,
        ),
{
    let fname = f.identifier.label@;
    lemma_assignment_generates(s, g, Place::Function(fname), natives, old, new);
    let t = s.assignment(old);
    let h = g.assignment(new).unwrap();
    let n = s.depth();
    assert(s.assignment_target().is_some());
    let lhs = s.metastack[n - 2];
    let rhs = s.metastack[n - 1];
    let name = lhs.place().unwrap().0;
    let variable = lhs.place().unwrap().1;
    assert(rhs.value_type() == Some(variable));
    assert(lookup_in(s.scopes[1].store, name@) == Some(MetaObjectView::VarType(variable)));
    let index = local_index(g.locals, name@).unwrap();
    lemma_index_binding(s.scopes[1].store, name@);
    assert(local_types(s.scopes[1])[index] == variable);
    let before = value_types(s.metastack);
    let rest = s.metastack.subrange(0, n - 2);
    let lower = s.metastack.subrange(0, n - 1);
    assert(lower =~= rest.push(lhs));
    assert(s.metastack =~= lower.push(rhs));
    lemma_value_types_push(lower, rhs);
    lemma_value_types_push(rest, lhs);
    assert(before == value_types(lower).push(variable));
    assert(t.metastack == rest);
    lemma_places_keep(s.metastack, n - 2, s.scopes[1]);
    lemma_extends_self(g.pool);
    let later = stacks.push(point(s, ready));
    let held = ready_after(s, ready, Statement::Assignment(old));
    assert(s.scopes.last() == s.scopes[1]);
    assert(held == ready.insert(index));
    let own = draft(t, later, held, f);
    let len = g.code.len() as int;
    let op = Opcode::LStore(index as usize);
    assert(h.code == g.code.push(op));
    assert(own.points[len] == point(s, ready));
    assert(own.points[len + 1] == point(t, held));
    let k = before.len() as int;
    assert(before.subrange(0, k - 1) =~= value_types(lower));
    if lhs is Identifier {
        assert(value_types(rest).len() == 0);
        assert(value_types(rest) =~= Seq::<Type>::empty());
        assert(value_types(lower).subrange(
            value_types(lower).len() - 0,
            value_types(lower).len() as int,
        ) =~= Seq::<Type>::empty());
    } else {
        lemma_ends_with_self(value_types(rest));
    }
    assert(ends_with(value_types(lower), value_types(rest)));
    assert(shaped(op, len, own, h.pool, t.scopes[0], natives));
    lemma_emit_typed(s, t, g, h, natives, stacks, ready, held, f, base, entry, op);
}

/// At the start of an accepted `if`, after the condition was taken and the
/// placeholder written, the checker and the generator are at the same point.
pub proof fn lemma_open_if_related(
    s: AnalyserView,
    g: GeneratorView,
    place: Place,
    natives: Seq<NativeFnView>,
    i: StatementIf,
)
    requires
        related(s, g, place, natives),
        s.condition_ok(),
    ensures
        related(
            s.open_if(i),
            GeneratorView { nested: true, ..g.emit(Opcode::Nop) },
            inside_block(place),
            natives,
        ),
{
    let s1 = s.open_if(i);
    let g1 = GeneratorView { nested: true, ..g.emit(Opcode::Nop) };
    assert forall|k: int| 0 <= k < g1.code.len() implies crate::codegen::laws::in_range(
        #[trigger] g1.code[k],
        g1.code.len() as int,
        g1.pool.len() as int,
    ) by {
        if k < g.code.len() {
            assert(g1.code[k] == g.code[k]);
        }
    }
    assert forall|k: int| 0 <= k < g1.code.len() implies ((#[trigger] g1.code[k]) matches Opcode::Invoke(
        x,
    ) ==> s.scopes[0].is_declared(x@)) by {
        if k < g.code.len() {
            assert(g1.code[k] == g.code[k]);
        }
    }
}

/// The generator writes for a statement inside a function, which the checker accepts
/// and checks soundly, instructions that are well typed. Returns what these
/// instructions and those before them find.
pub proof fn lemma_body_statement(
    s: AnalyserView,
    g: GeneratorView,
    natives: Seq<NativeFnView>,
    done: Seq<FunctionTyping>,
    stacks: Seq<Point>,
    ready: Set<int>,
    f: StatementFunction,
    base: int,
    entry: Point,
    old: Statement,
    new: Statement,
) -> (after: Seq<Point>)
    requires
        related(s, g, Place::Function(f.identifier.label@), natives),
        tables_typed(s, g, natives, done, Some(f)),
        body_typed(s, g, natives, stacks, ready, f, base, entry),
        annotated(s, old, new),
        regular(old, Place::Function(f.identifier.label@)),
        disciplined(s, ready, old, f.return_type),
        s.statement(old).errors.len() == 0,
        g.statement(new).is_ok() ==> fits(g.statement(new).unwrap()),
    ensures
        g.statement(new).is_ok(),
        related(
            s.statement(old),
            g.statement(new).unwrap(),
            Place::Function(f.identifier.label@),
            natives,
        ),
        tables_typed(s.statement(old), g.statement(new).unwrap(), natives, done, Some(f)),
        body_typed(
            s.statement(old),
            g.statement(new).unwrap(),
            natives,
            after,
            ready_after(s, ready, old),
            f,
            base,
            entry,
        ),
        extends(stacks, after),
    decreases old, 0nat,
{
    let fname = f.identifier.label@;
    let place = Place::Function(fname);
    lemma_statement_generates(s, g, place, natives, old, new);
    let t = s.statement(old);
    let h = g.statement(new).unwrap();
    lemma_statement_keeps_code(g, new);
    lemma_statement_keeps_scopes(s, old, fname);
    lemma_tables_stay(s, t, g, h, natives, done, Some(f));
    let before = value_types(s.metastack);
    match old {
        Statement::Function(_) => {
            stacks
        },
        Statement::Expression(expression) => {
            lemma_body_expression(
                s,
                g,
                natives,
                done,
                stacks,
                ready,
                f,
                base,
                entry,
                expression,
                new->Expression_0,
            );
            lemma_extends_push(stacks, point(s, ready));
            stacks.push(point(s, ready))
        },
        Statement::Variable(variable) => {
            lemma_body_variable(s, g, natives, stacks, ready, f, base, entry, variable);
            lemma_extends_self(stacks);
            stacks
        },
        Statement::Assignment(assignment) => {
            lemma_body_assignment(
                s,
                g,
                natives,
                stacks,
                ready,
                f,
                base,
                entry,
                assignment,
                new->Assignment_0,
            );
            lemma_extends_push(stacks, point(s, ready));
            stacks.push(point(s, ready))
        },
        Statement::If(i) => {
            let j = new->If_0;
            let body = i.block.statements@;
            let n = s.depth();
            let len = g.code.len() as int;
            assert(s.condition_ok());
            let s1 = s.open_if(i);
            let g1 = GeneratorView { nested: true, ..g.emit(Opcode::Nop) };
            lemma_open_if_related(s, g, place, natives, i);
            lemma_statements_keep(s1, body, body.len());
            let s2 = s1.statements(body, body.len());
            assert(s2.errors.len() == 0);
            let below = value_types(s1.metastack);
            assert(s1.metastack == s.metastack.subrange(0, n - 1));
            assert(s.metastack =~= s1.metastack.push(s.metastack.last()));
            lemma_value_types_push(s1.metastack, s.metastack.last());
            assert(before == below.push(Type::Boolean));
            let stacks1 = stacks.push(point(s, ready));
            lemma_extends_push(stacks, point(s, ready));
            lemma_places_keep(s.metastack, n - 1, s.scopes[1]);
            lemma_ends_with_self(below);
            lemma_extends_self(g.pool);
            lemma_tables_stay(s, s1, g, g1, natives, done, Some(f));
            let inner = point(s1, ready);
            assert(body_typed(s1, g1, natives, stacks1, ready, f, len + 1, inner));
            let g2 = g1.statements(j.block.statements@, body.len()).unwrap();
            assert(h == g2.close_if(len, g.nested));
            lemma_statements_keep_code(g1, j.block.statements@, body.len());
            assert(fits(g2));
            let stacks2 = lemma_body_statements(
                s1,
                g1,
                natives,
                done,
                stacks1,
                ready,
                f,
                len + 1,
                inner,
                body,
                j.block.statements@,
                body.len(),
            );
            lemma_ready_grows(s1, ready, body, body.len());
            lemma_extends_trans(stacks, stacks1, stacks2);
            lemma_close_if_typed(
                s,
                s2,
                g,
                g2,
                natives,
                stacks,
                stacks2,
                ready,
                ready_after_all(s1, ready, body, body.len()),
                f,
                base,
                entry,
                below,
            );
            stacks2
        },
    }
}

/// The locals that were written stay written.
pub proof fn lemma_ready_grows(
    s: AnalyserView,
    ready: Set<int>,
    statements: Seq<Statement>,
    count: nat,
)
    ensures
        ready.subset_of(ready_after_all(s, ready, statements, count)),
    decreases count,
{
    if count == 0 || count > statements.len() {
    } else {
        lemma_ready_grows(s, ready, statements, (count - 1) as nat);
    }
}

/// What holds at the end of an accepted `if`: the placeholder has become a jump that
/// is well typed, and the instructions before it and in its block stay well typed.
pub proof fn lemma_close_if_typed(
    s: AnalyserView,
    s2: AnalyserView,
    g: GeneratorView,
    g2: GeneratorView,
    natives: Seq<NativeFnView>,
    stacks: Seq<Point>,
    stacks2: Seq<Point>,
    ready: Set<int>,
    ready2: Set<int>,
    f: StatementFunction,
    base: int,
    entry: Point,
    below: Seq<Type>,
)
    requires
        body_typed(s, g, natives, stacks, ready, f, base, entry),
        body_typed(
            s2,
            g2,
            natives,
            stacks2,
            ready2,
            f,
            g.code.len() as int + 1,
            Point { stack: below, ready },
        ),
        value_types(s.metastack) == below.push(Type::Boolean),
        extends(stacks.push(point(s, ready)), stacks2),
        ready.subset_of(ready2),
        keeps_scopes(s, s2),
        keeps_code(GeneratorView { nested: true, ..g.emit(Opcode::Nop) }, g2),
        fits(g2),
    ensures
        body_typed(
            s2.clear(),
            g2.close_if(g.code.len() as int, true),
            natives,
            stacks2,
            ready,
            f,
            base,
            entry,
        ),
{
    let len = g.code.len() as int;
    let end = g2.code.len() as int;
    let t = s2.clear();
    let h = g2.close_if(len, true);
    let g1 = GeneratorView { nested: true, ..g.emit(Opcode::Nop) };
    let before = value_types(s.metastack);
    let own = draft(s, stacks, ready, f);
    let inner = draft(s2, stacks2, ready2, f);
    let new = draft(t, stacks2, ready, f);
    assert(value_types(t.metastack) =~= Seq::<Type>::empty());
    assert(new.points == stacks2.push(Point { stack: Seq::<Type>::empty(), ready }));
    assert(g1.code.len() == len + 1);
    assert(g2.code[len] == g1.code[len]);
    assert forall|x: int| 0 <= x <= len implies #[trigger] stacks2[x] == stacks.push(
        point(s, ready),
    )[x] by {
        lemma_extends_index(stacks.push(point(s, ready)), stacks2, x);
    }
    assert(refines(own.points, new.points)) by {
        lemma_ends_with_self(before);
    }
    lemma_body_stays(s, t, g, h, natives, stacks, ready, stacks2, ready, f, base, entry);
    assert(refines(inner.points, new.points)) by {
        assert(value_types(s2.metastack).subrange(
            value_types(s2.metastack).len() - 0,
            value_types(s2.metastack).len() as int,
        ) =~= Seq::<Type>::empty());
    }
    lemma_extends_self(s2.scopes[1].store);
    lemma_extends_self(g2.pool);
    lemma_local_types_extend(s2.scopes[1], t.scopes[1]);
    assert forall|i: int| base <= i < h.code.len() implies shaped(
        #[trigger] h.code[i],
        i,
        new,
        h.pool,
        t.scopes[0],
        natives,
    ) by {
        if i < len {
            assert(g2.code[i] == g1.code[i]);
            assert(h.code[i] == g.code[i]);
        } else if i == len {
            assert(h.code[i] == Opcode::JumpIfFalse(end as usize));
            assert(new.points[len] == point(s, ready));
            assert(before.subrange(0, before.len() - 1) =~= below);
            assert(admits(Point { stack: below, ready }, inner.points[len + 1]));
            if len + 1 < end {
                assert(new.points[len + 1] == inner.points[len + 1]);
            }
            assert(below.subrange(below.len() - 0, below.len() as int) =~= Seq::<Type>::empty());
            assert(flows(new, below, ready, len + 1));
            assert(flows(new, below, ready, end));
        } else {
            assert(h.code[i] == g2.code[i]);
            lemma_shaped_stays(
                g2.code[i],
                i,
                inner,
                new,
                g2.pool,
                h.pool,
                s2.scopes[0],
                natives,
            );
        }
    }
    assert(places_typed(t.metastack, t.scopes[1]));
}

/// The generator writes for statements inside a function, which the checker accepts
/// and checks soundly, instructions that are well typed. Returns what these
/// instructions and those before them find.
pub proof fn lemma_body_statements(
    s: AnalyserView,
    g: GeneratorView,
    natives: Seq<NativeFnView>,
    done: Seq<FunctionTyping>,
    stacks: Seq<Point>,
    ready: Set<int>,
    f: StatementFunction,
    base: int,
    entry: Point,
    old: Seq<Statement>,
    new: Seq<Statement>,
    count: nat,
) -> (after: Seq<Point>)
    requires
        related(s, g, Place::Function(f.identifier.label@), natives),
        tables_typed(s, g, natives, done, Some(f)),
        body_typed(s, g, natives, stacks, ready, f, base, entry),
        annotated_all(s, old, new),
        regular_all(old, Place::Function(f.identifier.label@)),
        disciplined_all(s, ready, old, f.return_type),
        count <= old.len(),
        s.statements(old, count).errors.len() == 0,
        g.statements(new, count).is_ok() ==> fits(g.statements(new, count).unwrap()),
    ensures
        g.statements(new, count).is_ok(),
        related(
            s.statements(old, count),
            g.statements(new, count).unwrap(),
            Place::Function(f.identifier.label@),
            natives,
        ),
        tables_typed(
            s.statements(old, count),
            g.statements(new, count).unwrap(),
            natives,
            done,
            Some(f),
        ),
        body_typed(
            s.statements(old, count),
            g.statements(new, count).unwrap(),
            natives,
            after,
            ready_after_all(s, ready, old, count),
            f,
            base,
            entry,
        ),
        extends(stacks, after),
    decreases old, 1nat, count,
{
    let place = Place::Function(f.identifier.label@);
    if count == 0 {
        lemma_extends_self(stacks);
        stacks
    } else {
        lemma_statements_generate(s, g, place, natives, old, new, count);
        let before = s.statements(old, (count - 1) as nat);
        lemma_statements_keep(s, old, (count - 1) as nat);
        lemma_statement_keeps(before, old[count - 1]);
        let h = g.statements(new, (count - 1) as nat).unwrap();
        let last = g.statements(new, count).unwrap();
        lemma_statements_keep_code(g, new, (count - 1) as nat);
        lemma_statement_keeps_code(h, new[count - 1]);
        let middle = lemma_body_statements(
            s,
            g,
            natives,
            done,
            stacks,
            ready,
            f,
            base,
            entry,
            old,
            new,
            (count - 1) as nat,
        );
        assert(annotated(before, old[count - 1], new[count - 1]));
        let after = lemma_body_statement(
            before,
            h,
            natives,
            done,
            middle,
            ready_after_all(s, ready, old, (count - 1) as nat),
            f,
            base,
            entry,
            old[count - 1],
            new[count - 1],
        );
        lemma_extends_trans(stacks, middle, after);
        after
    }
}

/// What the parameters of a function declaration do to the state of the checker: they
/// become the bindings of the function's scope, in order, and nothing else changes.
pub proof fn lemma_parameters_scopes(s: AnalyserView, f: StatementFunction, count: nat)
    requires
        s.scopes.len() == 2,
        count <= f.parameters.parameters@.len(),
    ensures
        s.parameters(f, count).scopes.len() == 2,
        s.parameters(f, count).scopes[0] == s.scopes[0],
        s.parameters(f, count).scopes[1].expected_type == s.scopes[1].expected_type,
        s.parameters(f, count).metastack == s.metastack,
        local_types(s.parameters(f, count).scopes[1]) == local_types(s.scopes[1])
            + prototype_of(f).parameters_types.subrange(0, count as int),
    decreases count,
{
    let types = prototype_of(f).parameters_types;
    if count == 0 {
        assert(local_types(s.scopes[1]) + types.subrange(0, 0) =~= local_types(s.scopes[1]));
    } else {
        lemma_parameters_scopes(s, f, (count - 1) as nat);
        let before = s.parameters(f, (count - 1) as nat);
        let after = s.parameters(f, count);
        let parameter = f.parameters.parameters@[count - 1];
        assert(after == before.parameter(f, parameter));
        assert(types[count - 1] == parameter.typ);
        assert(local_types(after.scopes[1]) =~= local_types(before.scopes[1]).push(
            parameter.typ,
        ));
        assert(types.subrange(0, count as int) =~= types.subrange(0, count - 1).push(
            parameter.typ,
        ));
        assert(local_types(after.scopes[1]) =~= local_types(s.scopes[1]) + types.subrange(
            0,
            count as int,
        ));
    }
}

/// The global scope over the native functions gives each of them its signature.
pub proof fn lemma_natives_bound(natives: Seq<NativeFnView>, name: Seq<char>)
    requires
        native_index(natives, name).is_some(),
    ensures
        lookup_in(ScopeView::global(natives).store, name) == Some(
            MetaObjectView::FnPrototype(natives[native_index(natives, name).unwrap()].prototype),
        ),
    decreases natives.len(),
{
    let store = ScopeView::global(natives).store;
    assert(store.last().name == natives.last().name);
    assert(store.last().object == MetaObjectView::FnPrototype(natives.last().prototype));
    if natives.last().name != name {
        assert(store.drop_last() =~= ScopeView::global(natives.drop_last()).store);
        lemma_natives_bound(natives.drop_last(), name);
        crate::engine::safety::lemma_native_index(natives.drop_last(), name);
        let k = native_index(natives.drop_last(), name).unwrap();
        assert(natives.drop_last()[k] == natives[k]);
    }
}

/// The instructions of a function that were well typed while it was generated are
/// well typed in the program in which the function stands at the end of the table.
pub proof fn lemma_finished_instruction(
    op: Opcode,
    ip: int,
    own: FunctionTyping,
    f: StatementFunction,
    code: Seq<Opcode>,
    pool: Seq<Object>,
    global: ScopeView,
    natives: Seq<NativeFnView>,
    fns: Seq<NamedFnView>,
    done: Seq<FunctionTyping>,
    entry: NamedFnView,
)
    requires
        shaped(op, ip, own, pool, global, natives),
        natives_bound(global, natives),
        functions_bound(global, natives, fns, done, Some(f)),
        function_index(fns, f.identifier.label@) is None,
        done.len() == fns.len(),
        entry.name == f.identifier.label@,
        0 <= ip < entry.function.code.len(),
        entry.function.code[ip] == op,
        own.parameters == prototype_of(f).parameters_types,
        own.return_type == f.return_type,
    ensures
        instruction_typed(
            pool,
            fns.push(entry),
            natives,
            ProgramTyping { functions: done.push(own) },
            fns.len() as int,
            ip,
        ),
{
    let more = fns.push(entry);
    let later = done.push(own);
    assert(more[fns.len() as int] == entry);
    assert(later[fns.len() as int] == own);
    match op {
        Opcode::Invoke(name) => {
            let p = lookup_in(global.store, name@)->Some_0->FnPrototype_0;
            if native_index(natives, name@) is None {
                lemma_function_push(fns, entry, name@);
                if bound_to(fns, done, name@, p) {
                    let j = function_index(fns, name@)->Some_0;
                    lemma_function_index(fns, name@);
                    assert(later[j] == done[j]);
                } else {
                    assert(is_current(Some(f), name@, p));
                }
            }
        },
        _ => {},
    }
}

/// The generator writes for a function declaration, which the checker accepts and
/// checks soundly, a function that is well typed. Returns the types of the functions
/// of the table, the new function last.
pub proof fn lemma_function_typed(
    s: AnalyserView,
    g: GeneratorView,
    natives: Seq<NativeFnView>,
    done: Seq<FunctionTyping>,
    f: StatementFunction,
    n: StatementFunction,
) -> (later: Seq<FunctionTyping>)
    requires
        related(s, g, Place::Top, natives),
        tables_typed(s, g, natives, done, None),
        annotated(s, Statement::Function(f), Statement::Function(n)),
        regular(Statement::Function(f), Place::Top),
        disciplined_all(
            s.open_function(f).parameters(f, f.parameters.parameters@.len()),
            parameters_ready(f),
            f.body.statements@,
            f.return_type,
        ),
        s.statement(Statement::Function(f)).errors.len() == 0,
        g.statement(Statement::Function(n)).is_ok() ==> fits(
            g.statement(Statement::Function(n)).unwrap(),
        ),
    ensures
        g.statement(Statement::Function(n)).is_ok(),
        related(
            s.statement(Statement::Function(f)),
            g.statement(Statement::Function(n)).unwrap(),
            Place::Top,
            natives,
        ),
        tables_typed(
            s.statement(Statement::Function(f)),
            g.statement(Statement::Function(n)).unwrap(),
            natives,
            later,
            None,
        ),
        extends(done, later),
{
    let old = Statement::Function(f);
    let new = Statement::Function(n);
    let fname = f.identifier.label@;
    let place = Place::Function(fname);
    lemma_statement_generates(s, g, Place::Top, natives, old, new);
    let count = f.parameters.parameters@.len();
    let body = f.body.statements@;
    let s0 = s.open_function(f);
    let s1 = s0.parameters(f, count);
    let s2 = s1.statements(body, body.len());
    let t = s.statement(old);
    assert(t == s2.close_function(f));
    assert(s0.scopes.len() == 2);
    lemma_parameters_keep(s0, f, count);
    lemma_statements_keep(s1, body, body.len());
    assert(s2.close_function(f).errors.len() >= s2.errors.len());
    lemma_open_function_related(s, g, natives, f);
    let g0 = g.open_function();
    lemma_parameters_generate(s0, g0, natives, f, n, fname, count);
    let g1 = g0.parameters(n, count).unwrap();
    crate::codegen::laws::lemma_parameters_keep(g0, n, count);
    lemma_statements_generate(s1, g1, place, natives, body, n.body.statements@, body.len());
    let g2 = g1.statements(n.body.statements@, body.len()).unwrap();
    let h = g.statement(new).unwrap();
    assert(h == g2.close_function(n).unwrap());
    // The tables at the start of the function.
    let global = s.scopes[0];
    let object = MetaObjectView::FnPrototype(prototype_of(f));
    let symbol = SymbolView { name: fname, object };
    assert(s.scopes.last() == global);
    assert(!global.is_declared(fname));
    assert(s0.scopes[0] == global.declare(fname, object));
    assert(f.parameters.parameters.len() == count);
    assert(prototype_of(f).arity == prototype_of(f).parameters_types.len());
    assert(natives_bound(s0.scopes[0], natives)) by {
        assert forall|name: Seq<char>|
            (#[trigger] native_index(natives, name)) is Some implies lookup_in(
            s0.scopes[0].store,
            name,
        ) == Some(
            MetaObjectView::FnPrototype(natives[native_index(natives, name)->Some_0].prototype),
        ) by {
            lemma_lookup_push(global.store, symbol, name);
        }
    }
    if native_index(natives, fname) is Some {
        assert(lookup_in(global.store, fname).is_some());
    }
    assert(functions_bound(s0.scopes[0], natives, g0.fns, done, Some(f))) by {
        assert forall|name: Seq<char>|
            match #[trigger] lookup_in(s0.scopes[0].store, name) {
                Some(MetaObjectView::FnPrototype(p)) => native_index(natives, name) is None ==> {
                    &&& p.arity == p.parameters_types.len()
                    &&& bound_to(g0.fns, done, name, p) || is_current(Some(f), name, p)
                },
                _ => true,
            } by {
            lemma_lookup_push(global.store, symbol, name);
            if name != fname {
                assert(lookup_in(s0.scopes[0].store, name) == lookup_in(global.store, name));
            }
        }
    }
    assert(tables_typed(s0, g0, natives, done, Some(f)));
    // The body.
    lemma_parameters_scopes(s0, f, count);
    let types = prototype_of(f).parameters_types;
    assert(local_types(s0.scopes[1]) =~= Seq::<Type>::empty());
    assert(types.subrange(0, count as int) =~= types);
    assert(local_types(s1.scopes[1]) =~= types);
    lemma_extends_self(types);
    lemma_extends_self(g0.pool);
    assert(tables_typed(s1, g1, natives, done, Some(f)));
    let none = Seq::<Point>::empty();
    let nothing = Seq::<Type>::empty();
    let ready = parameters_ready(f);
    let entry = Point { stack: nothing, ready };
    assert(s1.metastack =~= Seq::<MetaStackEntry>::empty());
    assert(value_types(s1.metastack) =~= nothing);
    lemma_ends_with_self(nothing);
    assert(body_typed(s1, g1, natives, none, ready, f, 0, entry));
    assert(fits(g2)) by {
        assert(h.code == g2.code.push(return_opcode(n.return_type)));
    }
    lemma_statements_keep_scopes(s1, body, body.len(), fname);
    lemma_statements_keep_code(g1, n.body.statements@, body.len());
    let stacks = lemma_body_statements(
        s1,
        g1,
        natives,
        done,
        none,
        ready,
        f,
        0,
        entry,
        body,
        n.body.statements@,
        body.len(),
    );
    // The end of the function.
    let own = draft(s2, stacks, ready_after_all(s1, ready, body, body.len()), f);
    let later = done.push(own);
    let added = h.fns.last();
    let len = g2.code.len() as int;
    assert(h.fns == g2.fns.push(added));
    assert(g2.fns == g.fns);
    assert(t.scopes =~= seq![s2.scopes[0]]);
    assert(s2.scopes[0] == s0.scopes[0]);
    lemma_extends_push(done, own);
    lemma_extends_push(g.fns, added);
    assert(names_of(s2.scopes[1]).len() == local_types(s2.scopes[1]).len());
    assert(signature_typed(added.function, own)) by {
        assert(own.points[0].stack.len() == 0);
        assert forall|i: int| 0 <= i < added.function.arity implies #[trigger] own.locals[i]
            == own.parameters[i] by {
            lemma_extends_index(types, own.locals, i);
        }
    }
    assert forall|k: int| 0 <= k < h.fns.len() implies #[trigger] function_typed(
        h.pool,
        h.fns,
        natives,
        ProgramTyping { functions: later },
        k,
    ) by {
        if k < g.fns.len() {
            assert(function_typed(g2.pool, g.fns, natives, ProgramTyping { functions: done }, k));
            lemma_extends_self(g2.pool);
            lemma_function_stays(g2.pool, h.pool, g.fns, h.fns, natives, done, later, k);
        } else {
            assert forall|ip: int| 0 <= ip < added.function.code.len() implies #[trigger] instruction_typed(
                h.pool,
                h.fns,
                natives,
                ProgramTyping { functions: later },
                k,
                ip,
            ) by {
                let op = added.function.code[ip];
                if ip < len {
                    assert(op == g2.code[ip]);
                    assert(shaped(g2.code[ip], ip, own, g2.pool, s2.scopes[0], natives));
                } else {
                    assert(op == return_opcode(f.return_type));
                    assert(own.points[len].stack == value_types(s2.metastack));
                    assert(residual_ok(s2.metastack, f.return_type));
                    if f.return_type != Type::Void {
                        assert(s2.metastack =~= Seq::<MetaStackEntry>::empty().push(
                            s2.metastack[0],
                        ));
                        lemma_value_types_push(Seq::<MetaStackEntry>::empty(), s2.metastack[0]);
                        assert(value_types(Seq::<MetaStackEntry>::empty()) =~= nothing);
                    }
                    assert(shaped(op, ip, own, g2.pool, s2.scopes[0], natives));
                }
                lemma_finished_instruction(
                    op,
                    ip,
                    own,
                    f,
                    added.function.code,
                    g2.pool,
                    s2.scopes[0],
                    natives,
                    g.fns,
                    done,
                    added,
                );
            }
        }
    }
    assert(functions_bound(t.scopes[0], natives, h.fns, later, None)) by {
        assert forall|name: Seq<char>|
            match #[trigger] lookup_in(t.scopes[0].store, name) {
                Some(MetaObjectView::FnPrototype(p)) => native_index(natives, name) is None ==> {
                    &&& p.arity == p.parameters_types.len()
                    &&& bound_to(h.fns, later, name, p) || is_current(None, name, p)
                },
                _ => true,
            } by {
            match lookup_in(t.scopes[0].store, name) {
                Some(MetaObjectView::FnPrototype(p)) => {
                    if native_index(natives, name) is None {
                        lemma_function_push(g.fns, added, name);
                        if bound_to(g.fns, done, name, p) {
                            let j = function_index(g.fns, name)->Some_0;
                            lemma_function_index(g.fns, name);
                            assert(later[j] == done[j]);
                        } else {
                            assert(is_current(Some(f), name, p));
                            assert(later[g.fns.len() as int] == own);
                        }
                    }
                },
                _ => {},
            }
        }
    }
    later
}

/// Whether the check of the tree over the native functions is sound: every function
/// is declared at the top level and every variable inside a function; a variable that
/// is read is an integer or was written on every way to the read; every return marker
/// returns what its function returns; an assignment to a variable that stands on the
/// meta-stack as a value finds no other value below it; and `main` is no native
/// function.
pub open spec fn soundly_checked(natives: Seq<NativeFnView>, ast: Seq<Statement>) -> bool {
    &&& regular_all(ast, Place::Top)
    &&& disciplined_all(AnalyserView::initial(natives), Set::empty(), ast, Type::Void)
    &&& native_index(natives, "main"@) is None
}

/// Whether `typing` types the program well and `main` as the function that starts it:
/// without parameters and without a result.
pub open spec fn types_program(
    pool: Seq<Object>,
    fns: Seq<NamedFnView>,
    natives: Seq<NativeFnView>,
    typing: ProgramTyping,
) -> bool {
    &&& functions_typed(pool, fns, natives, typing)
    &&& function_index(fns, "main"@) matches Some(m) && fns[m].function.arity == 0
        && typing.functions[m].return_type == Type::Void
}

/// The generator writes for the first `count` statements of a tree, which the checker
/// accepts and checks soundly, functions that are well typed. Returns their types.
pub proof fn lemma_functions_are_typed(
    natives: Seq<NativeFnView>,
    ast: Seq<Statement>,
    checked: Seq<Statement>,
    count: nat,
) -> (done: Seq<FunctionTyping>)
    requires
        annotated_all(AnalyserView::initial(natives), ast, checked),
        regular_all(ast, Place::Top),
        disciplined_all(AnalyserView::initial(natives), Set::empty(), ast, Type::Void),
        count <= ast.len(),
        AnalyserView::initial(natives).statements(ast, count).errors.len() == 0,
        fits_after_each(GeneratorView::initial(), checked, count),
    ensures
        GeneratorView::initial().statements(checked, count).is_ok(),
        related(
            AnalyserView::initial(natives).statements(ast, count),
            GeneratorView::initial().statements(checked, count).unwrap(),
            Place::Top,
            natives,
        ),
        tables_typed(
            AnalyserView::initial(natives).statements(ast, count),
            GeneratorView::initial().statements(checked, count).unwrap(),
            natives,
            done,
            None,
        ),
    decreases count,
{
    let s = AnalyserView::initial(natives);
    let g = GeneratorView::initial();
    if count == 0 {
        let done = Seq::<FunctionTyping>::empty();
        assert(only_functions(s.scopes[0])) by {
            assert forall|i: int| 0 <= i < s.scopes[0].store.len() implies (#[trigger] s.scopes[0].store[i]).object is FnPrototype by {}
        }
        assert forall|x: Seq<char>| #[trigger] s.scopes[0].is_declared(x) implies crate::compiler::relation::resolves(
            x,
            g.fns,
            natives,
        ) by {
            lemma_native_lookup(natives, x);
        }
        assert(related(s, g, Place::Top, natives));
        assert(natives_bound(s.scopes[0], natives)) by {
            assert forall|name: Seq<char>|
                (#[trigger] native_index(natives, name)) is Some implies lookup_in(
                s.scopes[0].store,
                name,
            ) == Some(
                MetaObjectView::FnPrototype(
                    natives[native_index(natives, name)->Some_0].prototype,
                ),
            ) by {
                lemma_natives_bound(natives, name);
            }
        }
        assert(functions_bound(s.scopes[0], natives, g.fns, done, None)) by {
            assert forall|name: Seq<char>|
                match #[trigger] lookup_in(s.scopes[0].store, name) {
                    Some(MetaObjectView::FnPrototype(p)) => native_index(natives, name) is None
                        ==> {
                        &&& p.arity == p.parameters_types.len()
                        &&& bound_to(g.fns, done, name, p) || is_current(None, name, p)
                    },
                    _ => true,
                } by {
                lemma_native_lookup(natives, name);
            }
        }
        done
    } else {
        let before = s.statements(ast, (count - 1) as nat);
        lemma_statements_keep(s, ast, (count - 1) as nat);
        lemma_statement_keeps(before, ast[count - 1]);
        assert(g.statements(checked, (count - 1) as nat) matches Ok(h) ==> fits(h));
        assert(g.statements(checked, count) matches Ok(h) ==> fits(h));
        let done = lemma_functions_are_typed(natives, ast, checked, (count - 1) as nat);
        let h = g.statements(checked, (count - 1) as nat).unwrap();
        assert(annotated(before, ast[count - 1], checked[count - 1]));
        assert(regular(ast[count - 1], Place::Top));
        assert(disciplined(
            before,
            ready_after_all(s, Set::empty(), ast, (count - 1) as nat),
            ast[count - 1],
            Type::Void,
        ));
        match ast[count - 1] {
            Statement::Function(f) => {
                let n = checked[count - 1]->Function_0;
                lemma_function_typed(before, h, natives, done, f, n)
            },
            _ => {
                lemma_statement_generates(
                    before,
                    h,
                    Place::Top,
                    natives,
                    ast[count - 1],
                    checked[count - 1],
                );
                lemma_top_keeps(before, h, ast[count - 1], checked[count - 1]);
                lemma_tables_stay(
                    before,
                    before.statement(ast[count - 1]),
                    h,
                    h.statement(checked[count - 1]).unwrap(),
                    natives,
                    done,
                    None,
                );
                done
            },
        }
    }
}

/// The program of a soundly checked tree is well typed.
///
/// Let the checker, starting over the native functions `natives`, accept the tree
/// `ast` and check it soundly, let `checked` be the tree with the annotations of that
/// check, and let the machine be able to index what the generator holds after each
/// function. Then the generator succeeds on `checked`, and the types that this lemma
/// returns type its program well, with `main` as the function that starts it.
pub proof fn lemma_sound_program_is_well_typed(
    natives: Seq<NativeFnView>,
    ast: Seq<Statement>,
    checked: Seq<Statement>,
) -> (typing: ProgramTyping)
    requires
        annotated_all(AnalyserView::initial(natives), ast, checked),
        AnalyserView::initial(natives).program(ast).errors.len() == 0,
        soundly_checked(natives, ast),
        fits_after_each(GeneratorView::initial(), checked, checked.len()),
    ensures
        GeneratorView::initial().statements(checked, checked.len()).is_ok(),
        types_program(
            GeneratorView::initial().statements(checked, checked.len()).unwrap().pool,
            GeneratorView::initial().statements(checked, checked.len()).unwrap().fns,
            natives,
            typing,
        ),
{
    reveal_with_fuel(lookup_scopes, 2);
    let done = lemma_functions_are_typed(natives, ast, checked, ast.len());
    let t = AnalyserView::initial(natives).statements(ast, ast.len());
    let g = GeneratorView::initial().statements(checked, checked.len()).unwrap();
    assert(t.entry_point().errors.len() == 0);
    assert(t.scopes.last() == t.scopes[0]);
    assert(t.scopes.drop_last().len() == 0);
    let p = lookup_scopes(t.scopes, "main"@)->Some_0->FnPrototype_0;
    assert(lookup_in(t.scopes[0].store, "main"@) == Some(MetaObjectView::FnPrototype(p)));
    assert(bound_to(g.fns, done, "main"@, p));
    let m = function_index(g.fns, "main"@)->Some_0;
    lemma_function_index(g.fns, "main"@);
    let typing = ProgramTyping { functions: done };
    assert(function_typed(g.pool, g.fns, natives, typing, m));
    typing
}

/// A soundly checked program does not go wrong.
///
/// Let the checker, starting over the native functions `natives`, accept the tree
/// `ast` and check it soundly, let `checked` be the tree with the annotations of that
/// check, and let the machine be able to index what the generator holds after each
/// function and the program that it produces. Then the engine, started on that program
/// in the frame of `main`, agrees with the types that this lemma returns, and a run of
/// any number of steps never ends with a fault: the engine goes on, or the program has
/// ended with no caller left, or a native function is called with as many arguments as
/// its arity. At every instruction on the way the topmost values of the operand stack
/// have the kinds that the types give for the instruction.
pub proof fn lemma_sound_program_does_not_go_wrong(
    natives: Seq<NativeFnView>,
    ast: Seq<Statement>,
    checked: Seq<Statement>,
    fuel: nat,
) -> (typing: ProgramTyping)
    requires
        annotated_all(AnalyserView::initial(natives), ast, checked),
        AnalyserView::initial(natives).program(ast).errors.len() == 0,
        soundly_checked(natives, ast),
        fits_after_each(GeneratorView::initial(), checked, checked.len()),
        GeneratorView::initial().statements(checked, checked.len()) matches Ok(g) ==> indexable(
            g.fns,
        ),
    ensures
        GeneratorView::initial().statements(checked, checked.len()).is_ok(),
        ({
            let g = GeneratorView::initial().statements(checked, checked.len()).unwrap();
            let m = function_index(g.fns, "main"@).unwrap();
            let e = EngineView::started(g.pool, g.fns, natives, m);
            &&& function_index(g.fns, "main"@).is_some()
            &&& program_typed(g.pool, g.fns, natives, typing)
            &&& engine_typed(typing, e, Type::Void)
            &&& ended_well(typing, e.run(fuel))
        }),
{
    let typing = lemma_sound_program_is_well_typed(natives, ast, checked);
    let g = GeneratorView::initial().statements(checked, checked.len()).unwrap();
    let m = function_index(g.fns, "main"@).unwrap();
    lemma_function_index(g.fns, "main"@);
    let e = EngineView::started(g.pool, g.fns, natives, m);
    lemma_start_is_typed(typing, e, m);
    assert(e == (EngineView {
        frame: FrameView::fresh(g.fns[m].name, m as usize, g.fns[m].function.max_locals as nat),
        halted: false,
        frames: Seq::empty(),
        ..e
    }));
    lemma_run_is_safe(typing, e, fuel);
    typing
}

} // verus!
