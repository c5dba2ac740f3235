//! The code generator succeeds on every tree that the checker accepts, and what it
//! produces is well formed.

use vstd::prelude::*;
use crate::analysis::model::{annotated, annotated_all, annotated_expression, AnalyserView};
use crate::analysis::scope::{lookup_scopes, MetaObjectView, ScopeType, ScopeView};
use crate::analysis::shape::{
    keeps,
    lemma_parameters_keep,
    lemma_statement_keeps,
    lemma_statements_keep,
};
use crate::ast::{
    Statement,
    StatementAssignment,
    StatementExpression,
    StatementFunction,
    StatementVariable,
};
use crate::bytecode::Opcode;
use crate::codegen::laws::{lemma_statement_in_range, lemma_statements_in_range, ranges_ok};
use crate::codegen::model::{local_index, GeneratorView};
use crate::program::function_index;
use crate::compiler::relation::{
    calls_declared,
    inside_block,
    lemma_function_push,
    lemma_local_push,
    lemma_lookup_is_binding,
    lemma_lookup_names,
    lemma_lookup_push,
    lemma_native_lookup,
    names_of,
    only_functions,
    places_known,
    regular,
    regular_all,
    related,
    resolves,
    well_formed,
    Place,
};
use crate::stdlib::NativeFnView;

verus! {

broadcast use vstd::std_specs::vec::group_vec_axioms;

/// A name that stands for a variable is a local of the function that is being
/// generated.
pub proof fn lemma_variable_is_local(
    s: AnalyserView,
    g: GeneratorView,
    place: Place,
    natives: Seq<NativeFnView>,
    name: Seq<char>,
)
    requires
        related(s, g, place, natives),
        lookup_scopes(s.scopes, name) matches Some(MetaObjectView::VarType(_)),
    ensures
        place is Function,
        local_index(g.locals, name).is_some(),
{
    reveal_with_fuel(lookup_scopes, 3);
    let found = lookup_scopes(s.scopes, name).unwrap();
    if place is Function {
        assert(s.scopes.last() == s.scopes[1]);
        assert(s.scopes.drop_last().last() == s.scopes[0]);
        if s.scopes[1].lookup(name).is_some() {
            lemma_lookup_names(s.scopes[1].store, name);
        } else {
            assert(lookup_scopes(s.scopes.drop_last(), name) == Some(found));
            assert(s.scopes[0].lookup(name).is_some());
            lemma_lookup_is_binding(s.scopes[0].store, name);
        }
    } else {
        assert(s.scopes.last() == s.scopes[0]);
        assert(s.scopes[0].lookup(name).is_some());
        lemma_lookup_is_binding(s.scopes[0].store, name);
    }
}

/// A name that stands for a function is bound in the global scope.
pub proof fn lemma_function_is_global(
    s: AnalyserView,
    g: GeneratorView,
    place: Place,
    natives: Seq<NativeFnView>,
    name: Seq<char>,
)
    requires
        related(s, g, place, natives),
        lookup_scopes(s.scopes, name) matches Some(MetaObjectView::FnPrototype(_)),
    ensures
        s.scopes[0].is_declared(name),
{
    reveal_with_fuel(lookup_scopes, 3);
    if place is Function {
        assert(s.scopes.last() == s.scopes[1]);
        assert(s.scopes.drop_last().last() == s.scopes[0]);
        if s.scopes[1].lookup(name).is_some() {
            lemma_lookup_is_binding(s.scopes[1].store, name);
        }
    } else {
        assert(s.scopes.last() == s.scopes[0]);
    }
}

/// One more instruction that calls no unbound name keeps the code in order.
pub proof fn lemma_emit_keeps(
    s: AnalyserView,
    t: AnalyserView,
    g: GeneratorView,
    h: GeneratorView,
    op: Opcode,
    place: Place,
    natives: Seq<NativeFnView>,
)
    requires
        related(s, g, place, natives),
        h.code == g.code.push(op),
        h.fns == g.fns,
        h.locals == g.locals,
        h.nested == g.nested,
        ranges_ok(h),
        op matches Opcode::Invoke(name) ==> s.scopes[0].is_declared(name@),
        t.scopes == s.scopes,
        t.errors.len() == 0,
        places_known(t.metastack, g.locals),
    ensures
        related(t, h, place, natives),
{
    assert forall|j: int| 0 <= j < h.code.len() implies ((#[trigger] h.code[j]) matches Opcode::Invoke(
        name,
    ) ==> s.scopes[0].is_declared(name@)) by {
        if j < g.code.len() {
            assert(h.code[j] == g.code[j]);
        }
    }
}

/// The generator succeeds on an expression that the checker accepts, and the two end
/// at the same point.
pub proof fn lemma_expression_generates(
    s: AnalyserView,
    g: GeneratorView,
    place: Place,
    natives: Seq<NativeFnView>,
    old: StatementExpression,
    new: StatementExpression,
)
    requires
        related(s, g, place, natives),
        annotated_expression(s, old, new),
        s.expression(old).errors.len() == 0,
    ensures
        g.expression(new).is_ok(),
        related(s.expression(old), g.expression(new).unwrap(), place, natives),
{
    let t = s.expression(old);
    match old {
        StatementExpression::Call(call) => {
            let name = call.identifier.label@;
            lemma_function_is_global(s, g, place, natives, name);
            let h = g.expression(new).unwrap();
            lemma_statement_in_range(g, Statement::Expression(new));
            lemma_emit_keeps(s, t, g, h, Opcode::Invoke(call.identifier.label), place, natives);
        },
        StatementExpression::Binary(binary) => {
            assert(s.binary_operands(binary.operator).is_some());
            let h = g.expression(new).unwrap();
            lemma_statement_in_range(g, Statement::Expression(new));
            lemma_emit_keeps(s, t, g, h, h.code.last(), place, natives);
        },
        StatementExpression::Literal(literal) => {
            let h = g.expression(new).unwrap();
            lemma_statement_in_range(g, Statement::Expression(new));
            lemma_emit_keeps(s, t, g, h, h.code.last(), place, natives);
        },
        StatementExpression::Identifier(identifier) => {
            lemma_variable_is_local(s, g, place, natives, identifier.label@);
            let h = g.expression(new).unwrap();
            lemma_statement_in_range(g, Statement::Expression(new));
            lemma_emit_keeps(s, t, g, h, h.code.last(), place, natives);
        },
        StatementExpression::Return(ret) => {
            let h = g.expression(new).unwrap();
            lemma_statement_in_range(g, Statement::Expression(new));
            lemma_emit_keeps(s, t, g, h, h.code.last(), place, natives);
        },
    }
}

/// The generator succeeds on the declaration of a variable that the checker accepts,
/// and the two end at the same point.
pub proof fn lemma_variable_generates(
    s: AnalyserView,
    g: GeneratorView,
    place: Place,
    natives: Seq<NativeFnView>,
    variable: StatementVariable,
)
    requires
        related(s, g, place, natives),
        place is Function,
        s.variable(variable).errors.len() == 0,
    ensures
        g.local(variable.identifier.label@, variable.identifier.span).is_ok(),
        related(
            s.variable(variable),
            g.local(variable.identifier.label@, variable.identifier.span).unwrap(),
            place,
            natives,
        ),
{
    let name = variable.identifier.label@;
    let t = s.variable(variable);
    assert(s.scopes.last() == s.scopes[1]);
    assert(!s.scopes[1].is_declared(name));
    lemma_lookup_names(s.scopes[1].store, name);
    let h = g.local(name, variable.identifier.span).unwrap();
    assert(t.scopes[0] == s.scopes[0]);
    assert(t.scopes[1] == s.scopes[1].declare(name, MetaObjectView::VarType(variable.typ)));
    assert(names_of(t.scopes[1]) =~= h.locals);
    assert forall|k: int| 0 <= k < t.metastack.len() implies ((#[trigger] t.metastack[k]).place() matches Some(
        p,
    ) ==> local_index(h.locals, p.0@).is_some()) by {
        if t.metastack[k].place() is Some {
            lemma_local_push(g.locals, name, t.metastack[k].place().unwrap().0@);
            if k < s.metastack.len() {
                assert(t.metastack[k] == s.metastack[k]);
            }
        }
    }
    assert forall|i: int| 0 <= i < t.scopes[1].store.len() implies (#[trigger] t.scopes[1].store[i]).object is VarType by {
        if i < s.scopes[1].store.len() {
            assert(t.scopes[1].store[i] == s.scopes[1].store[i]);
        }
    }
}

/// The generator succeeds on an assignment that the checker accepts, and the two end
/// at the same point.
pub proof fn lemma_assignment_generates(
    s: AnalyserView,
    g: GeneratorView,
    place: Place,
    natives: Seq<NativeFnView>,
    old: StatementAssignment,
    new: StatementAssignment,
)
    requires
        related(s, g, place, natives),
        new == (StatementAssignment { target: s.assignment_annotation(old), ..old }),
        s.assignment(old).errors.len() == 0,
    ensures
        g.assignment(new).is_ok(),
        related(s.assignment(old), g.assignment(new).unwrap(), place, natives),
{
    let t = s.assignment(old);
    let n = s.depth();
    assert(s.assignment_target().is_some());
    let entry = s.metastack[n - 2];
    assert(entry.place().is_some());
    assert(local_index(g.locals, entry.place().unwrap().0@).is_some());
    let h = g.assignment(new).unwrap();
    lemma_statement_in_range(g, Statement::Assignment(new));
    lemma_emit_keeps(s, t, g, h, h.code.last(), place, natives);
}

/// A binding added to a scope hides no name that the scope binds.
pub proof fn lemma_declared_stays(
    scope: ScopeView,
    added: Seq<char>,
    object: MetaObjectView,
    name: Seq<char>,
)
    requires
        scope.is_declared(name),
    ensures
        scope.declare(added, object).is_declared(name),
{
    lemma_lookup_push(scope.store, crate::analysis::scope::SymbolView { name: added, object }, name);
}

/// Code that calls only names bound in a scope calls only names bound in the scope
/// with one more binding.
pub proof fn lemma_calls_stay(
    code: Seq<Opcode>,
    scope: ScopeView,
    added: Seq<char>,
    object: MetaObjectView,
)
    requires
        calls_declared(code, scope),
    ensures
        calls_declared(code, scope.declare(added, object)),
{
    assert forall|j: int| 0 <= j < code.len() implies ((#[trigger] code[j]) matches Opcode::Invoke(
        name,
    ) ==> scope.declare(added, object).is_declared(name@)) by {
        if let Opcode::Invoke(name) = code[j] {
            lemma_declared_stays(scope, added, object, name@);
        }
    }
}

/// At the start of an accepted function declaration, the generator starts the
/// function at the same point.
pub proof fn lemma_open_function_related(
    s: AnalyserView,
    g: GeneratorView,
    natives: Seq<NativeFnView>,
    f: StatementFunction,
)
    requires
        related(s, g, Place::Top, natives),
        s.open_function(f).errors.len() == 0,
    ensures
        related(
            s.open_function(f),
            g.open_function(),
            Place::Function(f.identifier.label@),
            natives,
        ),
{
    let name = f.identifier.label@;
    let t = s.open_function(f);
    let h = g.open_function();
    let place = Place::Function(name);
    let global = s.scopes[0];
    let object = MetaObjectView::FnPrototype(crate::analysis::model::prototype_of(f));
    assert(s.scopes.last() == global);
    assert(!global.is_declared(name));
    assert(t.scopes[0] == global.declare(name, object));
    assert(t.scopes[1] == ScopeView::fresh(ScopeType::Function, f.return_type));
    assert(t.scopes.len() == 2);
    assert(t.metastack.len() == 0);
    assert forall|i: int| 0 <= i < t.scopes[0].store.len() implies (#[trigger] t.scopes[0].store[i]).object is FnPrototype by {
        if i < global.store.len() {
            assert(t.scopes[0].store[i] == global.store[i]);
        }
    }
    assert forall|x: Seq<char>| #[trigger] t.scopes[0].is_declared(x) implies resolves(
        x,
        h.fns,
        natives,
    ) || place == Place::Function(x) by {
        lemma_lookup_push(
            global.store,
            crate::analysis::scope::SymbolView { name, object },
            x,
        );
        if x != name {
            assert(global.is_declared(x));
        }
    }
    assert forall|x: Seq<char>| (#[trigger] function_index(h.fns, x)).is_some() implies t.scopes[0].is_declared(
        x,
    ) by {
        assert(global.is_declared(x));
        lemma_declared_stays(global, name, object, x);
    }
    assert forall|i: int| 0 <= i < h.fns.len() implies calls_declared(
        (#[trigger] h.fns[i]).function.code,
        t.scopes[0],
    ) by {
        lemma_calls_stay(g.fns[i].function.code, global, name, object);
    }
    lemma_lookup_push(global.store, crate::analysis::scope::SymbolView { name, object }, name);
    assert(names_of(t.scopes[1]) =~= h.locals);
    if function_index(g.fns, name).is_some() {
        assert(global.is_declared(name));
    }
}

/// The generator succeeds on the parameters of an accepted function declaration, and
/// the two end at the same point.
pub proof fn lemma_parameters_generate(
    s: AnalyserView,
    g: GeneratorView,
    natives: Seq<NativeFnView>,
    old: StatementFunction,
    new: StatementFunction,
    name: Seq<char>,
    count: nat,
)
    requires
        related(s, g, Place::Function(name), natives),
        new.parameters == old.parameters,
        count <= old.parameters.parameters@.len(),
        s.parameters(old, count).errors.len() == 0,
    ensures
        g.parameters(new, count).is_ok(),
        related(
            s.parameters(old, count),
            g.parameters(new, count).unwrap(),
            Place::Function(name),
            natives,
        ),
    decreases count,
{
    if count > 0 {
        let before = s.parameters(old, (count - 1) as nat);
        lemma_parameters_keep(s, old, (count - 1) as nat);
        lemma_parameters_generate(s, g, natives, old, new, name, (count - 1) as nat);
        let parameter = old.parameters.parameters@[count - 1];
        let local = parameter.identifier.label@;
        let t = s.parameters(old, count);
        let k = g.parameters(new, (count - 1) as nat).unwrap();
        assert(t == before.parameter(old, parameter));
        assert(before.scopes.last() == before.scopes[1]);
        assert(!before.scopes[1].is_declared(local));
        lemma_lookup_names(before.scopes[1].store, local);
        let h = k.local(local, parameter.identifier.span).unwrap();
        assert(t.scopes[0] == before.scopes[0]);
        assert(t.scopes[1] == before.scopes[1].declare(
            local,
            MetaObjectView::VarType(parameter.typ),
        ));
        assert(names_of(t.scopes[1]) =~= h.locals);
        assert forall|j: int| 0 <= j < t.metastack.len() implies ((#[trigger] t.metastack[j]).place() matches Some(
            p,
        ) ==> local_index(h.locals, p.0@).is_some()) by {
            if t.metastack[j].place() is Some {
                lemma_local_push(k.locals, local, t.metastack[j].place().unwrap().0@);
            }
        }
        assert forall|i: int| 0 <= i < t.scopes[1].store.len() implies (#[trigger] t.scopes[1].store[i]).object is VarType by {
            if i < before.scopes[1].store.len() {
                assert(t.scopes[1].store[i] == before.scopes[1].store[i]);
            }
        }
    }
}

/// At the end of an accepted function declaration, the generator enters the function
/// in the table and the two end at the same point.
pub proof fn lemma_close_function_related(
    s: AnalyserView,
    g: GeneratorView,
    natives: Seq<NativeFnView>,
    old: StatementFunction,
    new: StatementFunction,
)
    requires
        related(s, g, Place::Function(old.identifier.label@), natives),
        new.identifier == old.identifier,
        new.parameters == old.parameters,
        new.return_type == old.return_type,
        s.close_function(old).errors.len() == 0,
        g.close_function(new).is_ok() ==> ranges_ok(g.close_function(new).unwrap()),
    ensures
        g.close_function(new).is_ok(),
        related(s.close_function(old), g.close_function(new).unwrap(), Place::Top, natives),
{
    let name = old.identifier.label@;
    let t = s.close_function(old);
    let h = g.close_function(new).unwrap();
    let global = s.scopes[0];
    assert(t.scopes =~= seq![global]);
    assert(t.metastack.len() == 0);
    let entry = h.fns.last();
    assert(h.fns == g.fns.push(entry));
    assert forall|x: Seq<char>| #[trigger] global.is_declared(x) implies resolves(
        x,
        h.fns,
        natives,
    ) by {
        lemma_function_push(g.fns, entry, x);
    }
    assert forall|x: Seq<char>| (#[trigger] function_index(h.fns, x)).is_some() implies global.is_declared(
        x,
    ) by {
        lemma_function_push(g.fns, entry, x);
        if x != name {
            assert(function_index(g.fns, x).is_some());
        }
    }
    assert forall|j: int| 0 <= j < h.code.len() implies ((#[trigger] h.code[j]) matches Opcode::Invoke(
        x,
    ) ==> global.is_declared(x@)) by {
        if j < g.code.len() {
            assert(h.code[j] == g.code[j]);
        }
    }
    assert forall|i: int| 0 <= i < h.fns.len() implies calls_declared(
        (#[trigger] h.fns[i]).function.code,
        global,
    ) by {
        if i < g.fns.len() {
            assert(h.fns[i] == g.fns[i]);
        } else {
            assert(h.fns[i].function.code == h.code);
        }
    }
}

/// The generator succeeds on a statement that the checker accepts, and the two end at
/// the same point.
pub proof fn lemma_statement_generates(
    s: AnalyserView,
    g: GeneratorView,
    place: Place,
    natives: Seq<NativeFnView>,
    old: Statement,
    new: Statement,
)
    requires
        related(s, g, place, natives),
        annotated(s, old, new),
        regular(old, place),
        s.statement(old).errors.len() == 0,
    ensures
        g.statement(new).is_ok(),
        related(s.statement(old), g.statement(new).unwrap(), place, natives),
    decreases old, 0nat,
{
    match old {
        Statement::Function(f) => {
            let n = new->Function_0;
            let name = f.identifier.label@;
            let inner = Place::Function(name);
            let count = f.parameters.parameters@.len();
            let body = f.body.statements@;
            let s0 = s.open_function(f);
            let s1 = s0.parameters(f, count);
            let s2 = s1.statements(body, body.len());
            assert(s0.scopes.len() == s.scopes.len() + 1);
            lemma_parameters_keep(s0, f, count);
            lemma_statements_keep(s1, body, body.len());
            assert(s2.close_function(f).errors.len() >= s2.errors.len());
            lemma_open_function_related(s, g, natives, f);
            let g0 = g.open_function();
            lemma_parameters_generate(s0, g0, natives, f, n, name, count);
            let g1 = g0.parameters(n, count).unwrap();
            lemma_statements_generate(s1, g1, inner, natives, body, n.body.statements@, body.len());
            let g2 = g1.statements(n.body.statements@, body.len()).unwrap();
            if g2.close_function(n).is_ok() {
                assert(g.statement(new) == g2.close_function(n));
                lemma_statement_in_range(g, new);
            }
            lemma_close_function_related(s2, g2, natives, f, n);
        },
        Statement::Expression(expression) => {
            lemma_expression_generates(s, g, place, natives, expression, new->Expression_0);
        },
        Statement::If(i) => {
            let j = new->If_0;
            let inner = inside_block(place);
            let body = i.block.statements@;
            assert(s.condition_ok());
            let s1 = s.open_if(i);
            let g1 = GeneratorView { nested: true, ..g.emit(Opcode::Nop) };
            lemma_statements_keep(s1, body, body.len());
            let s2 = s1.statements(body, body.len());
            assert(s2.errors.len() == 0);
            assert(ranges_ok(g1)) by {
                assert forall|k: int| 0 <= k < g1.code.len() implies crate::codegen::laws::in_range(
                    #[trigger] g1.code[k],
                    g1.code.len() as int,
                    g1.pool.len() as int,
                ) by {
                    if k < g.code.len() {
                        assert(g1.code[k] == g.code[k]);
                    }
                }
            }
            assert(calls_declared(g1.code, s.scopes[0])) by {
                assert forall|k: int| 0 <= k < g1.code.len() implies ((#[trigger] g1.code[k]) matches Opcode::Invoke(
                    x,
                ) ==> s.scopes[0].is_declared(x@)) by {
                    if k < g.code.len() {
                        assert(g1.code[k] == g.code[k]);
                    }
                }
            }
            assert(related(s1, g1, inner, natives));
            lemma_statements_generate(s1, g1, inner, natives, body, j.block.statements@, body.len());
            let g2 = g1.statements(j.block.statements@, body.len()).unwrap();
            lemma_statements_in_range(g1, j.block.statements@, body.len());
            lemma_statement_in_range(g, new);
            let t = s.statement(old);
            let h = g.statement(new).unwrap();
            assert(h == g2.close_if(g.code.len() as int, g.nested));
            assert(t.scopes == s2.scopes);
            assert(t.metastack.len() == 0);
            assert forall|k: int| 0 <= k < h.code.len() implies ((#[trigger] h.code[k]) matches Opcode::Invoke(
                x,
            ) ==> t.scopes[0].is_declared(x@)) by {
                if k != g.code.len() {
                    assert(h.code[k] == g2.code[k]);
                }
            }
        },
        Statement::Variable(variable) => {
            lemma_variable_generates(s, g, place, natives, variable);
        },
        Statement::Assignment(assignment) => {
            lemma_assignment_generates(s, g, place, natives, assignment, new->Assignment_0);
        },
    }
}

/// The generator succeeds on a sequence of statements that the checker accepts, and
/// the two end at the same point.
pub proof fn lemma_statements_generate(
    s: AnalyserView,
    g: GeneratorView,
    place: Place,
    natives: Seq<NativeFnView>,
    old: Seq<Statement>,
    new: Seq<Statement>,
    count: nat,
)
    requires
        related(s, g, place, natives),
        annotated_all(s, old, new),
        regular_all(old, place),
        count <= old.len(),
        s.statements(old, count).errors.len() == 0,
    ensures
        g.statements(new, count).is_ok(),
        related(s.statements(old, count), g.statements(new, count).unwrap(), place, natives),
    decreases old, 1nat, count,
{
    if count > 0 {
        let before = s.statements(old, (count - 1) as nat);
        lemma_statements_keep(s, old, (count - 1) as nat);
        lemma_statement_keeps(before, old[count - 1]);
        lemma_statements_generate(s, g, place, natives, old, new, (count - 1) as nat);
        assert(annotated(before, old[count - 1], new[count - 1]));
        lemma_statement_generates(
            before,
            g.statements(new, (count - 1) as nat).unwrap(),
            place,
            natives,
            old[count - 1],
            new[count - 1],
        );
    }
}

/// The code generator succeeds on every accepted tree, and the program is well formed.
///
/// Let the checker, starting over the native functions `natives`, accept the tree
/// `ast`, in which every function is declared at the top level and every variable
/// inside a function, and let `checked` be the tree with the annotations of that check.
/// Then the code generator, starting from nothing, succeeds on `checked`, and in the
/// program it produces every `Ldc` names an entry of the pool, every `Jump` and
/// `JumpIfFalse` goes to an instruction of its function, and every `Invoke` names a
/// function of the program or a native function.
pub proof fn lemma_accepted_program_is_well_formed(
    natives: Seq<NativeFnView>,
    ast: Seq<Statement>,
    checked: Seq<Statement>,
)
    requires
        annotated_all(AnalyserView::initial(natives), ast, checked),
        AnalyserView::initial(natives).program(ast).errors.len() == 0,
        regular_all(ast, Place::Top),
    ensures
        GeneratorView::initial().statements(checked, checked.len()).is_ok(),
        well_formed(
            GeneratorView::initial().statements(checked, checked.len()).unwrap().program(),
            natives,
        ),
{
    let s = AnalyserView::initial(natives);
    let g = GeneratorView::initial();
    assert(only_functions(s.scopes[0])) by {
        assert forall|i: int| 0 <= i < s.scopes[0].store.len() implies (#[trigger] s.scopes[0].store[i]).object is FnPrototype by {}
    }
    assert forall|x: Seq<char>| #[trigger] s.scopes[0].is_declared(x) implies resolves(
        x,
        g.fns,
        natives,
    ) by {
        lemma_native_lookup(natives, x);
    }
    assert(related(s, g, Place::Top, natives));
    lemma_statements_generate(s, g, Place::Top, natives, ast, checked, ast.len());
    let t = s.statements(ast, ast.len());
    let h = g.statements(checked, checked.len()).unwrap();
    let program = h.program();
    assert forall|i: int, j: int|
        0 <= i < program.fns.len() && 0 <= j < program.fns[i].function.code.len() implies crate::compiler::relation::instruction_ok(
        #[trigger] program.fns[i].function.code[j],
        program.fns[i].function.code.len() as int,
        program,
        natives,
    ) by {
        let f = h.fns[i].function;
        assert(crate::codegen::laws::function_in_range(f, h.pool.len() as int));
        assert(crate::codegen::laws::in_range(f.code[j], f.code.len() - 1, h.pool.len() as int));
        assert(calls_declared(f.code, t.scopes[0]));
        if let Opcode::Invoke(name) = f.code[j] {
            assert(t.scopes[0].is_declared(name@));
        }
    }
}

} // verus!
