//! The programs of accepted trees jump forward only and call no function that is
//! declared later, so that a soundly checked program in which no function calls itself
//! comes to an end.

use vstd::prelude::*;
use crate::analysis::model::{annotated, annotated_all, AnalyserView};
use crate::analysis::shape::{lemma_parameters_keep, lemma_statement_keeps, lemma_statements_keep};
use crate::ast::Statement;
use crate::bytecode::Opcode;
use crate::codegen::model::{fits, fits_after_each, GeneratorView};
use crate::compiler::frames::{
    keeps_code,
    lemma_statement_keeps_code,
    lemma_statements_keep_code,
    lemma_top_keeps,
};
use crate::compiler::laws::{
    lemma_open_function_related,
    lemma_parameters_generate,
    lemma_statement_generates,
    lemma_statements_generate,
};
use crate::compiler::relation::{
    lemma_function_push,
    lemma_native_lookup,
    only_functions,
    regular,
    regular_all,
    related,
    resolves,
    Place,
};
use crate::compiler::soundness::{lemma_sound_program_does_not_go_wrong, soundly_checked};
use crate::engine::model::EngineView;
use crate::engine::safety::ended_well;
use crate::engine::termination::{
    bound,
    calls_no_later,
    calls_no_self,
    jumps_forward,
    lemma_calls_back,
    lemma_run_comes_to_an_end,
};
use crate::engine::typing::{indexable, ProgramTyping};
use crate::program::{function_index, lemma_function_index, NamedFnView};
use crate::stdlib::{native_index, NativeFnView};

verus! {

broadcast use vstd::std_specs::vec::group_vec_axioms;

/// Whether every jump of the code goes forward.
pub open spec fn forward_code(code: Seq<Opcode>) -> bool {
    forall|i: int|
        0 <= i < code.len() ==> (match #[trigger] code[i] {
            Opcode::Jump(offset) => offset > i,
            Opcode::JumpIfFalse(offset) => offset > i,
            _ => true,
        })
}

/// Whether every jump that the generator holds goes forward.
pub open spec fn forward(g: GeneratorView) -> bool {
    &&& forward_code(g.code)
    &&& forall|k: int| 0 <= k < g.fns.len() ==> forward_code((#[trigger] g.fns[k]).function.code)
}

/// What fits after a statement inside a function or a block fitted before it.
proof fn lemma_fitted_before(g: GeneratorView, h: GeneratorView)
    requires
        keeps_code(g, h),
        fits(h),
    ensures
        fits(g),
{
}

/// A successful step writes forward jumps only.
pub proof fn lemma_statement_forward(g: GeneratorView, statement: Statement)
    requires
        forward(g),
        g.statement(statement).is_ok(),
        fits(g.statement(statement).unwrap()),
    ensures
        forward(g.statement(statement).unwrap()),
    decreases statement, 0nat,
{
    let after = g.statement(statement).unwrap();
    match statement {
        Statement::Function(f) => {
            let opened = g.open_function();
            let count = f.parameters.parameters@.len();
            crate::codegen::laws::lemma_parameters_keep(opened, f, count);
            let entered = opened.parameters(f, count).unwrap();
            let body = f.body.statements@;
            let done = entered.statements(body, body.len()).unwrap();
            lemma_statements_keep_code(entered, body, body.len());
            assert(fits(done));
            lemma_statements_forward(entered, body, body.len());
            let added = after.fns.last();
            assert forall|i: int| 0 <= i < added.function.code.len() implies (match #[trigger] added.function.code[i] {
                Opcode::Jump(offset) => offset > i,
                Opcode::JumpIfFalse(offset) => offset > i,
                _ => true,
            }) by {
                if i < done.code.len() {
                    assert(added.function.code[i] == done.code[i]);
                }
            }
            assert forall|k: int| 0 <= k < after.fns.len() implies forward_code(
                (#[trigger] after.fns[k]).function.code,
            ) by {
                if k < done.fns.len() {
                    assert(after.fns[k] == done.fns[k]);
                }
            }
            assert(after.code == added.function.code);
        },
        Statement::If(i) => {
            let opened = GeneratorView { nested: true, ..g.emit(Opcode::Nop) };
            let body = i.block.statements@;
            let done = opened.statements(body, body.len()).unwrap();
            assert(forward_code(opened.code)) by {
                assert forall|x: int| 0 <= x < opened.code.len() implies (match #[trigger] opened.code[x] {
                    Opcode::Jump(offset) => offset > x,
                    Opcode::JumpIfFalse(offset) => offset > x,
                    _ => true,
                }) by {
                    if x < g.code.len() {
                        assert(opened.code[x] == g.code[x]);
                    }
                }
            }
            lemma_statements_keep_code(opened, body, body.len());
            lemma_statements_forward(opened, body, body.len());
            assert forall|x: int| 0 <= x < after.code.len() implies (match #[trigger] after.code[x] {
                Opcode::Jump(offset) => offset > x,
                Opcode::JumpIfFalse(offset) => offset > x,
                _ => true,
            }) by {
                if x != g.code.len() {
                    assert(after.code[x] == done.code[x]);
                }
            }
        },
        _ => {
            assert forall|x: int| 0 <= x < after.code.len() implies (match #[trigger] after.code[x] {
                Opcode::Jump(offset) => offset > x,
                Opcode::JumpIfFalse(offset) => offset > x,
                _ => true,
            }) by {
                if x < g.code.len() {
                    assert(after.code[x] == g.code[x]);
                }
            }
        },
    }
}

/// Successful steps inside a function or a block write forward jumps only.
pub proof fn lemma_statements_forward(g: GeneratorView, statements: Seq<Statement>, count: nat)
    requires
        g.nested,
        forward(g),
        g.statements(statements, count).is_ok(),
        fits(g.statements(statements, count).unwrap()),
    ensures
        forward(g.statements(statements, count).unwrap()),
    decreases statements, count,
{
    if count == 0 || count > statements.len() {
    } else {
        let before = g.statements(statements, (count - 1) as nat).unwrap();
        lemma_statements_keep_code(g, statements, (count - 1) as nat);
        lemma_statement_keeps_code(before, statements[count - 1]);
        lemma_fitted_before(before, g.statements(statements, count).unwrap());
        lemma_statements_forward(g, statements, (count - 1) as nat);
        lemma_statement_forward(before, statements[count - 1]);
    }
}

/// The program of a tree jumps forward only.
pub proof fn lemma_program_jumps_forward(statements: Seq<Statement>, count: nat)
    requires
        count <= statements.len(),
        GeneratorView::initial().statements(statements, count).is_ok(),
        fits_after_each(GeneratorView::initial(), statements, count),
    ensures
        forward(GeneratorView::initial().statements(statements, count).unwrap()),
        jumps_forward(GeneratorView::initial().statements(statements, count).unwrap().fns),
    decreases count,
{
    let g = GeneratorView::initial();
    if count > 0 {
        assert(g.statements(statements, (count - 1) as nat) matches Ok(h) ==> fits(h));
        assert(g.statements(statements, count) matches Ok(h) ==> fits(h));
        lemma_program_jumps_forward(statements, (count - 1) as nat);
        lemma_statement_forward(
            g.statements(statements, (count - 1) as nat).unwrap(),
            statements[count - 1],
        );
    }
    let h = g.statements(statements, count).unwrap();
    assert forall|k: int, ip: int|
        0 <= k < h.fns.len() && 0 <= ip < h.fns[k].function.code.len() implies (match #[trigger] h.fns[k].function.code[ip] {
        Opcode::Jump(offset) => offset > ip,
        Opcode::JumpIfFalse(offset) => offset > ip,
        _ => true,
    }) by {
        assert(forward_code(h.fns[k].function.code));
    }
}

/// Whether every call of every function calls a native function or a function that
/// stands in the table, and not behind the calling one.
pub open spec fn calls_settled(fns: Seq<NamedFnView>, natives: Seq<NativeFnView>) -> bool {
    forall|k: int, ip: int|
        0 <= k < fns.len() && 0 <= ip < fns[k].function.code.len() ==> ((
        #[trigger] fns[k].function.code[ip]) matches Opcode::Invoke(name) ==> settled(
            fns,
            natives,
            name@,
            k,
        ))
}

/// Whether `name` is the name of a native function, or of a function that stands in
/// the table and not behind place `k`.
pub open spec fn settled(
    fns: Seq<NamedFnView>,
    natives: Seq<NativeFnView>,
    name: Seq<char>,
    k: int,
) -> bool {
    native_index(natives, name) is Some || (function_index(fns, name) matches Some(j) && j <= k)
}

/// An accepted statement of the top level keeps the calls settled.
pub proof fn lemma_statement_settles(
    s: AnalyserView,
    g: GeneratorView,
    natives: Seq<NativeFnView>,
    old: Statement,
    new: Statement,
)
    requires
        related(s, g, Place::Top, natives),
        calls_settled(g.fns, natives),
        annotated(s, old, new),
        regular(old, Place::Top),
        s.statement(old).errors.len() == 0,
    ensures
        g.statement(new).is_ok(),
        related(s.statement(old), g.statement(new).unwrap(), Place::Top, natives),
        calls_settled(g.statement(new).unwrap().fns, natives),
{
    lemma_statement_generates(s, g, Place::Top, natives, old, new);
    let h = g.statement(new).unwrap();
    match old {
        Statement::Function(f) => {
            let n = new->Function_0;
            let fname = f.identifier.label@;
            let place = Place::Function(fname);
            let count = f.parameters.parameters@.len();
            let body = f.body.statements@;
            let s0 = s.open_function(f);
            let s1 = s0.parameters(f, count);
            let s2 = s1.statements(body, body.len());
            assert(s0.scopes.len() == 2);
            lemma_parameters_keep(s0, f, count);
            lemma_statements_keep(s1, body, body.len());
            assert(s2.close_function(f).errors.len() >= s2.errors.len());
            lemma_open_function_related(s, g, natives, f);
            let g0 = g.open_function();
            lemma_parameters_generate(s0, g0, natives, f, n, fname, count);
            let g1 = g0.parameters(n, count).unwrap();
            crate::codegen::laws::lemma_parameters_keep(g0, n, count);
            lemma_statements_generate(s1, g1, place, natives, body, n.body.statements@, body.len());
            let g2 = g1.statements(n.body.statements@, body.len()).unwrap();
            lemma_statements_keep_code(g1, n.body.statements@, body.len());
            assert(h == g2.close_function(n).unwrap());
            let added = h.fns.last();
            assert(h.fns == g.fns.push(added));
            assert forall|k: int, ip: int|
                0 <= k < h.fns.len() && 0 <= ip < h.fns[k].function.code.len() implies ((
            #[trigger] h.fns[k].function.code[ip]) matches Opcode::Invoke(name) ==> settled(
                h.fns,
                natives,
                name@,
                k,
            )) by {
                if let Opcode::Invoke(name) = h.fns[k].function.code[ip] {
                    lemma_function_push(g.fns, added, name@);
                    lemma_function_index(g.fns, name@);
                    if k < g.fns.len() {
                        assert(h.fns[k] == g.fns[k]);
                        assert(settled(g.fns, natives, name@, k));
                    } else {
                        assert(ip < g2.code.len());
                        assert(g2.code[ip] == Opcode::Invoke(name));
                        assert(s2.scopes[0].is_declared(name@));
                        assert(resolves(name@, g2.fns, natives) || name@ == fname);
                    }
                }
            }
        },
        _ => {
            lemma_top_keeps(s, g, old, new);
        },
    }
}

/// The accepted statements of the top level leave the calls settled.
pub proof fn lemma_statements_settle(
    natives: Seq<NativeFnView>,
    ast: Seq<Statement>,
    checked: Seq<Statement>,
    count: nat,
)
    requires
        annotated_all(AnalyserView::initial(natives), ast, checked),
        regular_all(ast, Place::Top),
        count <= ast.len(),
        AnalyserView::initial(natives).statements(ast, count).errors.len() == 0,
    ensures
        GeneratorView::initial().statements(checked, count).is_ok(),
        related(
            AnalyserView::initial(natives).statements(ast, count),
            GeneratorView::initial().statements(checked, count).unwrap(),
            Place::Top,
            natives,
        ),
        calls_settled(GeneratorView::initial().statements(checked, count).unwrap().fns, natives),
    decreases count,
{
    let s = AnalyserView::initial(natives);
    let g = GeneratorView::initial();
    if count == 0 {
        assert(only_functions(s.scopes[0])) by {
            assert forall|i: int| 0 <= i < s.scopes[0].store.len() implies (#[trigger] s.scopes[0].store[i]).object is FnPrototype by {}
        }
        assert forall|x: Seq<char>| #[trigger] s.scopes[0].is_declared(x) implies resolves(
            x,
            g.fns,
            natives,
        ) by {
            lemma_native_lookup(natives, x);
        }
        assert(related(s, g, Place::Top, natives));
    } else {
        let before = s.statements(ast, (count - 1) as nat);
        lemma_statements_keep(s, ast, (count - 1) as nat);
        lemma_statement_keeps(before, ast[count - 1]);
        lemma_statements_settle(natives, ast, checked, (count - 1) as nat);
        let h = g.statements(checked, (count - 1) as nat).unwrap();
        assert(annotated(before, ast[count - 1], checked[count - 1]));
        lemma_statement_settles(before, h, natives, ast[count - 1], checked[count - 1]);
    }
}

/// The program of an accepted tree jumps forward only and calls no function that is
/// declared later.
///
/// Let the checker, starting over the native functions `natives`, accept the tree
/// `ast`, in which every function is declared at the top level and every variable
/// inside a function, let `checked` be the tree with the annotations of that check,
/// and let the machine be able to index what the generator holds after each statement
/// of the top level. Then in the program that the generator produces from `checked`
/// every jump goes forward, and every call that is no call of a native function is a
/// call of the calling function itself or of a function that stands before it.
pub proof fn lemma_accepted_program_is_layered(
    natives: Seq<NativeFnView>,
    ast: Seq<Statement>,
    checked: Seq<Statement>,
)
    requires
        annotated_all(AnalyserView::initial(natives), ast, checked),
        AnalyserView::initial(natives).program(ast).errors.len() == 0,
        regular_all(ast, Place::Top),
        fits_after_each(GeneratorView::initial(), checked, checked.len()),
    ensures
        GeneratorView::initial().statements(checked, checked.len()).is_ok(),
        jumps_forward(GeneratorView::initial().statements(checked, checked.len()).unwrap().fns),
        calls_no_later(
            GeneratorView::initial().statements(checked, checked.len()).unwrap().fns,
            natives,
        ),
{
    lemma_statements_settle(natives, ast, checked, ast.len());
    lemma_program_jumps_forward(checked, checked.len());
    let fns = GeneratorView::initial().statements(checked, checked.len()).unwrap().fns;
    assert forall|k: int, ip: int|
        0 <= k < fns.len() && 0 <= ip < fns[k].function.code.len() implies (crate::engine::termination::callee(
        fns,
        natives,
        #[trigger] fns[k].function.code[ip],
    ) matches Some(j) ==> j <= k) by {
        if let Opcode::Invoke(name) = fns[k].function.code[ip] {
            assert(settled(fns, natives, name@, k));
        }
    }
}

/// A soundly checked program in which no function calls itself comes to an end.
///
/// Let the checker, starting over the native functions `natives`, accept the tree
/// `ast` and check it soundly, let `checked` be the tree with the annotations of that
/// check, let the machine be able to index what the generator holds after each
/// statement of the top level and the program that it produces, and let no function of
/// that program call a function of its own name. Then the engine, started on the
/// program in the frame of `main`, has a bound on the steps it can make: a run of more
/// steps than the bound does not end because the steps have run out, and it does not
/// end with a fault. It ends with the program ended and no caller left, or with the
/// call of a native function.
pub proof fn lemma_sound_program_without_recursion_halts(
    natives: Seq<NativeFnView>,
    ast: Seq<Statement>,
    checked: Seq<Statement>,
    fuel: nat,
) -> (typing: ProgramTyping)
    requires
        annotated_all(AnalyserView::initial(natives), ast, checked),
        AnalyserView::initial(natives).program(ast).errors.len() == 0,
        soundly_checked(natives, ast),
        fits_after_each(GeneratorView::initial(), checked, checked.len()),
        GeneratorView::initial().statements(checked, checked.len()) matches Ok(g) ==> {
            &&& indexable(g.fns)
            &&& calls_no_self(g.fns)
            &&& function_index(g.fns, "main"@) matches Some(m) ==> fuel > bound(
                EngineView::started(g.pool, g.fns, natives, m),
            )
        },
    ensures
        GeneratorView::initial().statements(checked, checked.len()).is_ok(),
        ({
            let g = GeneratorView::initial().statements(checked, checked.len()).unwrap();
            let m = function_index(g.fns, "main"@).unwrap();
            let e = EngineView::started(g.pool, g.fns, natives, m);
            &&& function_index(g.fns, "main"@).is_some()
            &&& !(e.run(fuel).signal is Continue)
            &&& ended_well(typing, e.run(fuel))
        }),
{
    let typing = lemma_sound_program_does_not_go_wrong(natives, ast, checked, fuel);
    lemma_accepted_program_is_layered(natives, ast, checked);
    let g = GeneratorView::initial().statements(checked, checked.len()).unwrap();
    let m = function_index(g.fns, "main"@).unwrap();
    let e = EngineView::started(g.pool, g.fns, natives, m);
    lemma_calls_back(g.fns, natives);
    lemma_run_comes_to_an_end(typing, e, fuel);
    typing
}

} // verus!
