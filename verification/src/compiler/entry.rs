//! The program of an accepted tree has its entry point: a function `main` without
//! parameters that ends without a value.

use vstd::prelude::*;
use crate::analysis::model::{annotated, annotated_all, prototype_of, AnalyserView};
use crate::analysis::scope::{lookup_in, lookup_scopes, MetaObjectView, ScopeView, SymbolView};
use crate::analysis::shape::{lemma_parameters_keep, lemma_statement_keeps, lemma_statements_keep};
use crate::ast::{Statement, StatementFunction};
use crate::bytecode::Opcode;
use crate::codegen::model::{return_opcode, GeneratorView};
use crate::compiler::frames::{
    lemma_statements_keep_code,
    lemma_statements_keep_scopes,
    lemma_top_keeps,
};
use crate::compiler::laws::{
    lemma_open_function_related,
    lemma_parameters_generate,
    lemma_statement_generates,
    lemma_statements_generate,
};
use crate::compiler::relation::{
    lemma_function_push,
    lemma_lookup_push,
    lemma_native_lookup,
    only_functions,
    regular,
    regular_all,
    related,
    resolves,
    Place,
};
use crate::compiler::soundness::{lemma_natives_bound, lemma_parameters_scopes};
use crate::compiler::typed::{is_current, natives_bound};

use crate::program::{function_index, lemma_function_index, NamedFnView, PrototypeView};
use crate::stdlib::{native_index, NativeFnView};

verus! {

broadcast use vstd::std_specs::vec::group_vec_axioms;

/// Whether the function called `name` is in the table with the arity of the signature
/// `p` and with the last instruction of a function that returns what `p` returns.
pub open spec fn signed(fns: Seq<NamedFnView>, name: Seq<char>, p: PrototypeView) -> bool {
    match function_index(fns, name) {
        Some(k) => fns[k].function.arity == p.arity && fns[k].function.code.len() > 0
            && fns[k].function.code.last() == return_opcode(p.return_type),
        None => false,
    }
}

/// Whether every function that the global scope binds and that is no native function
/// is in the table under its signature, the function `current` being the one that is
/// generated.
pub open spec fn signatures_kept(
    global: ScopeView,
    natives: Seq<NativeFnView>,
    fns: Seq<NamedFnView>,
    current: Option<StatementFunction>,
) -> bool {
    forall|name: Seq<char>|
        match #[trigger] lookup_in(global.store, name) {
            Some(MetaObjectView::FnPrototype(p)) => native_index(natives, name) is None
                ==> signed(fns, name, p) || is_current(current, name, p),
            _ => true,
        }
}

/// An accepted statement of the top level keeps every function of the global scope in
/// the table under its signature.
pub proof fn lemma_statement_signs(
    s: AnalyserView,
    g: GeneratorView,
    natives: Seq<NativeFnView>,
    old: Statement,
    new: Statement,
)
    requires
        related(s, g, Place::Top, natives),
        natives_bound(s.scopes[0], natives),
        signatures_kept(s.scopes[0], natives, g.fns, None),
        annotated(s, old, new),
        regular(old, Place::Top),
        s.statement(old).errors.len() == 0,
    ensures
        g.statement(new).is_ok(),
        related(s.statement(old), g.statement(new).unwrap(), Place::Top, natives),
        natives_bound(s.statement(old).scopes[0], natives),
        signatures_kept(s.statement(old).scopes[0], natives, g.statement(new).unwrap().fns, None),
{
    lemma_statement_generates(s, g, Place::Top, natives, old, new);
    let t = s.statement(old);
    let h = g.statement(new).unwrap();
    match old {
        Statement::Function(f) => {
            let n = new->Function_0;
            let fname = f.identifier.label@;
            let place = Place::Function(fname);
            let count = f.parameters.parameters@.len();
            let body = f.body.statements@;
            let s0 = s.open_function(f);
            let s1 = s0.parameters(f, count);
            let s2 = s1.statements(body, body.len());
            assert(s0.scopes.len() == 2);
            lemma_parameters_keep(s0, f, count);
            lemma_statements_keep(s1, body, body.len());
            assert(s2.close_function(f).errors.len() >= s2.errors.len());
            lemma_open_function_related(s, g, natives, f);
            let g0 = g.open_function();
            lemma_parameters_generate(s0, g0, natives, f, n, fname, count);
            let g1 = g0.parameters(n, count).unwrap();
            crate::codegen::laws::lemma_parameters_keep(g0, n, count);
            lemma_statements_generate(s1, g1, place, natives, body, n.body.statements@, body.len());
            let g2 = g1.statements(n.body.statements@, body.len()).unwrap();
            lemma_parameters_scopes(s0, f, count);
            lemma_statements_keep_scopes(s1, body, body.len(), fname);
            lemma_statements_keep_code(g1, n.body.statements@, body.len());
            let global = s.scopes[0];
            let object = MetaObjectView::FnPrototype(prototype_of(f));
            let symbol = SymbolView { name: fname, object };
            assert(s.scopes.last() == global);
            assert(!global.is_declared(fname));
            assert(s0.scopes[0] == global.declare(fname, object));
            assert(t.scopes =~= seq![s2.scopes[0]]);
            assert(t.scopes[0] == global.declare(fname, object));
            assert(h == g2.close_function(n).unwrap());
            let added = h.fns.last();
            assert(h.fns == g.fns.push(added));
            assert(f.parameters.parameters.len() == count);
            assert forall|name: Seq<char>|
                (#[trigger] native_index(natives, name)) is Some implies lookup_in(
                t.scopes[0].store,
                name,
            ) == Some(
                MetaObjectView::FnPrototype(natives[native_index(natives, name)->Some_0].prototype),
            ) by {
                lemma_lookup_push(global.store, symbol, name);
            }
            assert forall|name: Seq<char>|
                match #[trigger] lookup_in(t.scopes[0].store, name) {
                    Some(MetaObjectView::FnPrototype(p)) => native_index(natives, name) is None
                        ==> signed(h.fns, name, p) || is_current(None, name, p),
                    _ => true,
                } by {
                lemma_lookup_push(global.store, symbol, name);
                lemma_function_push(g.fns, added, name);
                lemma_function_index(g.fns, name);
            }
        },
        _ => {
            lemma_top_keeps(s, g, old, new);
        },
    }
}

/// The accepted statements of the top level keep every function of the global scope
/// in the table under its signature.
pub proof fn lemma_statements_sign(
    natives: Seq<NativeFnView>,
    ast: Seq<Statement>,
    checked: Seq<Statement>,
    count: nat,
)
    requires
        annotated_all(AnalyserView::initial(natives), ast, checked),
        regular_all(ast, Place::Top),
        count <= ast.len(),
        AnalyserView::initial(natives).statements(ast, count).errors.len() == 0,
    ensures
        GeneratorView::initial().statements(checked, count).is_ok(),
        related(
            AnalyserView::initial(natives).statements(ast, count),
            GeneratorView::initial().statements(checked, count).unwrap(),
            Place::Top,
            natives,
        ),
        natives_bound(AnalyserView::initial(natives).statements(ast, count).scopes[0], natives),
        signatures_kept(
            AnalyserView::initial(natives).statements(ast, count).scopes[0],
            natives,
            GeneratorView::initial().statements(checked, count).unwrap().fns,
            None,
        ),
    decreases count,
{
    let s = AnalyserView::initial(natives);
    let g = GeneratorView::initial();
    if count == 0 {
        assert(only_functions(s.scopes[0])) by {
            assert forall|i: int| 0 <= i < s.scopes[0].store.len() implies (#[trigger] s.scopes[0].store[i]).object is FnPrototype by {}
        }
        assert forall|x: Seq<char>| #[trigger] s.scopes[0].is_declared(x) implies resolves(
            x,
            g.fns,
            natives,
        ) by {
            lemma_native_lookup(natives, x);
        }
        assert(related(s, g, Place::Top, natives));
        assert forall|name: Seq<char>|
            (#[trigger] native_index(natives, name)) is Some implies lookup_in(
            s.scopes[0].store,
            name,
        ) == Some(
            MetaObjectView::FnPrototype(natives[native_index(natives, name)->Some_0].prototype),
        ) by {
            lemma_natives_bound(natives, name);
        }
        assert forall|name: Seq<char>|
            match #[trigger] lookup_in(s.scopes[0].store, name) {
                Some(MetaObjectView::FnPrototype(p)) => native_index(natives, name) is None
                    ==> signed(g.fns, name, p) || is_current(None, name, p),
                _ => true,
            } by {
            lemma_native_lookup(natives, name);
        }
    } else {
        let before = s.statements(ast, (count - 1) as nat);
        lemma_statements_keep(s, ast, (count - 1) as nat);
        lemma_statement_keeps(before, ast[count - 1]);
        lemma_statements_sign(natives, ast, checked, (count - 1) as nat);
        let h = g.statements(checked, (count - 1) as nat).unwrap();
        assert(annotated(before, ast[count - 1], checked[count - 1]));
        lemma_statement_signs(before, h, natives, ast[count - 1], checked[count - 1]);
    }
}

/// The program of an accepted tree has its entry point.
///
/// Let the checker, starting over native functions `natives` of which none is called
/// `main`, accept the tree `ast`, in which every function is declared at the top level
/// and every variable inside a function, and let `checked` be the tree with the
/// annotations of that check. Then the program that the code generator produces from
/// `checked` has a function `main` without parameters whose last instruction is a
/// `Return`.
pub proof fn lemma_accepted_program_has_main(
    natives: Seq<NativeFnView>,
    ast: Seq<Statement>,
    checked: Seq<Statement>,
)
    requires
        annotated_all(AnalyserView::initial(natives), ast, checked),
        AnalyserView::initial(natives).program(ast).errors.len() == 0,
        regular_all(ast, Place::Top),
        native_index(natives, "main"@) is None,
    ensures
        GeneratorView::initial().statements(checked, checked.len()).is_ok(),
        has_main(GeneratorView::initial().statements(checked, checked.len()).unwrap().fns),
{
    reveal_with_fuel(lookup_scopes, 2);
    lemma_statements_sign(natives, ast, checked, ast.len());
    let t = AnalyserView::initial(natives).statements(ast, ast.len());
    let g = GeneratorView::initial().statements(checked, checked.len()).unwrap();
    assert(t.entry_point().errors.len() == 0);
    assert(t.scopes.last() == t.scopes[0]);
    assert(t.scopes.drop_last().len() == 0);
    let p = lookup_scopes(t.scopes, "main"@)->Some_0->FnPrototype_0;
    assert(lookup_in(t.scopes[0].store, "main"@) == Some(MetaObjectView::FnPrototype(p)));
    assert(signed(g.fns, "main"@, p));
    lemma_function_index(g.fns, "main"@);
}

/// Whether the table has a function `main` without parameters whose last instruction
/// is a `Return`.
pub open spec fn has_main(fns: Seq<NamedFnView>) -> bool {
    function_index(fns, "main"@) matches Some(m) && fns[m].function.arity == 0
        && fns[m].function.code.len() > 0 && fns[m].function.code.last() == Opcode::Return
}

} // verus!
