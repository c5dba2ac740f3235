//! What holds of the checker whatever the tree.

use vstd::prelude::*;
use crate::analysis::model::{annotated, annotated_all, annotated_expression, AnalyserView};
use crate::ast::{Statement, StatementExpression, StatementFunction};

verus! {

broadcast use vstd::std_specs::vec::group_vec_axioms;

/// The parameters of a declaration are checked by their names and types and by the
/// name of the function alone.
proof fn lemma_parameters_same(
    s: AnalyserView,
    f: StatementFunction,
    g: StatementFunction,
    count: nat,
)
    requires
        g.identifier == f.identifier,
        g.parameters == f.parameters,
    ensures
        s.parameters(g, count) == s.parameters(f, count),
    decreases count,
{
    if count == 0 || count > f.parameters.parameters@.len() {
    } else {
        lemma_parameters_same(s, f, g, (count - 1) as nat);
    }
}

/// Checking an annotated expression again gives the same state and leaves its
/// annotation as it is.
proof fn lemma_recheck_expression(
    s: AnalyserView,
    old: StatementExpression,
    new: StatementExpression,
)
    requires
        annotated_expression(s, old, new),
    ensures
        s.expression(new) == s.expression(old),
        annotated_expression(s, new, new),
{
}

/// Checking an annotated statement again gives the same state and leaves its
/// annotations as they are.
proof fn lemma_recheck_statement(s: AnalyserView, old: Statement, new: Statement)
    requires
        annotated(s, old, new),
    ensures
        s.statement(new) == s.statement(old),
        annotated(s, new, new),
    decreases old, 0nat,
{
    match old {
        Statement::Function(f) => {
            let g = new->Function_0;
            let count = f.parameters.parameters@.len();
            lemma_parameters_same(s.open_function(f), f, g, count);
            let entered = s.open_function(f).parameters(f, count);
            assert(s.open_function(g) == s.open_function(f));
            assert(s.open_function(g).parameters(g, count) == entered);
            lemma_recheck_statements(
                entered,
                f.body.statements@,
                g.body.statements@,
                f.body.statements@.len(),
            );
        },
        Statement::Expression(expression) => {
            lemma_recheck_expression(s, expression, new->Expression_0);
        },
        Statement::If(i) => {
            let j = new->If_0;
            assert(s.open_if(j) == s.open_if(i));
            if s.condition_ok() {
                lemma_recheck_statements(
                    s.open_if(i),
                    i.block.statements@,
                    j.block.statements@,
                    i.block.statements@.len(),
                );
            } else {
                assert(j.block.statements@ == i.block.statements@);
            }
        },
        Statement::Variable(_) => {},
        Statement::Assignment(_) => {},
    }
}

/// Checking the first `count` of a sequence of annotated statements again gives the
/// same state, and the whole sequence keeps its annotations.
proof fn lemma_recheck_statements(
    s: AnalyserView,
    old: Seq<Statement>,
    new: Seq<Statement>,
    count: nat,
)
    requires
        annotated_all(s, old, new),
        count <= old.len(),
    ensures
        s.statements(new, count) == s.statements(old, count),
        count == old.len() ==> annotated_all(s, new, new),
    decreases old, 1nat, count,
{
    if count > 0 {
        lemma_recheck_statements(s, old, new, (count - 1) as nat);
        let before = s.statements(old, (count - 1) as nat);
        assert(annotated(before, old[count - 1], new[count - 1]));
        lemma_recheck_statement(before, old[count - 1], new[count - 1]);
    }
    if count == old.len() {
        assert forall|i: int| 0 <= i < new.len() implies annotated(
            s.statements(new, i as nat),
            #[trigger] new[i],
            new[i],
        ) by {
            lemma_recheck_statements(s, old, new, i as nat);
            assert(annotated(s.statements(old, i as nat), old[i], new[i]));
            lemma_recheck_statement(s.statements(old, i as nat), old[i], new[i]);
        }
    }
}

/// Checking is idempotent. Let `checked` be `ast` with the annotations that a check
/// from state `s` leaves in it. A second check of `checked` from `s` ends in the same
/// state as the check of `ast`, so it reports the same diagnostics and no new one, and
/// it leaves every annotation of `checked` as it is.
pub proof fn lemma_recheck_is_idempotent(
    s: AnalyserView,
    ast: Seq<Statement>,
    checked: Seq<Statement>,
)
    requires
        annotated_all(s, ast, checked),
    ensures
        s.program(checked) == s.program(ast),
        annotated_all(s, checked, checked),
{
    lemma_recheck_statements(s, ast, checked, ast.len());
}

} // verus!
