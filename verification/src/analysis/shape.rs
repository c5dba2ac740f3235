//! What every step of the checker keeps: diagnostics are never taken back, and the
//! scopes that were entered are left again.

use vstd::prelude::*;
use crate::analysis::model::AnalyserView;
use crate::ast::{Statement, StatementExpression, StatementFunction};

verus! {

broadcast use vstd::std_specs::vec::group_vec_axioms;

/// What a step of the checker keeps of the state it starts in.
pub open spec fn keeps(old: AnalyserView, new: AnalyserView) -> bool {
    &&& new.errors.len() >= old.errors.len()
    &&& new.scopes.len() == old.scopes.len()
}

pub proof fn lemma_expression_keeps(s: AnalyserView, expression: StatementExpression)
    ensures
        keeps(s, s.expression(expression)),
{
}

pub proof fn lemma_parameters_keep(s: AnalyserView, f: StatementFunction, count: nat)
    requires
        s.wf(),
    ensures
        keeps(s, s.parameters(f, count)),
    decreases count,
{
    if count == 0 || count > f.parameters.parameters@.len() {
    } else {
        lemma_parameters_keep(s, f, (count - 1) as nat);
    }
}

/// No statement takes a diagnostic back, and every statement ends in the scope in
/// which it started.
pub proof fn lemma_statement_keeps(s: AnalyserView, statement: Statement)
    requires
        s.wf(),
    ensures
        keeps(s, s.statement(statement)),
    decreases statement, 0nat,
{
    match statement {
        Statement::Function(f) => {
            let opened = s.open_function(f);
            let count = f.parameters.parameters@.len();
            lemma_parameters_keep(opened, f, count);
            let entered = opened.parameters(f, count);
            lemma_statements_keep(entered, f.body.statements@, f.body.statements@.len());
        },
        Statement::Expression(expression) => {
            lemma_expression_keeps(s, expression);
        },
        Statement::If(i) => {
            if s.condition_ok() {
                lemma_statements_keep(
                    s.open_if(i),
                    i.block.statements@,
                    i.block.statements@.len(),
                );
            }
        },
        Statement::Variable(_) => {},
        Statement::Assignment(_) => {},
    }
}

/// No sequence of statements takes a diagnostic back, and every sequence ends in the
/// scope in which it started.
pub proof fn lemma_statements_keep(s: AnalyserView, statements: Seq<Statement>, count: nat)
    requires
        s.wf(),
    ensures
        keeps(s, s.statements(statements, count)),
    decreases statements, count,
{
    if count == 0 || count > statements.len() {
    } else {
        lemma_statements_keep(s, statements, (count - 1) as nat);
        lemma_statement_keeps(s.statements(statements, (count - 1) as nat), statements[count - 1]);
    }
}

} // verus!
