//! What a statement inside a function leaves as it is: in the code generator, the
//! instructions written before it, the pool entries and the locals; in the checker,
//! the global scope and the bindings of the function's scope.

use vstd::prelude::*;
use crate::analysis::model::AnalyserView;

use crate::ast::Statement;
use crate::bytecode::Opcode;
use crate::codegen::model::GeneratorView;
use crate::compiler::relation::{regular, regular_all, Place};
use crate::compiler::typed::extends;

verus! {

broadcast use vstd::std_specs::vec::group_vec_axioms;

/// What a statement inside a function or a block leaves as it is in the generator.
pub open spec fn keeps_code(old: GeneratorView, new: GeneratorView) -> bool {
    &&& new.nested
    &&& new.fns == old.fns
    &&& new.code.len() >= old.code.len()
    &&& forall|i: int| 0 <= i < old.code.len() ==> #[trigger] new.code[i] == old.code[i]
    &&& extends(old.pool, new.pool)
    &&& extends(old.locals, new.locals)
}

/// `extends` holds of a sequence and itself.
pub proof fn lemma_extends_self<T>(a: Seq<T>)
    ensures
        extends(a, a),
{
    assert(a.subrange(0, a.len() as int) =~= a);
}

/// `extends` holds of a sequence and the sequence with one more element.
pub proof fn lemma_extends_push<T>(a: Seq<T>, x: T)
    ensures
        extends(a, a.push(x)),
{
    assert(a.push(x).subrange(0, a.len() as int) =~= a);
}

/// `extends` is transitive.
pub proof fn lemma_extends_trans<T>(a: Seq<T>, b: Seq<T>, c: Seq<T>)
    requires
        extends(a, b),
        extends(b, c),
    ensures
        extends(a, c),
{
    assert(c.subrange(0, a.len() as int) =~= c.subrange(0, b.len() as int).subrange(
        0,
        a.len() as int,
    ));
}

/// The elements of a sequence are elements of every sequence that extends it.
pub proof fn lemma_extends_index<T>(a: Seq<T>, b: Seq<T>, i: int)
    requires
        extends(a, b),
        0 <= i < a.len(),
    ensures
        b[i] == a[i],
{
    assert(b.subrange(0, a.len() as int)[i] == b[i]);
}

/// `keeps_code` is transitive.
pub proof fn lemma_keeps_code_trans(a: GeneratorView, b: GeneratorView, c: GeneratorView)
    requires
        keeps_code(a, b),
        keeps_code(b, c),
    ensures
        keeps_code(a, c),
{
    lemma_extends_trans(a.pool, b.pool, c.pool);
    lemma_extends_trans(a.locals, b.locals, c.locals);
    assert forall|i: int| 0 <= i < a.code.len() implies #[trigger] c.code[i] == a.code[i] by {
        assert(b.code[i] == a.code[i]);
        assert(c.code[i] == b.code[i]);
    }
}

/// A statement inside a function or a block leaves the instructions before it, the
/// pool entries, the locals and the table of functions as they are.
pub proof fn lemma_statement_keeps_code(g: GeneratorView, statement: Statement)
    requires
        g.nested,
        g.statement(statement).is_ok(),
    ensures
        keeps_code(g, g.statement(statement).unwrap()),
    decreases statement, 0nat,
{
    let after = g.statement(statement).unwrap();
    lemma_extends_self(g.pool);
    lemma_extends_self(g.locals);
    match statement {
        Statement::Function(_) => {},
        Statement::Expression(expression) => {
            if after.pool != g.pool {
                lemma_extends_push(g.pool, after.pool.last());
                assert(after.pool =~= g.pool.push(after.pool.last()));
            }
        },
        Statement::If(i) => {
            let opened = GeneratorView { nested: true, ..g.emit(Opcode::Nop) };
            lemma_statements_keep_code(opened, i.block.statements@, i.block.statements@.len());
            let done = opened.statements(i.block.statements@, i.block.statements@.len()).unwrap();
            assert forall|k: int| 0 <= k < g.code.len() implies #[trigger] after.code[k]
                == g.code[k] by {
                assert(done.code[k] == opened.code[k]);
            }
        },
        Statement::Variable(variable) => {
            lemma_extends_push(g.locals, variable.identifier.label@);
        },
        Statement::Assignment(_) => {},
    }
}

/// Statements inside a function or a block leave the instructions before them, the
/// pool entries, the locals and the table of functions as they are.
pub proof fn lemma_statements_keep_code(g: GeneratorView, statements: Seq<Statement>, count: nat)
    requires
        g.nested,
        g.statements(statements, count).is_ok(),
    ensures
        keeps_code(g, g.statements(statements, count).unwrap()),
    decreases statements, count,
{
    if count == 0 || count > statements.len() {
        lemma_extends_self(g.pool);
        lemma_extends_self(g.locals);
    } else {
        let before = g.statements(statements, (count - 1) as nat).unwrap();
        lemma_statements_keep_code(g, statements, (count - 1) as nat);
        lemma_statement_keeps_code(before, statements[count - 1]);
        lemma_keeps_code_trans(g, before, g.statements(statements, count).unwrap());
    }
}

/// What a statement inside a function leaves as it is in the checker.
pub open spec fn keeps_scopes(old: AnalyserView, new: AnalyserView) -> bool {
    &&& new.scopes.len() == 2
    &&& new.scopes[0] == old.scopes[0]
    &&& new.scopes[1].type_ == old.scopes[1].type_
    &&& new.scopes[1].expected_type == old.scopes[1].expected_type
    &&& extends(old.scopes[1].store, new.scopes[1].store)
}

/// A statement inside a function leaves the global scope and the bindings of the
/// function's scope as they are.
pub proof fn lemma_statement_keeps_scopes(s: AnalyserView, statement: Statement, name: Seq<char>)
    requires
        s.scopes.len() == 2,
        regular(statement, Place::Function(name)),
    ensures
        keeps_scopes(s, s.statement(statement)),
    decreases statement, 0nat,
{
    lemma_extends_self(s.scopes[1].store);
    match statement {
        Statement::Function(_) => {},
        Statement::Expression(_) => {},
        Statement::If(i) => {
            if s.condition_ok() {
                lemma_statements_keep_scopes(
                    s.open_if(i),
                    i.block.statements@,
                    i.block.statements@.len(),
                    name,
                );
            }
        },
        Statement::Variable(variable) => {
            let after = s.statement(statement);
            if after.scopes != s.scopes {
                lemma_extends_push(s.scopes[1].store, after.scopes[1].store.last());
                assert(after.scopes[1].store =~= s.scopes[1].store.push(
                    after.scopes[1].store.last(),
                ));
            }
        },
        Statement::Assignment(_) => {},
    }
}

/// Statements inside a function leave the global scope and the bindings of the
/// function's scope as they are.
pub proof fn lemma_statements_keep_scopes(
    s: AnalyserView,
    statements: Seq<Statement>,
    count: nat,
    name: Seq<char>,
)
    requires
        s.scopes.len() == 2,
        regular_all(statements, Place::Function(name)),
    ensures
        keeps_scopes(s, s.statements(statements, count)),
    decreases statements, count,
{
    if count == 0 || count > statements.len() {
        lemma_extends_self(s.scopes[1].store);
    } else {
        let before = s.statements(statements, (count - 1) as nat);
        lemma_statements_keep_scopes(s, statements, (count - 1) as nat, name);
        lemma_statement_keeps_scopes(before, statements[count - 1], name);
        lemma_extends_trans(
            s.scopes[1].store,
            before.scopes[1].store,
            s.statements(statements, count).scopes[1].store,
        );
    }
}

/// A statement inside a block that is in no function leaves the scopes as they are.
pub proof fn lemma_block_keeps_scopes(s: AnalyserView, statement: Statement)
    requires
        regular(statement, Place::Block),
    ensures
        s.statement(statement).scopes == s.scopes,
    decreases statement, 0nat,
{
    match statement {
        Statement::If(i) => {
            if s.condition_ok() {
                lemma_blocks_keep_scopes(
                    s.open_if(i),
                    i.block.statements@,
                    i.block.statements@.len(),
                );
            }
        },
        _ => {},
    }
}

/// Statements inside a block that is in no function leave the scopes as they are.
pub proof fn lemma_blocks_keep_scopes(s: AnalyserView, statements: Seq<Statement>, count: nat)
    requires
        regular_all(statements, Place::Block),
    ensures
        s.statements(statements, count).scopes == s.scopes,
    decreases statements, count,
{
    if count == 0 || count > statements.len() {
    } else {
        lemma_blocks_keep_scopes(s, statements, (count - 1) as nat);
        lemma_block_keeps_scopes(s.statements(statements, (count - 1) as nat), statements[count - 1]);
    }
}

/// A statement of the top level that declares no function leaves the scopes and the
/// table of functions as they are, and the pool entries.
pub proof fn lemma_top_keeps(s: AnalyserView, g: GeneratorView, old: Statement, new: Statement)
    requires
        regular(old, Place::Top),
        !(old is Function),
        !(new is Function),
        g.statement(new).is_ok(),
    ensures
        s.statement(old).scopes == s.scopes,
        g.statement(new).unwrap().fns == g.fns,
        extends(g.pool, g.statement(new).unwrap().pool),
{
    let after = g.statement(new).unwrap();
    lemma_extends_self(g.pool);
    match old {
        Statement::If(i) => {
            if s.condition_ok() {
                lemma_blocks_keep_scopes(
                    s.open_if(i),
                    i.block.statements@,
                    i.block.statements@.len(),
                );
            }
        },
        _ => {},
    }
    match new {
        Statement::If(j) => {
            let opened = GeneratorView { nested: true, ..g.emit(Opcode::Nop) };
            lemma_statements_keep_code(opened, j.block.statements@, j.block.statements@.len());
        },
        Statement::Expression(_) => {
            if after.pool != g.pool {
                lemma_extends_push(g.pool, after.pool.last());
                assert(after.pool =~= g.pool.push(after.pool.last()));
            }
        },
        _ => {},
    }
}

} // verus!
