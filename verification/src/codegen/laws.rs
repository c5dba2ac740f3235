//! What holds of the programs that the code generator produces.

use vstd::prelude::*;
use crate::ast::{Statement, StatementFunction};
use crate::bytecode::Opcode;
use crate::codegen::model::GeneratorView;
use crate::program::{lemma_function_index, unique_names};
use crate::program::DefinedFnView;

verus! {

broadcast use vstd::std_specs::vec::group_vec_axioms;

/// Whether an instruction stays inside what it indexes: a pool of `pool` entries, and
/// code in which a jump may go to any offset up to `limit`.
pub open spec fn in_range(op: Opcode, limit: int, pool: int) -> bool {
    match op {
        Opcode::Ldc(index) => index < pool,
        Opcode::Jump(offset) => offset <= limit,
        Opcode::JumpIfFalse(offset) => offset <= limit,
        _ => true,
    }
}

/// Whether every constant that a function loads is in the pool and every jump of it
/// goes to one of its instructions.
pub open spec fn function_in_range(f: DefinedFnView, pool: int) -> bool {
    forall|j: int| 0 <= j < f.code.len() ==> in_range(#[trigger] f.code[j], f.code.len() - 1, pool)
}

/// Whether the functions of the table and the instructions generated so far stay
/// inside what they index. A jump of the unfinished code may go to its end.
pub open spec fn ranges_ok(g: GeneratorView) -> bool {
    &&& forall|j: int|
        0 <= j < g.code.len() ==> in_range(
            #[trigger] g.code[j],
            g.code.len() as int,
            g.pool.len() as int,
        )
    &&& forall|i: int|
        0 <= i < g.fns.len() ==> function_in_range(
            (#[trigger] g.fns[i]).function,
            g.pool.len() as int,
        )
}

/// What every successful step keeps: the pool and the table of functions only grow,
/// and inside a function body or a block so does the instruction stream.
pub open spec fn grows(old: GeneratorView, new: GeneratorView) -> bool {
    &&& new.pool.len() >= old.pool.len()
    &&& new.fns.len() >= old.fns.len()
    &&& old.nested ==> new.nested && new.code.len() >= old.code.len()
}

pub proof fn lemma_parameters_keep(g: GeneratorView, f: StatementFunction, count: nat)
    requires
        g.parameters(f, count).is_ok(),
    ensures
        g.parameters(f, count).unwrap().code == g.code,
        g.parameters(f, count).unwrap().pool == g.pool,
        g.parameters(f, count).unwrap().fns == g.fns,
        g.parameters(f, count).unwrap().nested == g.nested,
    decreases count,
{
    if count == 0 || count > f.parameters.parameters@.len() {
    } else {
        lemma_parameters_keep(g, f, (count - 1) as nat);
    }
}

/// A successful step keeps all indices and jumps inside what they index.
pub proof fn lemma_statement_in_range(g: GeneratorView, statement: Statement)
    requires
        ranges_ok(g),
        g.statement(statement).is_ok(),
    ensures
        ranges_ok(g.statement(statement).unwrap()),
        grows(g, g.statement(statement).unwrap()),
    decreases statement, 0nat,
{
    let after = g.statement(statement).unwrap();
    match statement {
        Statement::Function(f) => {
            let opened = g.open_function();
            let count = f.parameters.parameters@.len();
            lemma_parameters_keep(opened, f, count);
            let entered = opened.parameters(f, count).unwrap();
            assert(ranges_ok(entered));
            lemma_statements_in_range(entered, f.body.statements@, f.body.statements@.len());
            let done = entered.statements(f.body.statements@, f.body.statements@.len()).unwrap();
            let last = after.fns.last().function;
            assert forall|j: int| 0 <= j < last.code.len() implies in_range(
                #[trigger] last.code[j],
                last.code.len() - 1,
                after.pool.len() as int,
            ) by {
                if j < done.code.len() {
                    assert(last.code[j] == done.code[j]);
                }
            }
            assert forall|i: int| 0 <= i < after.fns.len() implies function_in_range(
                (#[trigger] after.fns[i]).function,
                after.pool.len() as int,
            ) by {
                if i < done.fns.len() {
                    assert(after.fns[i] == done.fns[i]);
                }
            }
            assert forall|j: int| 0 <= j < after.code.len() implies in_range(
                #[trigger] after.code[j],
                after.code.len() as int,
                after.pool.len() as int,
            ) by {
                assert(after.code[j] == last.code[j]);
            }
        },
        Statement::Expression(expression) => {
            assert forall|j: int| 0 <= j < after.code.len() implies in_range(
                #[trigger] after.code[j],
                after.code.len() as int,
                after.pool.len() as int,
            ) by {
                if j < g.code.len() {
                    assert(after.code[j] == g.code[j]);
                }
            }
            assert forall|i: int| 0 <= i < after.fns.len() implies function_in_range(
                (#[trigger] after.fns[i]).function,
                after.pool.len() as int,
            ) by {
                assert(after.fns[i] == g.fns[i]);
                lemma_function_pool_grows(g.fns[i].function, g.pool.len() as int, after.pool.len() as int);
            }
        },
        Statement::If(i) => {
            let opened = GeneratorView { nested: true, ..g.emit(Opcode::Nop) };
            assert forall|j: int| 0 <= j < opened.code.len() implies in_range(
                #[trigger] opened.code[j],
                opened.code.len() as int,
                opened.pool.len() as int,
            ) by {
                if j < g.code.len() {
                    assert(opened.code[j] == g.code[j]);
                }
            }
            lemma_statements_in_range(opened, i.block.statements@, i.block.statements@.len());
            let done = opened.statements(i.block.statements@, i.block.statements@.len()).unwrap();
            assert forall|j: int| 0 <= j < after.code.len() implies in_range(
                #[trigger] after.code[j],
                after.code.len() as int,
                after.pool.len() as int,
            ) by {
                if j != g.code.len() {
                    assert(after.code[j] == done.code[j]);
                }
            }
        },
        Statement::Variable(_) => {},
        Statement::Assignment(_) => {
            assert forall|j: int| 0 <= j < after.code.len() implies in_range(
                #[trigger] after.code[j],
                after.code.len() as int,
                after.pool.len() as int,
            ) by {
                if j < g.code.len() {
                    assert(after.code[j] == g.code[j]);
                }
            }
        },
    }
}

/// A function that stays inside a pool stays inside every larger pool.
pub proof fn lemma_function_pool_grows(f: DefinedFnView, pool: int, larger: int)
    requires
        function_in_range(f, pool),
        pool <= larger,
    ensures
        function_in_range(f, larger),
{
    assert forall|j: int| 0 <= j < f.code.len() implies in_range(
        #[trigger] f.code[j],
        f.code.len() - 1,
        larger,
    ) by {
        assert(in_range(f.code[j], f.code.len() - 1, pool));
    }
}

/// Successful steps keep all indices and jumps inside what they index.
pub proof fn lemma_statements_in_range(g: GeneratorView, statements: Seq<Statement>, count: nat)
    requires
        ranges_ok(g),
        g.statements(statements, count).is_ok(),
    ensures
        ranges_ok(g.statements(statements, count).unwrap()),
        grows(g, g.statements(statements, count).unwrap()),
    decreases statements, count,
{
    if count == 0 || count > statements.len() {
    } else {
        lemma_statements_in_range(g, statements, (count - 1) as nat);
        lemma_statement_in_range(
            g.statements(statements, (count - 1) as nat).unwrap(),
            statements[count - 1],
        );
    }
}

/// A successful step gives no two functions of the table the same name.
pub proof fn lemma_statement_names(g: GeneratorView, statement: Statement)
    requires
        unique_names(g.fns),
        g.statement(statement).is_ok(),
    ensures
        unique_names(g.statement(statement).unwrap().fns),
    decreases statement, 0nat,
{
    let after = g.statement(statement).unwrap();
    match statement {
        Statement::Function(f) => {
            let opened = g.open_function();
            let count = f.parameters.parameters@.len();
            lemma_parameters_keep(opened, f, count);
            let entered = opened.parameters(f, count).unwrap();
            lemma_statements_names(entered, f.body.statements@, f.body.statements@.len());
            let done = entered.statements(f.body.statements@, f.body.statements@.len()).unwrap();
            lemma_function_index(done.fns, f.identifier.label@);
            assert(after.fns == done.fns.push(after.fns.last()));
            assert forall|i: int, j: int| 0 <= i < j < after.fns.len() implies (#[trigger] after.fns[i]).name
                != (#[trigger] after.fns[j]).name by {
                assert(after.fns[i] == done.fns[i]);
                if j < done.fns.len() {
                    assert(after.fns[j] == done.fns[j]);
                }
            }
        },
        Statement::Expression(_) => {},
        Statement::If(i) => {
            let opened = GeneratorView { nested: true, ..g.emit(Opcode::Nop) };
            lemma_statements_names(opened, i.block.statements@, i.block.statements@.len());
        },
        Statement::Variable(_) => {},
        Statement::Assignment(_) => {},
    }
}

/// Successful steps give no two functions of the table the same name.
pub proof fn lemma_statements_names(g: GeneratorView, statements: Seq<Statement>, count: nat)
    requires
        unique_names(g.fns),
        g.statements(statements, count).is_ok(),
    ensures
        unique_names(g.statements(statements, count).unwrap().fns),
    decreases statements, count,
{
    if count == 0 || count > statements.len() {
    } else {
        lemma_statements_names(g, statements, (count - 1) as nat);
        lemma_statement_names(
            g.statements(statements, (count - 1) as nat).unwrap(),
            statements[count - 1],
        );
    }
}

} // verus!
