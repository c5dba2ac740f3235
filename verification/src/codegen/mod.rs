//! The code generator: it turns a checked tree into a program.

pub mod laws;
pub mod model;

use vstd::prelude::*;
use crate::ast::{
    Ast,
    BinaryOperator,
    ExpressionBinary,
    ExpressionCall,
    ExpressionLiteral,
    ExpressionReturn,
    Identifier,
    Statement,
    StatementAssignment,
    StatementExpression,
    StatementFunction,
    StatementIf,
    StatementVariable,
};
use crate::bytecode::{ByteCodeStream, Opcode, PushOperand};
use crate::codegen::model::{
    fits,
    fits_after_each,
    local_index,
    operator_opcode,
    return_opcode,
    GeneratorError,
    GeneratorErrorKind,
    GeneratorView,
};
use crate::object::{Object, Type};
use crate::pool::Pool;
use crate::program::{function_index, unique_names, DefinedFn, NamedFn, Program};
use crate::span::Span;

verus! {

broadcast use vstd::std_specs::vec::group_vec_axioms;

/// What the generator keeps for the function that it is generating.
#[derive(Debug, PartialEq, Eq)]
pub struct Context {
    pub code: ByteCodeStream,
    pub locals: Vec<String>,
    pub nested: bool,
}

impl Context {
    pub fn make() -> (context: Self)
        ensures
            context.code@.len() == 0,
            context.locals@.len() == 0,
            !context.nested,
    {
        Self { code: ByteCodeStream::empty(), locals: Vec::new(), nested: false }
    }

    /// Forgets the instructions and the locals.
    pub fn reset(&mut self)
        ensures
            final(self).code@.len() == 0,
            final(self).locals@.len() == 0,
            final(self).nested == old(self).nested,
    {
        self.code.clear();
        self.locals.clear();
    }
}

/// The instruction for `op` on operands of type `t`, where there is one.
pub fn opcode_for(op: BinaryOperator, t: Type) -> (opcode: Option<Opcode>)
    ensures
        opcode == operator_opcode(op, t),
{
    match t {
        Type::Integer => match op {
            BinaryOperator::Plus => Some(Opcode::IAdd),
            BinaryOperator::Minus => Some(Opcode::ISub),
            BinaryOperator::GratherThan => Some(Opcode::ICmpGT),
        },
        _ => None,
    }
}

/// The instruction that leaves a function which returns `t`.
pub fn opcode_for_return(t: Type) -> (opcode: Opcode)
    ensures
        opcode == return_opcode(t),
{
    match t {
        Type::Void => Opcode::Return,
        _ => Opcode::IReturn,
    }
}

/// Whether a step of the generator did what `expected` says: it ended in that state,
/// or failed with that error.
pub open spec fn generated(
    expected: Result<GeneratorView, GeneratorError>,
    result: Result<(), GeneratorError>,
    state: GeneratorView,
) -> bool {
    match expected {
        Ok(g) => result.is_ok() && state == g,
        Err(e) => result == Err::<(), GeneratorError>(e),
    }
}

/// Whether `new` has come from `old` inside a function body or block: the instruction
/// stream has not shrunk.
pub open spec fn goes_on(old: GeneratorView, new: GeneratorView) -> bool {
    new.nested && new.code.len() >= old.code.len()
}

/// The code generator: the pool and the functions of the program so far, and the
/// function that is being generated.
#[derive(Debug, PartialEq, Eq)]
pub struct CodeGenerator {
    pub pool: Pool,
    pub fns: Vec<NamedFn>,
    pub context: Context,
}

impl View for CodeGenerator {
    type V = GeneratorView;

    open spec fn view(&self) -> GeneratorView {
        GeneratorView {
            pool: self.pool@,
            fns: self.fns@.map_values(|f: NamedFn| f@),
            code: self.context.code@,
            locals: self.context.locals@.map_values(|name: String| name@),
            nested: self.context.nested,
        }
    }
}

impl CodeGenerator {
    pub fn make() -> (generator: Self)
        ensures
            generator@ == GeneratorView::initial(),
    {
        let generator = Self { pool: Pool::make(), fns: Vec::new(), context: Context::make() };
        assert(generator@.fns =~= Seq::empty());
        assert(generator@.locals =~= Seq::empty());
        assert(generator@.code =~= Seq::empty());
        generator
    }

    /// Generates the code of a whole tree and returns the program so far: the pool and
    /// every function declared in this tree or in one generated before. Fails, with the
    /// first failure in the order of the tree, on a tree that the checker rejects.
    pub fn gen(&mut self, ast: Ast) -> (result: Result<Program, GeneratorError>)
        ensures
            match old(self)@.statements(ast@, ast@.len()) {
                Ok(g) => final(self)@ == g && (result matches Ok(program) && program@
                    == g.program()),
                Err(e) => result == Err::<Program, GeneratorError>(e),
            },
            fits_after_each(old(self)@, ast@, ast@.len() as nat),
            unique_names(old(self)@.fns) ==> (result matches Ok(program) ==> unique_names(
                program@.fns,
            )),
    {
        self.gen_from(&ast)
    }

    /// Does what `gen` does, on a tree that the caller keeps.
    pub fn gen_from(&mut self, ast: &Ast) -> (result: Result<Program, GeneratorError>)
        ensures
            match old(self)@.statements(ast@, ast@.len()) {
                Ok(g) => final(self)@ == g && (result matches Ok(program) && program@
                    == g.program()),
                Err(e) => result == Err::<Program, GeneratorError>(e),
            },
            fits_after_each(old(self)@, ast@, ast@.len() as nat),
            unique_names(old(self)@.fns) ==> (result matches Ok(program) ==> unique_names(
                program@.fns,
            )),
    {
        match self.generate_statements(ast) {
            Err(e) => Err(e),
            Ok(()) => {
                proof {
                    if unique_names(old(self)@.fns) {
                        crate::codegen::laws::lemma_statements_names(
                            old(self)@,
                            ast@,
                            ast@.len(),
                        );
                    }
                }
                let mut fns: Vec<NamedFn> = Vec::new();
                let mut i: usize = 0;
                while i < self.fns.len()
                    invariant
                        i <= self.fns@.len(),
                        fns@.map_values(|f: NamedFn| f@) == self.fns@.map_values(
                            |f: NamedFn| f@,
                        ).subrange(0, i as int),
                    decreases self.fns@.len() - i,
                {
                    let ghost before = fns@;
                    let entry = &self.fns[i];
                    fns.push(NamedFn { name: entry.name.clone(), function: entry.function.clone() });
                    i += 1;
                    assert(fns@.map_values(|f: NamedFn| f@) =~= before.map_values(
                        |f: NamedFn| f@,
                    ).push(fns@.last()@));
                    assert(fns@.map_values(|f: NamedFn| f@) =~= self.fns@.map_values(
                        |f: NamedFn| f@,
                    ).subrange(0, i as int));
                }
                assert(fns@.map_values(|f: NamedFn| f@) =~= self.fns@.map_values(|f: NamedFn| f@));
                Ok(Program { pool: self.pool.clone(), fns })
            },
        }
    }

    fn emit(&mut self, op: Opcode)
        ensures
            final(self)@ == old(self)@.emit(op),
    {
        self.context.code.push(op);
    }

    /// The index of the local called `name`.
    fn find_local(&self, name: &String) -> (index: Option<usize>)
        ensures
            match local_index(self@.locals, name@) {
                Some(i) => index == Some(i as usize) && 0 <= i < self@.locals.len(),
                None => index.is_none(),
            },
    {
        let ghost locals = self@.locals;
        let mut i: usize = self.context.locals.len();
        assert(locals.subrange(0, i as int) =~= locals);
        while i > 0
            invariant
                i <= self.context.locals@.len(),
                locals == self@.locals,
                local_index(locals, name@) == local_index(locals.subrange(0, i as int), name@),
            decreases i,
        {
            i -= 1;
            let ghost prefix = locals.subrange(0, i + 1);
            assert(prefix.last() == self.context.locals@[i as int]@);
            assert(prefix.drop_last() =~= locals.subrange(0, i as int));
            if self.context.locals[i] == *name {
                return Some(i);
            }
        }
        assert(locals.subrange(0, 0).len() == 0);
        None
    }

    /// Whether a function called `name` is in the table.
    fn has_function(&self, name: &String) -> (found: bool)
        ensures
            found == function_index(self@.fns, name@).is_some(),
    {
        let ghost fns = self@.fns;
        let mut i: usize = self.fns.len();
        assert(fns.subrange(0, i as int) =~= fns);
        while i > 0
            invariant
                i <= self.fns@.len(),
                fns == self@.fns,
                function_index(fns, name@).is_some() == function_index(
                    fns.subrange(0, i as int),
                    name@,
                ).is_some(),
            decreases i,
        {
            i -= 1;
            let ghost prefix = fns.subrange(0, i + 1);
            assert(prefix.last() == self.fns@[i as int]@);
            assert(prefix.drop_last() =~= fns.subrange(0, i as int));
            if self.fns[i].name == *name {
                return true;
            }
        }
        assert(fns.subrange(0, 0).len() == 0);
        false
    }

    fn declare_local(&mut self, name: &String, span: Span) -> (result: Result<(), GeneratorError>)
        ensures
            generated(old(self)@.local(name@, span), result, final(self)@),
            result.is_ok() ==> final(self)@.code == old(self)@.code && final(self)@.nested == old(
                self,
            )@.nested,
    {
        if self.find_local(name).is_some() {
            return Err(GeneratorError { kind: GeneratorErrorKind::DuplicateLocal, span });
        }
        self.context.locals.push(name.clone());
        assert(self@.locals =~= old(self)@.locals.push(name@));
        Ok(())
    }

    fn generate_statements(&mut self, statements: &Vec<Statement>) -> (result: Result<
        (),
        GeneratorError,
    >)
        ensures
            generated(
                old(self)@.statements(statements@, statements@.len()),
                result,
                final(self)@,
            ),
            old(self)@.nested && result.is_ok() ==> goes_on(old(self)@, final(self)@),
            fits_after_each(old(self)@, statements@, statements@.len() as nat),
        decreases statements@, 1nat,
    {
        let ghost start = self@;
        let mut i: usize = 0;
        proof {
            self.lemma_fits();
        }
        while i < statements.len()
            invariant
                i <= statements@.len(),
                start == old(self)@,
                start.statements(statements@, i as nat) == Ok::<GeneratorView, GeneratorError>(
                    self@,
                ),
                start.nested ==> goes_on(start, self@),
                fits_after_each(start, statements@, i as nat),
            decreases statements@.len() - i,
        {
            assert(decreases_to!(statements@ => statements@[i as int]));
            let ghost current = self@;
            match self.generate_statement(&statements[i]) {
                Err(e) => {
                    proof {
                        assert(start.statements(statements@, (i + 1) as nat) == current.statement(
                            statements@[i as int],
                        ));
                        lemma_failure_stays(start, statements@, (i + 1) as nat, statements@.len());
                        assert forall|k: nat| k <= statements@.len() implies (#[trigger] start.statements(
                            statements@,
                            k,
                        ) matches Ok(h) ==> fits(h)) by {
                            if k > i {
                                lemma_failure_stays(start, statements@, (i + 1) as nat, k);
                            }
                        }
                    }
                    return Err(e);
                },
                Ok(()) => {},
            }
            proof {
                self.lemma_fits();
                assert forall|k: nat| k <= i + 1 implies (#[trigger] start.statements(
                    statements@,
                    k,
                ) matches Ok(h) ==> fits(h)) by {
                    if k == i + 1 {
                        assert(start.statements(statements@, k) == current.statement(
                            statements@[i as int],
                        ));
                    }
                }
            }
            i += 1;
        }
        Ok(())
    }

    /// The machine can index what the generator holds.
    proof fn lemma_fits(&self)
        ensures
            fits(self@),
    {
        assert(self.context.code.code.len() == self@.code.len());
        assert(self.pool.entries.len() == self@.pool.len());
        assert(self.context.locals.len() == self@.locals.len());
    }

    fn generate_statement(&mut self, statement: &Statement) -> (result: Result<
        (),
        GeneratorError,
    >)
        ensures
            generated(old(self)@.statement(*statement), result, final(self)@),
            old(self)@.nested && result.is_ok() ==> goes_on(old(self)@, final(self)@),
        decreases *statement, 0nat,
    {
        match statement {
            Statement::If(block) => self.generate_if_statement(block),
            Statement::Expression(expression) => self.generate_expression(expression),
            Statement::Function(f) => self.generate_function_declaration(f),
            Statement::Variable(variable) => self.generate_variable_decl(variable),
            Statement::Assignment(assignment) => self.generate_assignment(assignment),
        }
    }

    fn generate_assignment(&mut self, assignment: &StatementAssignment) -> (result: Result<
        (),
        GeneratorError,
    >)
        ensures
            generated(old(self)@.assignment(*assignment), result, final(self)@),
            old(self)@.nested && result.is_ok() ==> goes_on(old(self)@, final(self)@),
    {
        match &assignment.target {
            None => Err(
                GeneratorError { kind: GeneratorErrorKind::MissingAnnotation, span: assignment.span },
            ),
            Some(name) => match self.find_local(name) {
                Some(index) => {
                    self.emit(Opcode::LStore(index));
                    Ok(())
                },
                None => Err(
                    GeneratorError { kind: GeneratorErrorKind::UnknownLocal, span: assignment.span },
                ),
            },
        }
    }

    fn generate_variable_decl(&mut self, variable: &StatementVariable) -> (result: Result<
        (),
        GeneratorError,
    >)
        ensures
            generated(
                old(self)@.local(variable.identifier.label@, variable.identifier.span),
                result,
                final(self)@,
            ),
            old(self)@.nested && result.is_ok() ==> goes_on(old(self)@, final(self)@),
    {
        self.declare_local(&variable.identifier.label, variable.identifier.span)
    }

    fn generate_if_statement(&mut self, statement: &StatementIf) -> (result: Result<
        (),
        GeneratorError,
    >)
        ensures
            generated(old(self)@.statement(Statement::If(*statement)), result, final(self)@),
            old(self)@.nested && result.is_ok() ==> goes_on(old(self)@, final(self)@),
        decreases *statement, 2nat,
    {
        let nested = self.context.nested;
        let placeholder = self.context.code.get_pos();
        self.emit(Opcode::Nop);
        self.context.nested = true;
        match self.generate_statements(&statement.block.statements) {
            Err(e) => {
                return Err(e);
            },
            Ok(()) => {},
        }
        let after = self.context.code.get_pos();
        let patched = self.context.code.push_at(Opcode::JumpIfFalse(after), placeholder);
        assert(patched);
        self.context.nested = nested;
        Ok(())
    }

    fn generate_function_declaration(&mut self, f: &StatementFunction) -> (result: Result<
        (),
        GeneratorError,
    >)
        ensures
            generated(old(self)@.statement(Statement::Function(*f)), result, final(self)@),
            old(self)@.nested && result.is_ok() ==> goes_on(old(self)@, final(self)@),
        decreases *f, 2nat,
    {
        if self.context.nested {
            return Err(
                GeneratorError { kind: GeneratorErrorKind::NestedFunction, span: f.identifier.span },
            );
        }
        self.context.reset();
        self.context.nested = true;
        assert(self@.code =~= Seq::empty());
        assert(self@.locals =~= Seq::empty());
        let ghost opened = self@;
        assert(opened == old(self)@.open_function());
        let arity = f.parameters.parameters.len();
        let mut i: usize = 0;
        while i < arity
            invariant
                i <= arity,
                arity == f.parameters.parameters@.len(),
                !old(self)@.nested,
                opened == old(self)@.open_function(),
                opened.parameters(*f, i as nat) == Ok::<GeneratorView, GeneratorError>(self@),
            decreases arity - i,
        {
            let parameter = &f.parameters.parameters[i];
            let ghost current = self@;
            match self.declare_local(&parameter.identifier.label, parameter.identifier.span) {
                Err(e) => {
                    proof {
                        assert(opened.parameters(*f, (i + 1) as nat) == current.local(
                            parameter.identifier.label@,
                            parameter.identifier.span,
                        ));
                        lemma_parameter_failure_stays(opened, *f, (i + 1) as nat, arity as nat);
                    }
                    return Err(e);
                },
                Ok(()) => {},
            }
            i += 1;
        }
        match self.generate_statements(&f.body.statements) {
            Err(e) => {
                return Err(e);
            },
            Ok(()) => {},
        }
        self.emit(opcode_for_return(f.return_type));
        if self.has_function(&f.identifier.label) {
            return Err(
                GeneratorError {
                    kind: GeneratorErrorKind::DuplicateFunction,
                    span: f.identifier.span,
                },
            );
        }
        let function = DefinedFn::new(
            f.identifier.span.line,
            arity,
            self.context.code.clone(),
            self.context.locals.len(),
        );
        let ghost before = self@.fns;
        self.fns.push(NamedFn { name: f.identifier.label.clone(), function });
        assert(self@.fns =~= before.push(self.fns@.last()@));
        self.context.nested = false;
        Ok(())
    }

    fn generate_expression(&mut self, expression: &StatementExpression) -> (result: Result<
        (),
        GeneratorError,
    >)
        ensures
            generated(old(self)@.expression(*expression), result, final(self)@),
            old(self)@.nested && result.is_ok() ==> goes_on(old(self)@, final(self)@),
    {
        match expression {
            StatementExpression::Literal(literal) => {
                self.generate_literal(literal);
                Ok(())
            },
            StatementExpression::Call(call) => {
                self.generate_function_call(call);
                Ok(())
            },
            StatementExpression::Binary(binary) => self.generate_binop(binary),
            StatementExpression::Identifier(identifier) => self.generate_identifier(identifier),
            StatementExpression::Return(ret) => self.generate_return_expression(ret),
        }
    }

    fn generate_identifier(&mut self, identifier: &Identifier) -> (result: Result<
        (),
        GeneratorError,
    >)
        ensures
            generated(old(self)@.identifier(*identifier), result, final(self)@),
            old(self)@.nested && result.is_ok() ==> goes_on(old(self)@, final(self)@),
    {
        match self.find_local(&identifier.label) {
            Some(index) => {
                self.emit(Opcode::LLoad(index));
                Ok(())
            },
            None => Err(
                GeneratorError { kind: GeneratorErrorKind::UnknownLocal, span: identifier.span },
            ),
        }
    }

    fn generate_binop(&mut self, binary: &ExpressionBinary) -> (result: Result<(), GeneratorError>)
        ensures
            generated(old(self)@.binary(*binary), result, final(self)@),
            old(self)@.nested && result.is_ok() ==> goes_on(old(self)@, final(self)@),
    {
        match binary.operands_types {
            None => Err(
                GeneratorError { kind: GeneratorErrorKind::MissingAnnotation, span: binary.span },
            ),
            Some(t) => match opcode_for(binary.operator, t) {
                Some(op) => {
                    self.emit(op);
                    Ok(())
                },
                None => Err(
                    GeneratorError {
                        kind: GeneratorErrorKind::UnsupportedOperands,
                        span: binary.span,
                    },
                ),
            },
        }
    }

    fn generate_function_call(&mut self, call: &ExpressionCall)
        ensures
            final(self)@ == old(self)@.call(*call),
    {
        self.emit(Opcode::Invoke(call.identifier.label.clone()));
    }

    fn generate_literal(&mut self, literal: &ExpressionLiteral)
        ensures
            final(self)@ == old(self)@.literal(*literal),
    {
        match literal {
            ExpressionLiteral::Integer(integer) => {
                self.emit(Opcode::Push(PushOperand::Integer(integer.inner)));
            },
            ExpressionLiteral::Boolean(boolean) => {
                self.emit(Opcode::Push(PushOperand::Boolean(boolean.inner)));
            },
            ExpressionLiteral::String(string) => {
                let index = self.pool.append(Object::String(string.inner.clone()));
                self.emit(Opcode::Ldc(index));
            },
        }
    }

    fn generate_return_expression(&mut self, ret: &ExpressionReturn) -> (result: Result<
        (),
        GeneratorError,
    >)
        ensures
            generated(old(self)@.return_marker(*ret), result, final(self)@),
            old(self)@.nested && result.is_ok() ==> goes_on(old(self)@, final(self)@),
    {
        match ret.typ {
            None => Err(GeneratorError { kind: GeneratorErrorKind::MissingAnnotation, span: ret.span }),
            Some(t) => {
                self.emit(opcode_for_return(t));
                Ok(())
            },
        }
    }
}

/// Once generation has failed at some statement, it has failed for every longer part
/// of the sequence, with the same failure.
pub proof fn lemma_failure_stays(
    start: GeneratorView,
    statements: Seq<Statement>,
    failed: nat,
    count: nat,
)
    requires
        start.statements(statements, failed).is_err(),
        failed <= count <= statements.len(),
    ensures
        start.statements(statements, count) == start.statements(statements, failed),
    decreases count,
{
    if count > failed {
        lemma_failure_stays(start, statements, failed, (count - 1) as nat);
    }
}

/// Once generation has failed at some parameter, it has failed for every longer part
/// of the parameter list, with the same failure.
pub proof fn lemma_parameter_failure_stays(
    start: GeneratorView,
    f: StatementFunction,
    failed: nat,
    count: nat,
)
    requires
        start.parameters(f, failed).is_err(),
        failed <= count <= f.parameters.parameters@.len(),
    ensures
        start.parameters(f, count) == start.parameters(f, failed),
    decreases count,
{
    if count > failed {
        lemma_parameter_failure_stays(start, f, failed, (count - 1) as nat);
    }
}

} // verus!
