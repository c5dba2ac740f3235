//! The code generator as a function on mathematical states: what each construct adds
//! to the instruction stream, to the locals and to the constant pool, and on which
//! trees generation fails.

use vstd::prelude::*;
use crate::ast::{
    BinaryOperator,
    ExpressionBinary,
    ExpressionCall,
    ExpressionLiteral,
    ExpressionReturn,
    Identifier,
    Statement,
    StatementAssignment,
    StatementExpression,
    StatementFunction,
};
use crate::bytecode::{Opcode, PushOperand};
use crate::object::{Object, Type};
use crate::program::{function_index, DefinedFnView, NamedFnView, ProgramView};
use crate::span::Span;

verus! {

broadcast use vstd::std_specs::vec::group_vec_axioms;

/// Why a tree cannot be turned into code. The checker rejects every such tree.
#[derive(Debug, Clone, Copy, PartialEq, Eq, Structural)]
pub enum GeneratorErrorKind {
    /// A name is used that is no local of the function.
    UnknownLocal,
    /// A node lacks the annotation that the checker leaves on it.
    MissingAnnotation,
    /// An operator is annotated with a type on which it is not defined.
    UnsupportedOperands,
    /// A parameter or variable is declared under a name that is already a local.
    DuplicateLocal,
    /// A function is declared under the name of an earlier function.
    DuplicateFunction,
    /// A function is declared inside a function or a block.
    NestedFunction,
}

/// A failure of the code generator: its kind and the place of the offending node.
#[derive(Debug, Clone, Copy, PartialEq, Eq, Structural)]
pub struct GeneratorError {
    pub kind: GeneratorErrorKind,
    pub span: Span,
}

/// The index of the local called `name`: the place of its latest declaration.
pub open spec fn local_index(locals: Seq<Seq<char>>, name: Seq<char>) -> Option<int>
    decreases locals.len(),
{
    if locals.len() == 0 {
        None
    } else if locals.last() == name {
        Some(locals.len() - 1)
    } else {
        local_index(locals.drop_last(), name)
    }
}

/// The instruction for `op` on operands of type `t`, where there is one.
pub open spec fn operator_opcode(op: BinaryOperator, t: Type) -> Option<Opcode> {
    match (op, t) {
        (BinaryOperator::Plus, Type::Integer) => Some(Opcode::IAdd),
        (BinaryOperator::Minus, Type::Integer) => Some(Opcode::ISub),
        (BinaryOperator::GratherThan, Type::Integer) => Some(Opcode::ICmpGT),
        _ => None,
    }
}

/// The instruction that leaves a function which returns `t`.
pub open spec fn return_opcode(t: Type) -> Opcode {
    if t == Type::Void {
        Opcode::Return
    } else {
        Opcode::IReturn
    }
}

/// The state of the code generator.
pub struct GeneratorView {
    /// The constant pool, shared by all functions.
    pub pool: Seq<Object>,
    /// The functions generated so far, in the order of their declarations.
    pub fns: Seq<NamedFnView>,
    /// The instructions of the function that is being generated.
    pub code: Seq<Opcode>,
    /// The names of its locals; the index of a local is its place.
    pub locals: Seq<Seq<char>>,
    /// Whether generation is inside a function body or a block.
    pub nested: bool,
}

/// Whether the machine can index the instructions, the pool entries and the locals of
/// the generator.
pub open spec fn fits(g: GeneratorView) -> bool {
    g.code.len() <= usize::MAX && g.pool.len() <= usize::MAX && g.locals.len() <= usize::MAX
}

/// Whether the machine can index what the generator holds after each of the first
/// `count` statements.
pub open spec fn fits_after_each(g: GeneratorView, statements: Seq<Statement>, count: nat) -> bool {
    forall|k: nat|
        k <= count ==> (#[trigger] g.statements(statements, k) matches Ok(h) ==> fits(h))
}

pub open spec fn fail(kind: GeneratorErrorKind, span: Span) -> Result<
    GeneratorView,
    GeneratorError,
> {
    Err(GeneratorError { kind, span })
}

impl GeneratorView {
    /// The state in which generation starts.
    pub open spec fn initial() -> GeneratorView {
        GeneratorView {
            pool: Seq::empty(),
            fns: Seq::empty(),
            code: Seq::empty(),
            locals: Seq::empty(),
            nested: false,
        }
    }

    /// The state with one more instruction.
    pub open spec fn emit(self, op: Opcode) -> GeneratorView {
        GeneratorView { code: self.code.push(op), ..self }
    }

    pub open spec fn literal(self, literal: ExpressionLiteral) -> GeneratorView {
        match literal {
            ExpressionLiteral::Integer(integer) => self.emit(
                Opcode::Push(PushOperand::Integer(integer.inner)),
            ),
            ExpressionLiteral::Boolean(boolean) => self.emit(
                Opcode::Push(PushOperand::Boolean(boolean.inner)),
            ),
            ExpressionLiteral::String(string) => GeneratorView {
                pool: self.pool.push(Object::String(string.inner)),
                ..self
            }.emit(Opcode::Ldc(self.pool.len() as usize)),
        }
    }

    pub open spec fn identifier(self, identifier: Identifier) -> Result<
        GeneratorView,
        GeneratorError,
    > {
        match local_index(self.locals, identifier.label@) {
            Some(index) => Ok(self.emit(Opcode::LLoad(index as usize))),
            None => fail(GeneratorErrorKind::UnknownLocal, identifier.span),
        }
    }

    pub open spec fn binary(self, binary: ExpressionBinary) -> Result<
        GeneratorView,
        GeneratorError,
    > {
        match binary.operands_types {
            None => fail(GeneratorErrorKind::MissingAnnotation, binary.span),
            Some(t) => match operator_opcode(binary.operator, t) {
                Some(op) => Ok(self.emit(op)),
                None => fail(GeneratorErrorKind::UnsupportedOperands, binary.span),
            },
        }
    }

    pub open spec fn call(self, call: ExpressionCall) -> GeneratorView {
        self.emit(Opcode::Invoke(call.identifier.label))
    }

    pub open spec fn return_marker(self, ret: ExpressionReturn) -> Result<
        GeneratorView,
        GeneratorError,
    > {
        match ret.typ {
            None => fail(GeneratorErrorKind::MissingAnnotation, ret.span),
            Some(t) => Ok(self.emit(return_opcode(t))),
        }
    }

    pub open spec fn expression(self, expression: StatementExpression) -> Result<
        GeneratorView,
        GeneratorError,
    > {
        match expression {
            StatementExpression::Call(call) => Ok(self.call(call)),
            StatementExpression::Binary(binary) => self.binary(binary),
            StatementExpression::Literal(literal) => Ok(self.literal(literal)),
            StatementExpression::Identifier(identifier) => self.identifier(identifier),
            StatementExpression::Return(ret) => self.return_marker(ret),
        }
    }

    /// A new local under `name`, which must not be the name of a local yet.
    pub open spec fn local(self, name: Seq<char>, span: Span) -> Result<
        GeneratorView,
        GeneratorError,
    > {
        if local_index(self.locals, name).is_some() {
            fail(GeneratorErrorKind::DuplicateLocal, span)
        } else {
            Ok(GeneratorView { locals: self.locals.push(name), ..self })
        }
    }

    pub open spec fn assignment(self, assignment: StatementAssignment) -> Result<
        GeneratorView,
        GeneratorError,
    > {
        match assignment.target {
            None => fail(GeneratorErrorKind::MissingAnnotation, assignment.span),
            Some(name) => match local_index(self.locals, name@) {
                Some(index) => Ok(self.emit(Opcode::LStore(index as usize))),
                None => fail(GeneratorErrorKind::UnknownLocal, assignment.span),
            },
        }
    }

    /// The first `count` parameters of `f` become locals, in order.
    pub open spec fn parameters(self, f: StatementFunction, count: nat) -> Result<
        GeneratorView,
        GeneratorError,
    >
        decreases count,
    {
        if count == 0 || count > f.parameters.parameters@.len() {
            Ok(self)
        } else {
            match self.parameters(f, (count - 1) as nat) {
                Err(e) => Err(e),
                Ok(g) => g.local(
                    f.parameters.parameters@[count - 1].identifier.label@,
                    f.parameters.parameters@[count - 1].identifier.span,
                ),
            }
        }
    }

    /// The state in which the generation of a function's parameters starts.
    pub open spec fn open_function(self) -> GeneratorView {
        GeneratorView { code: Seq::empty(), locals: Seq::empty(), nested: true, ..self }
    }

    /// What the end of a function's body does: the terminator is appended and the
    /// function is entered in the table under its name.
    pub open spec fn close_function(self, f: StatementFunction) -> Result<
        GeneratorView,
        GeneratorError,
    > {
        let code = self.code.push(return_opcode(f.return_type));
        if function_index(self.fns, f.identifier.label@).is_some() {
            fail(GeneratorErrorKind::DuplicateFunction, f.identifier.span)
        } else {
            Ok(
                GeneratorView {
                    fns: self.fns.push(
                        NamedFnView {
                            name: f.identifier.label@,
                            function: DefinedFnView {
                                start_line: f.identifier.span.line,
                                arity: f.parameters.parameters@.len() as usize,
                                code,
                                max_locals: self.locals.len() as usize,
                            },
                        },
                    ),
                    code,
                    nested: false,
                    ..self
                },
            )
        }
    }

    /// What the end of an `if` block does: the placeholder at `placeholder` becomes the
    /// jump over the block.
    pub open spec fn close_if(self, placeholder: int, nested: bool) -> GeneratorView {
        GeneratorView {
            code: self.code.update(placeholder, Opcode::JumpIfFalse(self.code.len() as usize)),
            nested,
            ..self
        }
    }

    /// The state after the code of one statement, or the failure it runs into.
    pub open spec fn statement(self, statement: Statement) -> Result<
        GeneratorView,
        GeneratorError,
    >
        decreases statement, 0nat,
    {
        match statement {
            Statement::Function(f) => if self.nested {
                fail(GeneratorErrorKind::NestedFunction, f.identifier.span)
            } else {
                match self.open_function().parameters(f, f.parameters.parameters@.len()) {
                    Err(e) => Err(e),
                    Ok(g) => match g.statements(f.body.statements@, f.body.statements@.len()) {
                        Err(e) => Err(e),
                        Ok(h) => h.close_function(f),
                    },
                }
            },
            Statement::Expression(expression) => self.expression(expression),
            Statement::If(i) => match (GeneratorView { nested: true, ..self.emit(Opcode::Nop) })
                .statements(i.block.statements@, i.block.statements@.len()) {
                Err(e) => Err(e),
                Ok(g) => Ok(g.close_if(self.code.len() as int, self.nested)),
            },
            Statement::Variable(variable) => self.local(
                variable.identifier.label@,
                variable.identifier.span,
            ),
            Statement::Assignment(assignment) => self.assignment(assignment),
        }
    }

    /// The state after the code of the first `count` of the statements, in order, or
    /// the first failure.
    pub open spec fn statements(self, statements: Seq<Statement>, count: nat) -> Result<
        GeneratorView,
        GeneratorError,
    >
        decreases statements, count,
    {
        if count == 0 || count > statements.len() {
            Ok(self)
        } else {
            match self.statements(statements, (count - 1) as nat) {
                Err(e) => Err(e),
                Ok(g) => g.statement(statements[count - 1]),
            }
        }
    }

    /// The program that the state holds.
    pub open spec fn program(self) -> ProgramView {
        ProgramView { pool: self.pool, fns: self.fns }
    }
}

} // verus!
