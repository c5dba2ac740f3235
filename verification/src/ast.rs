//! The syntax tree that the checker annotates and the code generator reads.

use vstd::prelude::*;
use crate::object::Type;
use crate::span::Span;

verus! {

/// A whole source file: its top-level statements in order.
pub type Ast = Vec<Statement>;

#[derive(Debug, PartialEq, Eq)]
pub enum Statement {
    Function(StatementFunction),
    Expression(StatementExpression),
    If(StatementIf),
    Variable(StatementVariable),
    Assignment(StatementAssignment),
}

/// A function declaration.
#[derive(Debug, PartialEq, Eq)]
pub struct StatementFunction {
    pub identifier: Identifier,
    pub return_type: Type,
    pub body: StatementBlock,
    pub parameters: Parameters,
    pub signature_span: Span,
}

impl StatementFunction {
    pub fn new(
        identifier: Identifier,
        parameters: Parameters,
        return_type: Type,
        body: StatementBlock,
        signature_span: Span,
    ) -> (function: Self)
        ensures
            function == (StatementFunction {
                identifier,
                return_type,
                body,
                parameters,
                signature_span,
            }),
    {
        Self { identifier, parameters, return_type, body, signature_span }
    }
}

/// A name at a place in the source.
#[derive(Debug, Clone, PartialEq, Eq)]
pub struct Identifier {
    pub span: Span,
    pub label: String,
}

impl Identifier {
    pub fn new(span: Span, label: String) -> (identifier: Self)
        ensures
            identifier == (Identifier { span, label }),
    {
        Self { span, label }
    }
}

/// One declared parameter of a function.
#[derive(Debug, Clone, PartialEq, Eq)]
pub struct Parameter {
    pub identifier: Identifier,
    pub typ: Type,
    pub span: Span,
}

impl Parameter {
    pub fn new(identifier: Identifier, typ: Type, span: Span) -> (parameter: Self)
        ensures
            parameter == (Parameter { identifier, typ, span }),
    {
        Self { identifier, typ, span }
    }
}

/// A sequence of statements between `->` and `;`.
#[derive(Debug, PartialEq, Eq)]
pub struct StatementBlock {
    pub span: Span,
    pub statements: Vec<Statement>,
}

impl StatementBlock {
    pub fn new() -> (block: Self)
        ensures
            block.span == Span::empty(),
            block.statements@ == Seq::<Statement>::empty(),
    {
        Self { statements: Vec::new(), span: Span::default() }
    }
}

/// The parameter list of a function declaration.
#[derive(Debug, Clone, PartialEq, Eq)]
pub struct Parameters {
    pub parameters: Vec<Parameter>,
    pub span: Span,
}

impl Parameters {
    pub fn new() -> (parameters: Self)
        ensures
            parameters.span == Span::empty(),
            parameters.parameters@ == Seq::<Parameter>::empty(),
    {
        Self { parameters: Vec::new(), span: Span::default() }
    }
}

/// A conditional block: it runs when the boolean on top of the stack is true.
#[derive(Debug, PartialEq, Eq)]
pub struct StatementIf {
    pub block: StatementBlock,
    pub span: Span,
}

impl StatementIf {
    pub fn new(block: StatementBlock, span: Span) -> (statement: Self)
        ensures
            statement == (StatementIf { block, span }),
    {
        Self { block, span }
    }
}

/// The declaration of a local variable.
#[derive(Debug, Clone, PartialEq, Eq)]
pub struct StatementVariable {
    pub identifier: Identifier,
    pub typ: Type,
    pub span: Span,
}

impl StatementVariable {
    pub fn new(identifier: Identifier, typ: Type, span: Span) -> (statement: Self)
        ensures
            statement == (StatementVariable { identifier, typ, span }),
    {
        Self { identifier, typ, span }
    }
}

/// An assignment (`=`). The checker fills in the name of the variable it writes.
#[derive(Debug, Clone, PartialEq, Eq)]
pub struct StatementAssignment {
    pub target: Option<String>,
    pub span: Span,
}

impl StatementAssignment {
    pub fn new(span: Span) -> (statement: Self)
        ensures
            statement == (StatementAssignment { target: None, span }),
    {
        Self { target: None, span }
    }
}

#[derive(Debug, Clone, PartialEq, Eq)]
pub enum StatementExpression {
    Call(ExpressionCall),
    Binary(ExpressionBinary),
    Literal(ExpressionLiteral),
    Identifier(Identifier),
    Return(ExpressionReturn),
}

impl StatementExpression {
    /// The place of the expression in the source.
    pub open spec fn spec_span(self) -> Span {
        match self {
            StatementExpression::Call(call) => call.span,
            StatementExpression::Binary(binary) => binary.span,
            StatementExpression::Literal(literal) => literal.spec_span(),
            StatementExpression::Identifier(identifier) => identifier.span,
            StatementExpression::Return(ret) => ret.span,
        }
    }

    pub fn get_span(&self) -> (span: Span)
        ensures
            span == self.spec_span(),
    {
        match self {
            Self::Call(call) => call.span,
            Self::Binary(binary) => binary.span,
            Self::Literal(literal) => match literal {
                ExpressionLiteral::String(string) => string.span,
                ExpressionLiteral::Integer(integer) => integer.span,
                ExpressionLiteral::Boolean(boolean) => boolean.span,
            },
            Self::Identifier(identifier) => identifier.span,
            Self::Return(ret) => ret.span,
        }
    }
}

/// A call of the named function.
#[derive(Debug, Clone, PartialEq, Eq)]
pub struct ExpressionCall {
    pub identifier: Identifier,
    pub span: Span,
}

impl ExpressionCall {
    pub fn new(span: Span, identifier: Identifier) -> (call: Self)
        ensures
            call == (ExpressionCall { identifier, span }),
    {
        Self { span, identifier }
    }
}

#[derive(Debug, Clone, Copy, PartialEq, Eq, Structural)]
pub enum BinaryOperator {
    Plus,
    Minus,
    GratherThan,
}

impl BinaryOperator {
    /// The operator as it is written in source text.
    pub open spec fn spec_symbol(self) -> Seq<char> {
        match self {
            BinaryOperator::Plus => "+"@,
            BinaryOperator::Minus => "-"@,
            BinaryOperator::GratherThan => ">"@,
        }
    }

    pub fn symbol(&self) -> (text: &'static str)
        ensures
            text@ == self.spec_symbol(),
    {
        match self {
            BinaryOperator::Plus => "+",
            BinaryOperator::Minus => "-",
            BinaryOperator::GratherThan => ">",
        }
    }
}

/// A binary operator. The checker fills in the type of its operands.
#[derive(Debug, Clone, PartialEq, Eq)]
pub struct ExpressionBinary {
    pub operator: BinaryOperator,
    pub span: Span,
    pub operands_types: Option<Type>,
}

impl ExpressionBinary {
    pub fn new(operator: BinaryOperator, span: Span) -> (binary: Self)
        ensures
            binary == (ExpressionBinary { operator, span, operands_types: None }),
    {
        Self { operator, span, operands_types: None }
    }
}

/// A return marker. The checker fills in the type of the value it returns.
#[derive(Debug, Clone, PartialEq, Eq)]
pub struct ExpressionReturn {
    pub typ: Option<Type>,
    pub span: Span,
}

impl ExpressionReturn {
    pub fn new(span: Span) -> (ret: Self)
        ensures
            ret == (ExpressionReturn { typ: None, span }),
    {
        Self { typ: None, span }
    }
}

#[derive(Debug, Clone, PartialEq, Eq)]
pub enum ExpressionLiteral {
    String(LiteralString),
    Integer(LiteralInteger),
    Boolean(LiteralBoolean),
}

impl ExpressionLiteral {
    /// The place of the literal in the source.
    pub open spec fn spec_span(self) -> Span {
        match self {
            ExpressionLiteral::String(string) => string.span,
            ExpressionLiteral::Integer(integer) => integer.span,
            ExpressionLiteral::Boolean(boolean) => boolean.span,
        }
    }

    /// The type of the literal's value.
    pub open spec fn spec_type(self) -> Type {
        match self {
            ExpressionLiteral::String(_) => Type::String,
            ExpressionLiteral::Integer(_) => Type::Integer,
            ExpressionLiteral::Boolean(_) => Type::Boolean,
        }
    }
}

#[derive(Debug, Clone, PartialEq, Eq)]
pub struct LiteralString {
    pub span: Span,
    pub inner: String,
}

impl LiteralString {
    pub fn new(span: Span, inner: String) -> (literal: Self)
        ensures
            literal == (LiteralString { span, inner }),
    {
        Self { inner, span }
    }
}

#[derive(Debug, Clone, Copy, PartialEq, Eq)]
pub struct LiteralInteger {
    pub span: Span,
    pub inner: i32,
}

impl LiteralInteger {
    pub fn new(span: Span, inner: i32) -> (literal: Self)
        ensures
            literal == (LiteralInteger { span, inner }),
    {
        Self { span, inner }
    }
}

#[derive(Debug, Clone, Copy, PartialEq, Eq)]
pub struct LiteralBoolean {
    pub span: Span,
    pub inner: bool,
}

impl LiteralBoolean {
    pub fn new(span: Span, inner: bool) -> (literal: Self)
        ensures
            literal == (LiteralBoolean { span, inner }),
    {
        Self { span, inner }
    }
}

} // verus!

verus! {

broadcast use vstd::std_specs::vec::group_vec_axioms;

/// The mathematical content of a statement.
pub enum StatementView {
    Function(FunctionView),
    Expression(StatementExpression),
    If(IfView),
    Variable(StatementVariable),
    Assignment(StatementAssignment),
}

/// The mathematical content of a function declaration.
pub struct FunctionView {
    pub identifier: Identifier,
    pub return_type: Type,
    pub body: BlockView,
    pub parameters: Seq<Parameter>,
    pub parameters_span: Span,
    pub signature_span: Span,
}

/// The mathematical content of a block.
pub struct BlockView {
    pub span: Span,
    pub statements: Seq<StatementView>,
}

/// The mathematical content of a conditional block.
pub struct IfView {
    pub block: BlockView,
    pub span: Span,
}

/// The mathematical content of a block.
pub open spec fn block_view(block: StatementBlock) -> BlockView
    decreases block,
{
    BlockView { span: block.span, statements: statements_view(block.statements@) }
}

/// The mathematical content of a statement.
pub open spec fn statement_view(statement: Statement) -> StatementView
    decreases statement,
{
    match statement {
        Statement::Function(f) => StatementView::Function(
            FunctionView {
                identifier: f.identifier,
                return_type: f.return_type,
                body: block_view(f.body),
                parameters: f.parameters.parameters@,
                parameters_span: f.parameters.span,
                signature_span: f.signature_span,
            },
        ),
        Statement::Expression(expression) => StatementView::Expression(expression),
        Statement::If(i) => StatementView::If(IfView { block: block_view(i.block), span: i.span }),
        Statement::Variable(variable) => StatementView::Variable(variable),
        Statement::Assignment(assignment) => StatementView::Assignment(assignment),
    }
}

/// The mathematical content of a sequence of statements.
pub open spec fn statements_view(statements: Seq<Statement>) -> Seq<StatementView>
    decreases statements,
{
    Seq::new(
        statements.len(),
        |i: int|
            if 0 <= i < statements.len() {
                statement_view(statements[i])
            } else {
                arbitrary()
            },
    )
}

} // verus!
