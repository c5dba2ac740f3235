//! The checker as a function on mathematical states: what each construct does to the
//! scopes, to the meta-stack and to the list of diagnostics, and which annotation it
//! leaves on its node.

use vstd::prelude::*;
use crate::analysis::errorhandler::{
    arg_error_at,
    illegal_decl_at,
    name_error_at,
    type_error_at,
    AnalyserErrorView,
};
use crate::analysis::messages;
use crate::analysis::scope::{
    declare_scopes,
    lookup_scopes,
    MetaObjectView,
    ScopeType,
    ScopeView,
};
use crate::ast::{
    BinaryOperator,
    ExpressionBinary,
    ExpressionCall,
    ExpressionLiteral,
    ExpressionReturn,
    Identifier,
    Parameter,
    Statement,
    StatementAssignment,
    StatementExpression,
    StatementFunction,
    StatementIf,
    StatementVariable,
};
use crate::object::Type;
use crate::program::PrototypeView;
use crate::span::Span;
use crate::stdlib::NativeFnView;

verus! {

broadcast use vstd::std_specs::vec::group_vec_axioms;

/// One entry of the meta-stack: the type of a value that will be on the operand stack,
/// and where it comes from.
#[derive(Debug, PartialEq, Eq)]
pub enum MetaStackEntry {
    /// A computed value.
    Type(Type, Span),
    /// The value of a named variable, which can also be assigned to.
    Identifier(String, Type, Span),
    /// A variable that was just declared. It stands for a place, not for a value.
    VariableDeclaration(String, Type, Span),
}

impl MetaStackEntry {
    /// The type of the value that the entry stands for, if it stands for one.
    pub open spec fn value_type(self) -> Option<Type> {
        match self {
            MetaStackEntry::Type(t, _) => Some(t),
            MetaStackEntry::Identifier(_, t, _) => Some(t),
            MetaStackEntry::VariableDeclaration(_, _, _) => None,
        }
    }

    /// The variable that the entry names and its type, if it names one.
    pub open spec fn place(self) -> Option<(String, Type)> {
        match self {
            MetaStackEntry::Type(_, _) => None,
            MetaStackEntry::Identifier(name, t, _) => Some((name, t)),
            MetaStackEntry::VariableDeclaration(name, t, _) => Some((name, t)),
        }
    }

    pub open spec fn spec_span(self) -> Span {
        match self {
            MetaStackEntry::Type(_, span) => span,
            MetaStackEntry::Identifier(_, _, span) => span,
            MetaStackEntry::VariableDeclaration(_, _, span) => span,
        }
    }
}

/// The type that `op` gives on two operands of type `t`, where it is defined on `t`.
pub open spec fn operator_result(op: BinaryOperator, t: Type) -> Option<Type> {
    match (op, t) {
        (BinaryOperator::Plus, Type::Integer) => Some(Type::Integer),
        (BinaryOperator::Minus, Type::Integer) => Some(Type::Integer),
        (BinaryOperator::GratherThan, Type::Integer) => Some(Type::Boolean),
        _ => None,
    }
}

/// The span from the start of `first` to the end of `last`.
pub open spec fn join_spans(first: Span, last: Span) -> Span {
    Span { line: first.line, column: first.column, start: first.start, end: last.end }
}

/// Whether what a block or a function body leaves on the meta-stack fits the type that
/// the enclosing function returns: nothing for `Void`, else exactly one value of it.
pub open spec fn residual_ok(stack: Seq<MetaStackEntry>, expected: Type) -> bool {
    if expected == Type::Void {
        stack.len() == 0
    } else {
        stack.len() == 1 && stack[0].value_type() == Some(expected)
    }
}

/// The signature that a function declaration declares.
pub open spec fn prototype_of(f: StatementFunction) -> PrototypeView {
    PrototypeView {
        arity: f.parameters.parameters@.len() as usize,
        return_type: f.return_type,
        parameters_types: f.parameters.parameters@.map_values(|p: Parameter| p.typ),
    }
}

/// The diagnostics for the argument at `position` of a call of `name`: one if the entry
/// is no value, one if its type is not that of the parameter, else none.
pub open spec fn argument_errors_at(
    args: Seq<MetaStackEntry>,
    prototype: PrototypeView,
    name: Seq<char>,
    position: int,
) -> Seq<AnalyserErrorView> {
    match args[position].value_type() {
        None => seq![arg_error_at(messages::msg_argument_not_expression(), args[position].spec_span())],
        Some(t) => if position < prototype.parameters_types.len()
            && prototype.parameters_types[position] != t {
            seq![
                type_error_at(
                    messages::msg_argument_type(name, prototype.parameters_types[position], t),
                    args[position].spec_span(),
                ),
            ]
        } else {
            Seq::empty()
        },
    }
}

/// The diagnostics for the first `count` arguments of a call, in the order of the
/// arguments.
pub open spec fn argument_errors(
    args: Seq<MetaStackEntry>,
    prototype: PrototypeView,
    name: Seq<char>,
    count: nat,
) -> Seq<AnalyserErrorView>
    decreases count,
{
    if count == 0 {
        Seq::empty()
    } else {
        argument_errors(args, prototype, name, (count - 1) as nat) + argument_errors_at(
            args,
            prototype,
            name,
            count - 1,
        )
    }
}

/// The state of the checker.
pub struct AnalyserView {
    /// The scopes, outermost first.
    pub scopes: Seq<ScopeView>,
    /// The meta-stack, top last.
    pub metastack: Seq<MetaStackEntry>,
    /// The diagnostics so far, oldest first.
    pub errors: Seq<AnalyserErrorView>,
}

impl AnalyserView {
    /// The state in which the check of a tree starts: only the global scope over the
    /// native functions, an empty meta-stack and no diagnostics.
    pub open spec fn initial(natives: Seq<NativeFnView>) -> AnalyserView {
        AnalyserView {
            scopes: seq![ScopeView::global(natives)],
            metastack: Seq::empty(),
            errors: Seq::empty(),
        }
    }

    /// Whether the state has its global scope.
    pub open spec fn wf(self) -> bool {
        self.scopes.len() > 0
    }

    /// The state with one more diagnostic.
    pub open spec fn report(self, error: AnalyserErrorView) -> AnalyserView {
        AnalyserView { errors: self.errors.push(error), ..self }
    }

    /// The state with one more entry on the meta-stack.
    pub open spec fn push(self, entry: MetaStackEntry) -> AnalyserView {
        AnalyserView { metastack: self.metastack.push(entry), ..self }
    }

    /// The state with only the lowest `depth` entries of the meta-stack.
    pub open spec fn keep(self, depth: int) -> AnalyserView {
        AnalyserView { metastack: self.metastack.subrange(0, depth), ..self }
    }

    /// The state with an empty meta-stack.
    pub open spec fn clear(self) -> AnalyserView {
        AnalyserView { metastack: Seq::empty(), ..self }
    }

    /// The state with `name` bound in the innermost scope.
    pub open spec fn declare(self, name: Seq<char>, object: MetaObjectView) -> AnalyserView {
        AnalyserView { scopes: declare_scopes(self.scopes, name, object), ..self }
    }

    pub open spec fn depth(self) -> int {
        self.metastack.len() as int
    }

    /// A literal pushes its type.
    pub open spec fn literal(self, literal: ExpressionLiteral) -> AnalyserView {
        self.push(MetaStackEntry::Type(literal.spec_type(), literal.spec_span()))
    }

    /// The name of a variable pushes the variable's type together with the name.
    pub open spec fn identifier(self, identifier: Identifier) -> AnalyserView {
        match lookup_scopes(self.scopes, identifier.label@) {
            None => self.report(name_error_at(messages::msg_unbound(identifier.label@), identifier.span)),
            Some(MetaObjectView::VarType(t)) => self.push(
                MetaStackEntry::Identifier(identifier.label, t, identifier.span),
            ),
            Some(MetaObjectView::FnPrototype(_)) => self.report(
                type_error_at(messages::msg_not_variable(identifier.label@), identifier.span),
            ),
        }
    }

    /// The type of both operands of a binary operator, where the two topmost entries
    /// are values of one type on which the operator is defined.
    pub open spec fn binary_operands(self, op: BinaryOperator) -> Option<Type> {
        let n = self.depth();
        if n < 2 {
            None
        } else {
            match (self.metastack[n - 2].value_type(), self.metastack[n - 1].value_type()) {
                (Some(lhs), Some(rhs)) => if lhs == rhs && operator_result(op, lhs).is_some() {
                    Some(lhs)
                } else {
                    None
                },
                _ => None,
            }
        }
    }

    /// A binary operator replaces its two operands by its result.
    pub open spec fn binary(self, binary: ExpressionBinary) -> AnalyserView {
        let n = self.depth();
        let op = binary.operator;
        if n < 2 {
            self.report(arg_error_at(messages::msg_missing_operands(op), binary.span))
        } else {
            let rhs = self.metastack[n - 1];
            let lhs = self.metastack[n - 2];
            let span = join_spans(lhs.spec_span(), binary.span);
            match rhs.value_type() {
                None => self.keep(n - 1).report(type_error_at(messages::msg_right_side(op), binary.span)),
                Some(rhs_type) => match lhs.value_type() {
                    None => self.keep(n - 2).report(
                        type_error_at(messages::msg_left_side(op), binary.span),
                    ),
                    Some(lhs_type) => if lhs_type != rhs_type {
                        self.keep(n - 2).report(
                            type_error_at(messages::msg_operand_mismatch(op, lhs_type, rhs_type), span),
                        )
                    } else {
                        match operator_result(op, lhs_type) {
                            None => self.keep(n - 2).report(
                                type_error_at(messages::msg_unsupported(op, lhs_type), span),
                            ),
                            Some(result) => self.keep(n - 2).push(
                                MetaStackEntry::Type(result, span),
                            ),
                        }
                    },
                },
            }
        }
    }

    /// The annotation that a binary operator carries after the check: the type of its
    /// operands where the check succeeds, else what it carried before.
    pub open spec fn binary_annotation(self, binary: ExpressionBinary) -> Option<Type> {
        match self.binary_operands(binary.operator) {
            Some(t) => Some(t),
            None => binary.operands_types,
        }
    }

    /// A call replaces its arguments by its result, if it has one.
    pub open spec fn call(self, call: ExpressionCall) -> AnalyserView {
        let name = call.identifier.label@;
        match lookup_scopes(self.scopes, name) {
            None => self.report(name_error_at(messages::msg_unbound(name), call.span)),
            Some(MetaObjectView::VarType(_)) => self.report(
                type_error_at(messages::msg_not_callable(name), call.span),
            ),
            Some(MetaObjectView::FnPrototype(prototype)) => {
                let n = self.depth();
                if n < prototype.arity {
                    self.clear().report(arg_error_at(messages::msg_missing_arguments(name), call.span))
                } else {
                    let base = n - prototype.arity;
                    let args = self.metastack.subrange(base, n);
                    let checked = AnalyserView {
                        errors: self.errors + argument_errors(
                            args,
                            prototype,
                            name,
                            prototype.arity as nat,
                        ),
                        ..self.keep(base)
                    };
                    if prototype.return_type == Type::Void {
                        checked
                    } else {
                        checked.push(MetaStackEntry::Type(prototype.return_type, call.span))
                    }
                }
            },
        }
    }

    /// The annotation that a return marker carries after the check: the type of the
    /// value on top of the meta-stack, `Void` where there is none.
    pub open spec fn return_annotation(self) -> Type {
        if self.depth() == 0 {
            Type::Void
        } else {
            match self.metastack.last().value_type() {
                Some(t) => t,
                None => Type::Void,
            }
        }
    }

    pub open spec fn expression(self, expression: StatementExpression) -> AnalyserView {
        match expression {
            StatementExpression::Call(call) => self.call(call),
            StatementExpression::Binary(binary) => self.binary(binary),
            StatementExpression::Literal(literal) => self.literal(literal),
            StatementExpression::Identifier(identifier) => self.identifier(identifier),
            StatementExpression::Return(_) => self,
        }
    }

    /// The declaration of a variable binds the name and pushes a placeholder for it.
    pub open spec fn variable(self, variable: StatementVariable) -> AnalyserView
        recommends
            self.wf(),
    {
        let name = variable.identifier.label;
        if self.scopes.last().is_declared(name@) {
            self.report(name_error_at(messages::msg_already_bound(name@), variable.identifier.span))
        } else {
            self.declare(name@, MetaObjectView::VarType(variable.typ)).push(
                MetaStackEntry::VariableDeclaration(name, variable.typ, variable.span),
            )
        }
    }

    /// The variable that an assignment writes, where the topmost entry is a value and
    /// the one below it names a variable of the value's type.
    pub open spec fn assignment_target(self) -> Option<String> {
        let n = self.depth();
        if n < 2 {
            None
        } else {
            match (self.metastack[n - 2].place(), self.metastack[n - 1].value_type()) {
                (Some((name, variable)), Some(value)) => if variable == value {
                    Some(name)
                } else {
                    None
                },
                _ => None,
            }
        }
    }

    /// An assignment takes a value and the variable below it off the meta-stack.
    pub open spec fn assignment(self, assignment: StatementAssignment) -> AnalyserView {
        let n = self.depth();
        if n < 2 {
            self.report(arg_error_at(messages::msg_assignment_operands(), assignment.span))
        } else {
            match self.metastack[n - 1].value_type() {
                None => self.keep(n - 1).report(
                    type_error_at(messages::msg_assignment_right(), assignment.span),
                ),
                Some(value) => match self.metastack[n - 2].place() {
                    None => self.keep(n - 2).report(
                        type_error_at(messages::msg_assignment_left(), assignment.span),
                    ),
                    Some((name, variable)) => if variable != value {
                        self.keep(n - 2).report(
                            type_error_at(
                                messages::msg_assignment_type(value, name@, variable),
                                assignment.span,
                            ),
                        )
                    } else {
                        self.keep(n - 2)
                    },
                },
            }
        }
    }

    /// The annotation that an assignment carries after the check: the variable it
    /// writes where the check succeeds, else what it carried before.
    pub open spec fn assignment_annotation(self, assignment: StatementAssignment) -> Option<
        String,
    > {
        match self.assignment_target() {
            Some(name) => Some(name),
            None => assignment.target,
        }
    }

    /// Whether an `if` finds a boolean value on top of the meta-stack.
    pub open spec fn condition_ok(self) -> bool {
        self.depth() > 0 && self.metastack.last().value_type() == Some(Type::Boolean)
    }

    /// What an `if` does before its block: it takes the condition off the meta-stack.
    pub open spec fn open_if(self, statement: StatementIf) -> AnalyserView {
        let n = self.depth();
        if n == 0 {
            self.report(arg_error_at(messages::msg_if_condition(), statement.span))
        } else {
            match self.metastack[n - 1].value_type() {
                None => self.keep(n - 1).report(arg_error_at(messages::msg_if_condition(), statement.span)),
                Some(t) => if t != Type::Boolean {
                    self.keep(n - 1).report(type_error_at(messages::msg_if_condition(), statement.span))
                } else {
                    self.keep(n - 1)
                },
            }
        }
    }

    /// What an `if` does after its block: it holds what the block left against the type
    /// that the enclosing scope expects, and empties the meta-stack.
    pub open spec fn close_if(self, statement: StatementIf, expected: Type) -> AnalyserView {
        if residual_ok(self.metastack, expected) {
            self.clear()
        } else {
            self.clear().report(type_error_at(messages::msg_if_residual(expected), statement.block.span))
        }
    }

    /// What a function declaration does before its parameters: it empties the
    /// meta-stack, binds the function's name and enters the function's scope.
    pub open spec fn open_function(self, f: StatementFunction) -> AnalyserView
        recommends
            self.wf(),
    {
        let name = f.identifier.label@;
        let cleared = self.clear();
        let placed = if cleared.scopes.last().type_ != ScopeType::Global {
            cleared.report(illegal_decl_at(messages::msg_illegal_declaration(), f.identifier.span))
        } else {
            cleared
        };
        let named = if placed.scopes.last().is_declared(name) {
            placed.report(name_error_at(messages::msg_already_bound(name), f.identifier.span))
        } else {
            placed
        };
        let declared = named.declare(name, MetaObjectView::FnPrototype(prototype_of(f)));
        AnalyserView {
            scopes: declared.scopes.push(ScopeView::fresh(ScopeType::Function, f.return_type)),
            ..declared
        }
    }

    /// One parameter binds its name in the function's scope.
    pub open spec fn parameter(self, f: StatementFunction, parameter: Parameter) -> AnalyserView
        recommends
            self.wf(),
    {
        let name = parameter.identifier.label@;
        let checked = if self.scopes.last().is_declared(name) {
            self.report(
                name_error_at(
                    messages::msg_duplicated_parameter(name, f.identifier.label@),
                    parameter.identifier.span,
                ),
            )
        } else {
            self
        };
        checked.declare(name, MetaObjectView::VarType(parameter.typ))
    }

    /// The first `count` parameters, in order.
    pub open spec fn parameters(self, f: StatementFunction, count: nat) -> AnalyserView
        decreases count,
    {
        if count == 0 || count > f.parameters.parameters@.len() {
            self
        } else {
            self.parameters(f, (count - 1) as nat).parameter(
                f,
                f.parameters.parameters@[count - 1],
            )
        }
    }

    /// What a function declaration does after its body: it holds what the body left
    /// against the return type, empties the meta-stack and leaves the function's scope.
    pub open spec fn close_function(self, f: StatementFunction) -> AnalyserView {
        let checked = if residual_ok(self.metastack, f.return_type) {
            self.clear()
        } else {
            self.clear().report(
                type_error_at(
                    messages::msg_function_residual(f.identifier.label@, f.return_type),
                    f.body.span,
                ),
            )
        };
        AnalyserView { scopes: checked.scopes.drop_last(), ..checked }
    }

    /// The state after one statement.
    pub open spec fn statement(self, statement: Statement) -> AnalyserView
        decreases statement, 0nat,
    {
        match statement {
            Statement::Function(f) => self.open_function(f).parameters(
                f,
                f.parameters.parameters@.len(),
            ).statements(f.body.statements@, f.body.statements@.len()).close_function(f),
            Statement::Expression(expression) => self.expression(expression),
            Statement::If(i) => if self.condition_ok() {
                self.open_if(i).statements(
                    i.block.statements@,
                    i.block.statements@.len(),
                ).close_if(i, self.scopes.last().expected_type)
            } else {
                self.open_if(i)
            },
            Statement::Variable(variable) => self.variable(variable),
            Statement::Assignment(assignment) => self.assignment(assignment),
        }
    }

    /// The state after the first `count` of the statements, in order.
    pub open spec fn statements(self, statements: Seq<Statement>, count: nat) -> AnalyserView
        decreases statements, count,
    {
        if count == 0 || count > statements.len() {
            self
        } else {
            self.statements(statements, (count - 1) as nat).statement(statements[count - 1])
        }
    }

    /// The entry-point rule: `main` must be a function without parameters that returns
    /// nothing.
    pub open spec fn entry_point(self) -> AnalyserView {
        match lookup_scopes(self.scopes, "main"@) {
            None => self.report(name_error_at(messages::msg_missing_main(), Span::empty())),
            Some(MetaObjectView::VarType(_)) => self.report(
                name_error_at(messages::msg_main_not_function(), Span::empty()),
            ),
            Some(MetaObjectView::FnPrototype(prototype)) => if prototype.arity != 0
                || prototype.return_type != Type::Void {
                self.report(type_error_at(messages::msg_main_signature(), Span::empty()))
            } else {
                self
            },
        }
    }

    /// The state after a whole tree: all its statements, then the entry-point rule.
    pub open spec fn program(self, ast: Seq<Statement>) -> AnalyserView {
        self.statements(ast, ast.len()).entry_point()
    }
}

/// Whether `new` is `old` with the annotation that the check leaves on it, the check
/// starting in state `s`.
pub open spec fn annotated_expression(
    s: AnalyserView,
    old: StatementExpression,
    new: StatementExpression,
) -> bool {
    match old {
        StatementExpression::Binary(binary) => new == StatementExpression::Binary(
            ExpressionBinary { operands_types: s.binary_annotation(binary), ..binary },
        ),
        StatementExpression::Return(ret) => new == StatementExpression::Return(
            ExpressionReturn { typ: Some(s.return_annotation()), ..ret },
        ),
        _ => new == old,
    }
}

/// Whether `new` is `old` with the annotations that the check leaves in it, the check
/// starting in state `s`.
pub open spec fn annotated(s: AnalyserView, old: Statement, new: Statement) -> bool
    decreases old, 0nat,
{
    match old {
        Statement::Function(f) => match new {
            Statement::Function(g) => g.identifier == f.identifier && g.return_type
                == f.return_type && g.parameters == f.parameters && g.signature_span
                == f.signature_span && g.body.span == f.body.span && annotated_all(
                s.open_function(f).parameters(f, f.parameters.parameters@.len()),
                f.body.statements@,
                g.body.statements@,
            ),
            _ => false,
        },
        Statement::Expression(expression) => match new {
            Statement::Expression(annotated) => annotated_expression(s, expression, annotated),
            _ => false,
        },
        Statement::If(i) => match new {
            Statement::If(j) => j.span == i.span && j.block.span == i.block.span && if s.condition_ok() {
                annotated_all(s.open_if(i), i.block.statements@, j.block.statements@)
            } else {
                j.block.statements@ == i.block.statements@
            },
            _ => false,
        },
        Statement::Variable(_) => new == old,
        Statement::Assignment(assignment) => new == Statement::Assignment(
            StatementAssignment { target: s.assignment_annotation(assignment), ..assignment },
        ),
    }
}

/// Whether each of `new` is the statement of `old` at its place with the annotations
/// that the check leaves in it, the check of the sequence starting in state `s`.
pub open spec fn annotated_all(s: AnalyserView, old: Seq<Statement>, new: Seq<Statement>) -> bool
    decreases old, 1nat,
{
    new.len() == old.len() && forall|i: int|
        0 <= i < old.len() ==> annotated(s.statements(old, i as nat), #[trigger] old[i], new[i])
}

} // verus!
