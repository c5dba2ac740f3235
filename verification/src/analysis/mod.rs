//! The semantic checker: it resolves names, checks types by running the program on a
//! stack of types, and leaves on the tree what the code generator needs.

pub mod errorhandler;
pub mod laws;
pub mod messages;
pub mod model;
pub mod scope;
pub mod shape;

use vstd::prelude::*;
use vstd::string::*;
use crate::analysis::errorhandler::{errors_view, AnalyserError, AnalyserErrors};
use crate::analysis::model::{
    annotated,
    annotated_all,
    annotated_expression,
    argument_errors,
    argument_errors_at,
    operator_result,
    prototype_of,
    residual_ok,
    AnalyserView,
    MetaStackEntry,
};
use crate::analysis::scope::{Context, MetaObject, ScopeType};
use crate::ast::{
    Ast,
    BinaryOperator,
    ExpressionBinary,
    ExpressionCall,
    ExpressionLiteral,
    ExpressionReturn,
    Identifier,
    Parameter,
    Statement,
    StatementAssignment,
    StatementExpression,
    StatementFunction,
    StatementIf,
    StatementVariable,
};
use crate::object::Type;
use crate::program::FunctionPrototype;
use crate::span::Span;
use crate::stdlib::{list_natives, natives_view, standard_natives, NativeFn};

verus! {

broadcast use vstd::std_specs::vec::group_vec_axioms;

impl MetaStackEntry {
    /// The type of the value that the entry stands for, if it stands for one.
    pub fn get_value_type(&self) -> (t: Option<Type>)
        ensures
            t == self.value_type(),
    {
        match self {
            MetaStackEntry::Type(t, _) => Some(*t),
            MetaStackEntry::Identifier(_, t, _) => Some(*t),
            MetaStackEntry::VariableDeclaration(_, _, _) => None,
        }
    }

    pub fn get_span(&self) -> (span: Span)
        ensures
            span == self.spec_span(),
    {
        match self {
            MetaStackEntry::Type(_, span) => *span,
            MetaStackEntry::Identifier(_, _, span) => *span,
            MetaStackEntry::VariableDeclaration(_, _, span) => *span,
        }
    }
}

/// The type that `op` gives on two operands of type `t`, where it is defined on `t`.
pub fn operator_result_type(op: BinaryOperator, t: Type) -> (result: Option<Type>)
    ensures
        result == operator_result(op, t),
{
    match t {
        Type::Integer => match op {
            BinaryOperator::Plus => Some(Type::Integer),
            BinaryOperator::Minus => Some(Type::Integer),
            BinaryOperator::GratherThan => Some(Type::Boolean),
        },
        _ => None,
    }
}

/// The checker: the scopes it is in, the meta-stack and the diagnostics so far.
#[derive(Debug, PartialEq, Eq)]
pub struct Analyser {
    pub context: Context,
    pub metastack: Vec<MetaStackEntry>,
    pub errors: Vec<AnalyserError>,
}

impl View for Analyser {
    type V = AnalyserView;

    open spec fn view(&self) -> AnalyserView {
        AnalyserView {
            scopes: self.context@,
            metastack: self.metastack@,
            errors: errors_view(self.errors@),
        }
    }
}

impl Analyser {
    /// A checker over the standard native functions.
    pub fn make() -> (analyser: Self)
        ensures
            analyser@ == AnalyserView::initial(standard_natives()),
    {
        let natives = list_natives();
        Self::with_natives(&natives)
    }

    /// A checker over the given native functions.
    pub fn with_natives(natives: &Vec<NativeFn>) -> (analyser: Self)
        ensures
            analyser@ == AnalyserView::initial(natives_view(natives@)),
    {
        let analyser = Self {
            context: Context::make_global(natives),
            metastack: Vec::new(),
            errors: Vec::new(),
        };
        assert(analyser@.errors =~= Seq::empty());
        assert(analyser@.metastack =~= Seq::empty());
        analyser
    }

    /// Checks a whole tree and leaves the annotations in it. Returns `Ok` when the
    /// checker holds no diagnostic afterwards, else all its diagnostics in order.
    pub fn analyse(&mut self, ast: &mut Ast) -> (result: Result<(), AnalyserErrors>)
        requires
            old(self)@.wf(),
        ensures
            final(self)@ == old(self)@.program(old(ast)@),
            annotated_all(old(self)@, old(ast)@, final(ast)@),
            result.is_ok() == (final(self)@.errors.len() == 0),
            result matches Err(errors) ==> errors_view(errors@) == final(self)@.errors,
    {
        self.analyse_statements(ast);
        self.check_main_function();
        if self.errors.is_empty() {
            Ok(())
        } else {
            let mut errors: Vec<AnalyserError> = Vec::new();
            let mut i: usize = 0;
            while i < self.errors.len()
                invariant
                    i <= self.errors@.len(),
                    errors@ == self.errors@.subrange(0, i as int),
                decreases self.errors@.len() - i,
            {
                errors.push(self.errors[i].clone());
                i += 1;
                assert(errors@ =~= self.errors@.subrange(0, i as int));
            }
            assert(errors@ =~= self.errors@);
            Err(errors)
        }
    }

    fn report(&mut self, error: AnalyserError)
        ensures
            final(self)@ == old(self)@.report(error@),
    {
        self.errors.push(error);
        assert(self@.errors =~= old(self)@.errors.push(error@));
    }

    fn push(&mut self, entry: MetaStackEntry)
        ensures
            final(self)@ == old(self)@.push(entry),
    {
        self.metastack.push(entry);
    }

    fn pop(&mut self) -> (entry: MetaStackEntry)
        requires
            old(self)@.depth() > 0,
        ensures
            final(self)@ == old(self)@.keep(old(self)@.depth() - 1),
            entry == old(self)@.metastack.last(),
    {
        let entry = self.metastack.pop().unwrap();
        assert(self@.metastack =~= old(self)@.metastack.subrange(0, old(self)@.depth() - 1));
        entry
    }

    fn clear(&mut self)
        ensures
            final(self)@ == old(self)@.clear(),
    {
        self.metastack.clear();
    }

    fn check_main_function(&mut self)
        ensures
            final(self)@ == old(self)@.entry_point(),
    {
        let main = String::from_str("main");
        match self.context.lookup(&main) {
            None => {
                self.report(AnalyserError::name_error(messages::missing_main()));
            },
            Some(MetaObject::VarType(_)) => {
                self.report(AnalyserError::name_error(messages::main_not_function()));
            },
            Some(MetaObject::FnPrototype(prototype)) => {
                if prototype.arity != 0 || prototype.return_type != Type::Void {
                    self.report(AnalyserError::type_error(messages::main_signature()));
                }
            },
        }
    }

    fn analyse_statements(&mut self, statements: &mut Vec<Statement>)
        requires
            old(self)@.wf(),
        ensures
            final(self)@ == old(self)@.statements(old(statements)@, old(statements)@.len()),
            annotated_all(old(self)@, old(statements)@, final(statements)@),
            final(self)@.scopes.len() == old(self)@.scopes.len(),
        decreases old(statements)@, 1nat,
    {
        let ghost start = self@;
        let ghost olds = statements@;
        let mut i: usize = 0;
        while i < statements.len()
            invariant
                i <= olds.len(),
                olds == old(statements)@,
                statements@.len() == olds.len(),
                self@ == start.statements(olds, i as nat),
                self@.scopes.len() == start.scopes.len(),
                start.wf(),
                forall|j: int|
                    0 <= j < i ==> annotated(
                        start.statements(olds, j as nat),
                        #[trigger] olds[j],
                        statements@[j],
                    ),
                forall|j: int| i <= j < olds.len() ==> statements@[j] == olds[j],
            decreases olds.len() - i,
        {
            let ghost before = statements@;
            let ghost current = self@;
            assert(before[i as int] == olds[i as int]);
            assert(decreases_to!(olds => olds[i as int]));
            self.analyse_statement(&mut statements[i]);
            proof {
                assert(statements@ =~= before.update(i as int, statements@[i as int]));
                assert(annotated(current, olds[i as int], statements@[i as int]));
                assert(self@ == current.statement(olds[i as int]));
                assert(start.statements(olds, (i + 1) as nat) == start.statements(
                    olds,
                    i as nat,
                ).statement(olds[i as int]));
                assert forall|j: int| 0 <= j < i + 1 implies annotated(
                    start.statements(olds, j as nat),
                    #[trigger] olds[j],
                    statements@[j],
                ) by {
                    if j < i {
                        assert(statements@[j] == before[j]);
                    }
                }
            }
            i += 1;
        }
    }

    fn analyse_statement(&mut self, statement: &mut Statement)
        requires
            old(self)@.wf(),
        ensures
            final(self)@ == old(self)@.statement(*old(statement)),
            annotated(old(self)@, *old(statement), *final(statement)),
            final(self)@.scopes.len() == old(self)@.scopes.len(),
        decreases *old(statement), 0nat,
    {
        match statement {
            Statement::If(block) => self.analyse_if_statement(block),
            Statement::Expression(expression) => self.analyse_expression(expression),
            Statement::Function(f) => self.analyse_function_declaration(f),
            Statement::Variable(variable) => self.analyse_variable_declaration(variable),
            Statement::Assignment(assignment) => self.analyse_assignment(assignment),
        }
    }

    fn analyse_assignment(&mut self, assignment: &mut StatementAssignment)
        ensures
            final(self)@ == old(self)@.assignment(*old(assignment)),
            *final(assignment) == (StatementAssignment {
                target: old(self)@.assignment_annotation(*old(assignment)),
                ..*old(assignment)
            }),
            final(self)@.scopes == old(self)@.scopes,
    {
        if self.metastack.len() < 2 {
            self.report(
                AnalyserError::arg_error(messages::assignment_operands()).at(assignment.span),
            );
            return ;
        }
        let value = match self.pop() {
            MetaStackEntry::Type(t, _) => t,
            MetaStackEntry::Identifier(_, t, _) => t,
            MetaStackEntry::VariableDeclaration(_, _, _) => {
                self.report(
                    AnalyserError::type_error(messages::assignment_right()).at(assignment.span),
                );
                return ;
            },
        };
        let (name, variable) = match self.pop() {
            MetaStackEntry::Identifier(name, t, _) => (name, t),
            MetaStackEntry::VariableDeclaration(name, t, _) => (name, t),
            MetaStackEntry::Type(_, _) => {
                self.report(
                    AnalyserError::type_error(messages::assignment_left()).at(assignment.span),
                );
                assert(self@.metastack =~= old(self)@.metastack.subrange(
                    0,
                    old(self)@.depth() - 2,
                ));
                return ;
            },
        };
        assert(self@.metastack =~= old(self)@.metastack.subrange(0, old(self)@.depth() - 2));
        if variable != value {
            self.report(
                AnalyserError::type_error(messages::assignment_type(value, &name, variable)).at(
                    assignment.span,
                ),
            );
            return ;
        }
        assignment.target = Some(name);
    }

    fn analyse_variable_declaration(&mut self, variable: &StatementVariable)
        requires
            old(self)@.wf(),
        ensures
            final(self)@ == old(self)@.variable(*variable),
            final(self)@.scopes.len() == old(self)@.scopes.len(),
    {
        if self.context.is_declared(&variable.identifier.label) {
            self.report(
                AnalyserError::name_error(messages::already_bound(&variable.identifier.label)).at(
                    variable.identifier.span,
                ),
            );
            return ;
        }
        self.context.declare(variable.identifier.label.clone(), MetaObject::VarType(variable.typ));
        self.push(
            MetaStackEntry::VariableDeclaration(
                variable.identifier.label.clone(),
                variable.typ,
                variable.span,
            ),
        );
    }

    fn analyse_if_statement(&mut self, statement: &mut StatementIf)
        requires
            old(self)@.wf(),
        ensures
            final(self)@ == old(self)@.statement(Statement::If(*old(statement))),
            annotated(
                old(self)@,
                Statement::If(*old(statement)),
                Statement::If(*final(statement)),
            ),
            final(self)@.scopes.len() == old(self)@.scopes.len(),
        decreases *old(statement), 2nat,
    {
        if self.metastack.len() == 0 {
            self.report(AnalyserError::arg_error(messages::if_condition()).at(statement.span));
            return ;
        }
        let provided = match self.pop() {
            MetaStackEntry::Type(t, _) => t,
            MetaStackEntry::Identifier(_, t, _) => t,
            MetaStackEntry::VariableDeclaration(_, _, _) => {
                self.report(AnalyserError::arg_error(messages::if_condition()).at(statement.span));
                return ;
            },
        };
        if provided != Type::Boolean {
            self.report(AnalyserError::type_error(messages::if_condition()).at(statement.span));
            return ;
        }
        let expected = self.context.expected_type();
        self.analyse_statements(&mut statement.block.statements);
        let ok = self.residual_fits(expected);
        self.clear();
        if !ok {
            self.report(
                AnalyserError::type_error(messages::if_residual(expected)).at(statement.block.span),
            );
        }
    }

    /// Whether what is on the meta-stack fits the type that a block or a function body
    /// must leave.
    fn residual_fits(&self, expected: Type) -> (ok: bool)
        ensures
            ok == residual_ok(self@.metastack, expected),
    {
        if expected == Type::Void {
            self.metastack.len() == 0
        } else if self.metastack.len() == 1 {
            match self.metastack[0].get_value_type() {
                Some(t) => t == expected,
                None => false,
            }
        } else {
            false
        }
    }

    fn analyse_function_declaration(&mut self, f: &mut StatementFunction)
        requires
            old(self)@.wf(),
        ensures
            final(self)@ == old(self)@.statement(Statement::Function(*old(f))),
            annotated(old(self)@, Statement::Function(*old(f)), Statement::Function(*final(f))),
            final(self)@.scopes.len() == old(self)@.scopes.len(),
        decreases *old(f), 2nat,
    {
        let ghost start = self@;
        let ghost decl = *f;
        self.clear();
        if self.context.current_type() != ScopeType::Global {
            self.report(
                AnalyserError::illegal_decl(messages::illegal_declaration()).at(f.identifier.span),
            );
        }
        if self.context.is_declared(&f.identifier.label) {
            self.report(
                AnalyserError::name_error(messages::already_bound(&f.identifier.label)).at(
                    f.identifier.span,
                ),
            );
        }
        let mut types: Vec<Type> = Vec::new();
        let mut i: usize = 0;
        while i < f.parameters.parameters.len()
            invariant
                i <= f.parameters.parameters@.len(),
                types@ == f.parameters.parameters@.map_values(|p: Parameter| p.typ).subrange(
                    0,
                    i as int,
                ),
            decreases f.parameters.parameters@.len() - i,
        {
            types.push(f.parameters.parameters[i].typ);
            i += 1;
            assert(types@ =~= f.parameters.parameters@.map_values(|p: Parameter| p.typ).subrange(
                0,
                i as int,
            ));
        }
        assert(types@ =~= f.parameters.parameters@.map_values(|p: Parameter| p.typ));
        let prototype = FunctionPrototype::new(types.len(), f.return_type, types);
        assert(prototype@ == prototype_of(decl));
        self.context.declare(f.identifier.label.clone(), MetaObject::FnPrototype(prototype));
        self.context.enter_scope(ScopeType::Function, f.return_type);
        assert(self@ == start.open_function(decl));
        let ghost opened = self@;
        let mut k: usize = 0;
        while k < f.parameters.parameters.len()
            invariant
                k <= f.parameters.parameters@.len(),
                *f == decl,
                self@ == opened.parameters(decl, k as nat),
                self@.scopes.len() == start.scopes.len() + 1,
            decreases f.parameters.parameters@.len() - k,
        {
            let parameter = &f.parameters.parameters[k];
            if self.context.is_declared(&parameter.identifier.label) {
                self.report(
                    AnalyserError::name_error(
                        messages::duplicated_parameter(
                            &parameter.identifier.label,
                            &f.identifier.label,
                        ),
                    ).at(parameter.identifier.span),
                );
            }
            self.context.declare(
                parameter.identifier.label.clone(),
                MetaObject::VarType(parameter.typ),
            );
            k += 1;
        }
        self.analyse_statements(&mut f.body.statements);
        let ok = self.residual_fits(f.return_type);
        self.clear();
        if !ok {
            self.report(
                AnalyserError::type_error(
                    messages::function_residual(&f.identifier.label, f.return_type),
                ).at(f.body.span),
            );
        }
        self.context.leave_scope();
    }

    fn analyse_expression(&mut self, expression: &mut StatementExpression)
        requires
            old(self)@.wf(),
        ensures
            final(self)@ == old(self)@.expression(*old(expression)),
            annotated_expression(old(self)@, *old(expression), *final(expression)),
            final(self)@.scopes == old(self)@.scopes,
    {
        match expression {
            StatementExpression::Literal(literal) => self.analyse_literal_expression(literal),
            StatementExpression::Call(call) => self.analyse_function_call(call),
            StatementExpression::Binary(binary) => self.analyse_binop(binary),
            StatementExpression::Identifier(identifier) => self.analyse_identifier(identifier),
            StatementExpression::Return(ret) => self.analyse_return_expression(ret),
        }
    }

    fn analyse_identifier(&mut self, identifier: &Identifier)
        ensures
            final(self)@ == old(self)@.identifier(*identifier),
    {
        match self.context.lookup(&identifier.label) {
            None => {
                self.report(
                    AnalyserError::name_error(messages::unbound(&identifier.label)).at(
                        identifier.span,
                    ),
                );
            },
            Some(MetaObject::FnPrototype(_)) => {
                self.report(
                    AnalyserError::type_error(messages::not_variable(&identifier.label)).at(
                        identifier.span,
                    ),
                );
            },
            Some(MetaObject::VarType(t)) => {
                self.push(MetaStackEntry::Identifier(identifier.label.clone(), t, identifier.span));
            },
        }
    }

    fn analyse_binop(&mut self, binary: &mut ExpressionBinary)
        ensures
            final(self)@ == old(self)@.binary(*old(binary)),
            *final(binary) == (ExpressionBinary {
                operands_types: old(self)@.binary_annotation(*old(binary)),
                ..*old(binary)
            }),
    {
        let op = binary.operator;
        if self.metastack.len() < 2 {
            self.report(AnalyserError::arg_error(messages::missing_operands(op)).at(binary.span));
            return ;
        }
        let rhs = self.pop();
        let rhs_type = match rhs.get_value_type() {
            Some(t) => t,
            None => {
                self.report(AnalyserError::type_error(messages::right_side(op)).at(binary.span));
                return ;
            },
        };
        let lhs = self.pop();
        assert(self@.metastack =~= old(self)@.metastack.subrange(0, old(self)@.depth() - 2));
        let lhs_type = match lhs.get_value_type() {
            Some(t) => t,
            None => {
                self.report(AnalyserError::type_error(messages::left_side(op)).at(binary.span));
                return ;
            },
        };
        let lhs_span = lhs.get_span();
        let span = Span::new(lhs_span.line, lhs_span.column, lhs_span.start, binary.span.end);
        if lhs_type != rhs_type {
            self.report(
                AnalyserError::type_error(messages::operand_mismatch(op, lhs_type, rhs_type)).at(
                    span,
                ),
            );
            return ;
        }
        match operator_result_type(op, lhs_type) {
            None => {
                self.report(AnalyserError::type_error(messages::unsupported(op, lhs_type)).at(span));
            },
            Some(result) => {
                binary.operands_types = Some(lhs_type);
                self.push(MetaStackEntry::Type(result, span));
            },
        }
    }

    fn analyse_literal_expression(&mut self, literal: &ExpressionLiteral)
        ensures
            final(self)@ == old(self)@.literal(*literal),
    {
        match literal {
            ExpressionLiteral::Integer(integer) => self.push(
                MetaStackEntry::Type(Type::Integer, integer.span),
            ),
            ExpressionLiteral::String(string) => self.push(
                MetaStackEntry::Type(Type::String, string.span),
            ),
            ExpressionLiteral::Boolean(boolean) => self.push(
                MetaStackEntry::Type(Type::Boolean, boolean.span),
            ),
        }
    }

    fn analyse_function_call(&mut self, call: &ExpressionCall)
        ensures
            final(self)@ == old(self)@.call(*call),
    {
        let name = &call.identifier.label;
        let prototype = match self.context.lookup(name) {
            None => {
                self.report(AnalyserError::name_error(messages::unbound(name)).at(call.span));
                return ;
            },
            Some(MetaObject::VarType(_)) => {
                self.report(AnalyserError::type_error(messages::not_callable(name)).at(call.span));
                return ;
            },
            Some(MetaObject::FnPrototype(prototype)) => prototype,
        };
        let depth = self.metastack.len();
        if depth < prototype.arity {
            self.clear();
            self.report(AnalyserError::arg_error(messages::missing_arguments(name)).at(call.span));
            return ;
        }
        let base = depth - prototype.arity;
        let ghost start = self@;
        let ghost args = start.metastack.subrange(base as int, depth as int);
        let mut i: usize = 0;
        while i < prototype.arity
            invariant
                i <= prototype.arity,
                base + prototype.arity == depth,
                depth == start.metastack.len(),
                args == start.metastack.subrange(base as int, depth as int),
                self@.scopes == start.scopes,
                self@.metastack == start.metastack,
                self@.errors == start.errors + argument_errors(
                    args,
                    prototype@,
                    name@,
                    i as nat,
                ),
            decreases prototype.arity - i,
        {
            let entry = &self.metastack[base + i];
            assert(*entry == args[i as int]);
            let span = entry.get_span();
            let ghost before = self@.errors;
            match entry.get_value_type() {
                None => {
                    self.report(
                        AnalyserError::arg_error(messages::argument_not_expression()).at(span),
                    );
                },
                Some(t) => {
                    if i < prototype.parameters_types.len() && prototype.parameters_types[i] != t {
                        self.report(
                            AnalyserError::type_error(
                                messages::argument_type(name, prototype.parameters_types[i], t),
                            ).at(span),
                        );
                    }
                },
            }
            assert(self@.errors =~= before + argument_errors_at(
                args,
                prototype@,
                name@,
                i as int,
            ));
            i += 1;
            assert(self@.errors =~= start.errors + argument_errors(
                args,
                prototype@,
                name@,
                i as nat,
            ));
        }
        self.metastack.truncate(base);
        assert(self@.metastack =~= start.metastack.subrange(0, base as int));
        if prototype.return_type != Type::Void {
            self.push(MetaStackEntry::Type(prototype.return_type, call.span));
        }
    }

    fn analyse_return_expression(&mut self, ret: &mut ExpressionReturn)
        ensures
            final(self)@ == old(self)@,
            *final(ret) == (ExpressionReturn {
                typ: Some(old(self)@.return_annotation()),
                ..*old(ret)
            }),
    {
        let depth = self.metastack.len();
        if depth == 0 {
            ret.typ = Some(Type::Void);
        } else {
            match self.metastack[depth - 1].get_value_type() {
                Some(t) => {
                    ret.typ = Some(t);
                },
                None => {
                    ret.typ = Some(Type::Void);
                },
            }
        }
    }
}

} // verus!
