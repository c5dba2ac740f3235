use bug::analysis::errorhandler::{AnalyserError, AnalyserErrorKind};
use bug::analysis::scope::{Context, MetaObject, Scope, ScopeType};
use bug::analysis::Analyser;
use bug::ast::{
    BinaryOperator, ExpressionBinary, ExpressionCall, ExpressionLiteral, ExpressionReturn,
    Identifier, LiteralBoolean, LiteralInteger, LiteralString, Parameter, Parameters, Statement,
    StatementAssignment, StatementBlock, StatementExpression, StatementFunction, StatementIf,
    StatementVariable,
};
use bug::bytecode::{ByteCodeStream, Opcode, PushOperand};
use bug::codegen::model::GeneratorErrorKind;
use bug::codegen::CodeGenerator;
use bug::compiler::{compile, CompileError};
use bug::diagnostics::{Checker, Diagnostics};
use bug::engine::frame::{Frame, Locals};
use bug::engine::model::RuntimeErrorKind;
use bug::engine::{Engine, Signal};
use bug::object::{Object, Type};
use bug::parser::parse_source;
use bug::pool::Pool;
use bug::program::{DefinedFn, FunctionPrototype, NamedFn, Program};
use bug::span::Span;
use bug::stack::Stack;
use bug::stdlib::{list_natives, NativeFn};

fn ident(name: &str) -> Identifier {
    Identifier::new(Span::default(), name.to_string())
}

fn function(name: &str, return_type: Type, statements: Vec<Statement>) -> Statement {
    let mut body = StatementBlock::new();
    body.statements = statements;
    Statement::Function(StatementFunction::new(
        ident(name),
        Parameters::new(),
        return_type,
        body,
        Span::default(),
    ))
}

fn diagnostics_of(source: &str) -> Vec<AnalyserError> {
    let mut ast = parse_source(source).unwrap();
    let mut analyser = Analyser::make();
    match analyser.analyse(&mut ast) {
        Ok(()) => vec![],
        Err(errors) => errors,
    }
}

fn first(source: &str) -> (AnalyserErrorKind, String) {
    let errors = diagnostics_of(source);
    assert!(!errors.is_empty());
    (errors[0].kind, errors[0].msg.clone())
}

fn single(source: &str) -> (AnalyserErrorKind, String) {
    let errors = diagnostics_of(source);
    assert_eq!(errors.len(), 1, "{:?}", errors);
    (errors[0].kind, errors[0].msg.clone())
}

#[test]
fn checker_reports_unbound_and_misused_names() {
    assert_eq!(first("f main -> x ;"), (AnalyserErrorKind::Name, "'x' is unbound".to_string()));
    assert_eq!(
        first("f main -> main ;"),
        (AnalyserErrorKind::Type, "'main' is not a variable".to_string())
    );
    assert_eq!(
        first("f main -> int x .x ;"),
        (AnalyserErrorKind::Type, "'x' is not callable".to_string())
    );
    assert_eq!(
        first("f main -> int x int x ;"),
        (AnalyserErrorKind::Name, "'x' is already bound".to_string())
    );
    assert_eq!(
        first("f main -> ; f main -> ;"),
        (AnalyserErrorKind::Name, "'main' is already bound".to_string())
    );
    assert_eq!(
        first("f write -> ; f main -> ;"),
        (AnalyserErrorKind::Name, "'write' is already bound".to_string())
    );
    assert_eq!(
        first("f two (int a, int a) -> ; f main -> ;"),
        (
            AnalyserErrorKind::Name,
            "Duplicated parameter name 'a' for function 'two'".to_string()
        )
    );
}

#[test]
fn checker_reports_operator_misuse() {
    assert_eq!(
        first("f main -> 1 + ;"),
        (AnalyserErrorKind::Argument, "Missing operands for '+' operation".to_string())
    );
    assert_eq!(
        first("f main -> 1 \"a\" - ;"),
        (
            AnalyserErrorKind::Type,
            "Operands of '-' operation must be of same type, but provided 'int' and 'str'"
                .to_string()
        )
    );
    assert_eq!(
        first("f main -> \"a\" \"b\" + ;"),
        (AnalyserErrorKind::Type, "'+' operation not supported for 'str' type".to_string())
    );
    assert_eq!(
        first("f main -> true false > ;"),
        (AnalyserErrorKind::Type, "'>' operation not supported for 'bool' type".to_string())
    );
    assert_eq!(
        first("f main -> 1 int x + ;"),
        (
            AnalyserErrorKind::Type,
            "Right side of '+' operation must be an expression".to_string()
        )
    );
    assert_eq!(
        first("f main -> int x 1 + ;"),
        (AnalyserErrorKind::Type, "Left side of '+' operation must be an expression".to_string())
    );
}

#[test]
fn checker_reports_call_misuse() {
    assert_eq!(
        single("f id (int a) int -> a ; f main -> \"a\" .id .write ;"),
        (
            AnalyserErrorKind::Type,
            "Function 'id' expects an argument of type 'int' but got 'str'".to_string()
        )
    );
    assert_eq!(
        single("f main -> int x .write ;"),
        (AnalyserErrorKind::Argument, "Function argument must be an expression".to_string())
    );
    let errors = diagnostics_of("f two (int a, str b) -> ; f main -> \"a\" 1 .two ;");
    assert_eq!(errors.len(), 2);
    assert_eq!(errors[0].msg, "Function 'two' expects an argument of type 'int' but got 'str'");
    assert_eq!(errors[1].msg, "Function 'two' expects an argument of type 'str' but got 'int'");
}

#[test]
fn checker_reports_assignment_misuse() {
    assert_eq!(
        first("f main -> 1 = ;"),
        (AnalyserErrorKind::Argument, "Assignment (=) expects two operands on stack".to_string())
    );
    assert_eq!(
        first("f main -> 1 2 = ;"),
        (AnalyserErrorKind::Type, "Cannot assign to a non-variable".to_string())
    );
    assert_eq!(
        first("f main -> int x int y = ;"),
        (AnalyserErrorKind::Type, "Right side of assignment must be an expression".to_string())
    );
    assert_eq!(
        first("f main -> int x \"a\" = ;"),
        (
            AnalyserErrorKind::Type,
            "Cannot assign value of type 'str' to variable 'x' which has type 'int'".to_string()
        )
    );
}

#[test]
fn checker_reports_if_misuse() {
    assert_eq!(
        single("f main -> if -> ; ;"),
        (AnalyserErrorKind::Argument, "'if' expects boolean value on top of the stack".to_string())
    );
    assert_eq!(
        single("f main -> 1 if -> ; ;"),
        (AnalyserErrorKind::Type, "'if' expects boolean value on top of the stack".to_string())
    );
    assert_eq!(
        single("f main -> bool b if -> ; ;"),
        (AnalyserErrorKind::Argument, "'if' expects boolean value on top of the stack".to_string())
    );
    assert_eq!(
        single("f main -> true if -> 1 ; ;"),
        (AnalyserErrorKind::Type, "'if' block must leave 'void' on the stack".to_string())
    );
    assert_eq!(
        single("f one int -> true if -> ; 1 ; f main -> ;"),
        (AnalyserErrorKind::Type, "'if' block must leave 'int' on the stack".to_string())
    );
    assert_eq!(
        single("f one int -> true if -> 1 2 ; 1 ; f main -> ;"),
        (AnalyserErrorKind::Type, "'if' block must leave 'int' on the stack".to_string())
    );
}

#[test]
fn checker_reports_function_residual() {
    assert_eq!(
        single("f main -> 1 ;"),
        (AnalyserErrorKind::Type, "Function 'main' must leave 'void' on the stack".to_string())
    );
    assert_eq!(
        single("f one int -> 1 2 ; f main -> ;"),
        (AnalyserErrorKind::Type, "Function 'one' must leave 'int' on the stack".to_string())
    );
}

#[test]
fn checker_reports_nested_function() {
    let inner = function("inner", Type::Void, vec![]);
    let mut ast = vec![function("main", Type::Void, vec![inner])];
    let mut analyser = Analyser::make();
    let errors = analyser.analyse(&mut ast).unwrap_err();
    assert_eq!(errors.len(), 1);
    assert_eq!(errors[0].kind, AnalyserErrorKind::IllegalDeclaration);
    assert_eq!(errors[0].msg, "Functions must be only declared in global scope");
    assert_eq!(analyser.context.scopes.len(), 1);
}

#[test]
fn checker_enforces_entry_point() {
    assert_eq!(single(""), (AnalyserErrorKind::Name, "Missing 'main' function".to_string()));
    assert_eq!(
        single("f main (int a) -> ;"),
        (
            AnalyserErrorKind::Type,
            "'main' function cannot accept args or return some value".to_string()
        )
    );
    assert_eq!(
        single("f main int -> 1 ;"),
        (
            AnalyserErrorKind::Type,
            "'main' function cannot accept args or return some value".to_string()
        )
    );
    assert_eq!(
        single("int main"),
        (AnalyserErrorKind::Name, "'main' must be declared as function".to_string())
    );
}

#[test]
fn checker_goes_on_after_an_error() {
    let errors = diagnostics_of("f main -> x y ; f other -> z ;");
    let messages: Vec<&str> = errors.iter().map(|e| e.msg.as_str()).collect();
    assert_eq!(messages, vec!["'x' is unbound", "'y' is unbound", "'z' is unbound"]);
}

#[test]
fn checker_allows_self_reference() {
    assert!(diagnostics_of("f again -> .again ; f main -> .again ;").is_empty());
    assert_eq!(diagnostics_of("f main -> .later ; f later -> ;").len(), 1);
}

#[test]
fn checker_lets_a_local_shadow_a_global_name() {
    assert!(diagnostics_of("f main -> int write 1 = write .write ;").is_empty() == false);
    assert!(diagnostics_of("f other -> ; f main -> int other 1 = ;").is_empty());
}

#[test]
fn analyser_error_constructors_set_kind_and_message() {
    let error = AnalyserError::type_error("t".to_string());
    assert_eq!((error.kind, error.msg.as_str(), error.span), (AnalyserErrorKind::Type, "t", Span::default()));
    let error = AnalyserError::name_error("n".to_string());
    assert_eq!((error.kind, error.msg.as_str()), (AnalyserErrorKind::Name, "n"));
    let error = AnalyserError::arg_error("a".to_string());
    assert_eq!((error.kind, error.msg.as_str()), (AnalyserErrorKind::Argument, "a"));
    let error = AnalyserError::illegal_decl("i".to_string()).at(Span::new(1, 2, 3, 4));
    assert_eq!(error.kind, AnalyserErrorKind::IllegalDeclaration);
    assert_eq!(error.span, Span::new(1, 2, 3, 4));
    assert_eq!(error.to_text(), "[Illegal Declaration]: i");
    assert_eq!(AnalyserError::type_error("m".to_string()).to_text(), "[Type Error]: m");
    assert_eq!(AnalyserError::name_error("m".to_string()).to_text(), "[Name Error]: m");
    assert_eq!(AnalyserError::arg_error("m".to_string()).to_text(), "[Argument Error]: m");
    assert_eq!(error.clone(), error);
}

#[test]
fn diagnostics_are_rendered_with_header_and_snippet() {
    let source = "f main ->\n  .nope ;";
    let mut ast = parse_source(source).unwrap();
    let mut checker = Checker::new("demo.bug", source, list_natives());
    let diagnostics = checker.check(&mut ast).unwrap();
    assert_eq!(diagnostics.emit_all(), 1);
    let expected = "\u{1b}[38;5;4mdemo.bug\u{1b}[0m:\u{1b}[38;5;5m2\u{1b}[0m:\u{1b}[38;5;5m3\u{1b}[0m\u{1b}[1;31m ERROR\u{1b}[0m 'nope' is unbound\n\n    |\n  2 |   \u{1b}[4m\u{1b}[31m.\u{1b}[0m\u{1b}[4m\u{1b}[31mn\u{1b}[0m\u{1b}[4m\u{1b}[31mo\u{1b}[0m\u{1b}[4m\u{1b}[31mp\u{1b}[0m\u{1b}[4m\u{1b}[31me\u{1b}[0m ;\n    |\n\n";
    assert_eq!(checker.report(&diagnostics), expected);
    assert_eq!(diagnostics.render("demo.bug", source), expected);
    assert_eq!(diagnostics.diagnostics[0].render("demo.bug", source), expected);
}

#[test]
fn diagnostics_collect_in_order() {
    let mut diagnostics = Diagnostics::new();
    assert_eq!(diagnostics.emit_all(), 0);
    diagnostics.emit(AnalyserError::type_error("a".to_string()));
    diagnostics.emit(AnalyserError::name_error("b".to_string()));
    assert_eq!(diagnostics.emit_all(), 2);
    assert_eq!(diagnostics.diagnostics[1].msg, "b");
    assert!(diagnostics.render("p", "x").contains("ERROR\u{1b}[0m a\n\n"));
}

#[test]
fn accepted_tree_has_no_diagnostics() {
    let source = "f main -> ;";
    let mut ast = parse_source(source).unwrap();
    let mut checker = Checker::new("demo.bug", source, list_natives());
    assert!(checker.check(&mut ast).is_none());
}

#[test]
fn scope_binds_and_hides() {
    let mut scope = Scope::make(ScopeType::Function, Type::Integer);
    assert_eq!(scope.type_, ScopeType::Function);
    assert_eq!(scope.expected_type, Type::Integer);
    assert!(!scope.is_declared("x"));
    assert_eq!(scope.lookup("x"), None);
    scope.declare("x".to_string(), MetaObject::VarType(Type::Integer));
    assert!(scope.is_declared("x"));
    assert_eq!(scope.lookup("x"), Some(MetaObject::VarType(Type::Integer)));
    scope.declare("x".to_string(), MetaObject::VarType(Type::String));
    assert_eq!(scope.lookup("x"), Some(MetaObject::VarType(Type::String)));
    assert_eq!(scope.lookup_key(&"y".to_string()), None);
}

#[test]
fn global_scope_binds_natives() {
    let scope = Scope::make_global(&list_natives());
    assert_eq!(scope.type_, ScopeType::Global);
    assert_eq!(scope.expected_type, Type::Void);
    assert_eq!(
        scope.lookup("write"),
        Some(MetaObject::FnPrototype(FunctionPrototype::new(1, Type::Void, vec![])))
    );
    assert!(!scope.is_declared("read"));
}

#[test]
fn context_looks_from_innermost_scope_outward() {
    let mut context = Context::make_global(&list_natives());
    let write = "write".to_string();
    let x = "x".to_string();
    assert!(context.is_declared(&write));
    context.enter_scope(ScopeType::Function, Type::Boolean);
    assert_eq!(context.current_type(), ScopeType::Function);
    assert_eq!(context.expected_type(), Type::Boolean);
    assert!(!context.is_declared(&write));
    assert!(context.lookup_locally(&write).is_none());
    assert!(matches!(context.lookup(&write), Some(MetaObject::FnPrototype(_))));
    context.declare(write.clone(), MetaObject::VarType(Type::Integer));
    context.declare(x.clone(), MetaObject::VarType(Type::String));
    assert_eq!(context.lookup(&write), Some(MetaObject::VarType(Type::Integer)));
    context.leave_scope();
    assert!(matches!(context.lookup(&write), Some(MetaObject::FnPrototype(_))));
    assert_eq!(context.lookup(&x), None);
    assert_eq!(context.current_type(), ScopeType::Global);
}

#[test]
fn natives_hold_write() {
    let natives = list_natives();
    assert_eq!(natives.len(), 1);
    assert_eq!(natives[0].name, "write");
    assert_eq!(natives[0].prototype.arity, 1);
    assert_eq!(natives[0].prototype.return_type, Type::Void);
    assert!(natives[0].prototype.parameters_types.is_empty());
    assert_eq!(natives[0].prototype.clone(), natives[0].prototype);
}

#[test]
fn bytecode_stream_pushes_and_patches() {
    let mut stream = ByteCodeStream::empty();
    assert_eq!(stream.get_pos(), 0);
    assert_eq!(stream.get_at(0), None);
    stream.push(Opcode::Nop);
    stream.push(Opcode::IAdd);
    assert_eq!(stream.get_pos(), 2);
    assert!(stream.push_at(Opcode::JumpIfFalse(2), 0));
    assert!(!stream.push_at(Opcode::Return, 2));
    assert_eq!(stream.code, vec![Opcode::JumpIfFalse(2), Opcode::IAdd]);
    assert_eq!(stream.get_at(1), Some(&Opcode::IAdd));
    assert_eq!(stream.clone(), stream);
    stream.clear();
    assert_eq!(stream.get_pos(), 0);
    let stream = ByteCodeStream::from(vec![Opcode::Return]);
    assert_eq!(stream.code, vec![Opcode::Return]);
    assert_eq!(Opcode::Invoke("f".to_string()).clone(), Opcode::Invoke("f".to_string()));
}

#[test]
fn pool_appends_and_finds_by_index() {
    let mut pool = Pool::make();
    assert_eq!(pool.get_by_index(0), None);
    assert_eq!(pool.append(Object::String("a".to_string())), 0);
    assert_eq!(pool.append(Object::Integer(2)), 1);
    assert_eq!(pool.get_by_index(0), Some(&Object::String("a".to_string())));
    assert_eq!(pool.get_by_index(1), Some(&Object::Integer(2)));
    assert_eq!(pool.get_by_index(2), None);
    assert_eq!(pool.clone(), pool);
}

#[test]
fn stack_is_last_in_first_out() {
    let mut stack: Stack<i32> = Stack::new();
    assert!(stack.is_empty());
    assert_eq!(stack.pop(), None);
    stack.push(1);
    stack.push(2);
    assert_eq!(stack.len(), 2);
    assert!(!stack.is_empty());
    assert_eq!(stack.pop(), Some(2));
    assert_eq!(stack.pop(), Some(1));
    assert_eq!(stack.pop(), None);
    let made: Stack<bool> = Stack::make();
    assert!(made.is_empty());
}

#[test]
fn objects_and_types_know_their_names_and_kinds() {
    assert_eq!(Type::Void.name(), "void");
    assert_eq!(Type::String.name(), "str");
    assert_eq!(Type::Integer.name(), "int");
    assert_eq!(Type::Boolean.name(), "bool");
    assert_eq!(Object::Integer(1).kind(), Type::Integer);
    assert_eq!(Object::String("s".to_string()).kind(), Type::String);
    assert_eq!(Object::Boolean(true).kind(), Type::Boolean);
    assert_eq!(Object::String("s".to_string()).clone(), Object::String("s".to_string()));
    assert_eq!(BinaryOperator::Plus.symbol(), "+");
    assert_eq!(BinaryOperator::Minus.symbol(), "-");
    assert_eq!(BinaryOperator::GratherThan.symbol(), ">");
}

#[test]
fn node_constructors_keep_their_arguments() {
    let span = Span::new(1, 2, 3, 4);
    assert_eq!(span, Span { line: 1, column: 2, start: 3, end: 4 });
    assert_eq!(Span::default(), Span { line: 0, column: 0, start: 0, end: 0 });
    let call = ExpressionCall::new(span, ident("f"));
    assert_eq!((call.span, call.identifier.label.as_str()), (span, "f"));
    let binary = ExpressionBinary::new(BinaryOperator::Minus, span);
    assert_eq!((binary.operator, binary.span, binary.operands_types), (BinaryOperator::Minus, span, None));
    assert_eq!(LiteralString::new(span, "s".to_string()).inner, "s");
    assert_eq!(LiteralInteger::new(span, 7).inner, 7);
    assert!(LiteralBoolean::new(span, true).inner);
    assert_eq!(ExpressionReturn::new(span).typ, None);
    assert_eq!(StatementAssignment::new(span).target, None);
    let parameter = Parameter::new(ident("a"), Type::Integer, span);
    assert_eq!((parameter.typ, parameter.span), (Type::Integer, span));
    let variable = StatementVariable::new(ident("v"), Type::String, span);
    assert_eq!((variable.typ, variable.identifier.label.as_str()), (Type::String, "v"));
    let conditional = StatementIf::new(StatementBlock::new(), span);
    assert_eq!(conditional.span, span);
    assert!(conditional.block.statements.is_empty());
    for (expression, expected) in [
        (StatementExpression::Call(ExpressionCall::new(span, ident("f"))), span),
        (StatementExpression::Binary(ExpressionBinary::new(BinaryOperator::Plus, span)), span),
        (
            StatementExpression::Literal(ExpressionLiteral::Integer(LiteralInteger::new(
                Span::new(9, 9, 9, 9),
                1,
            ))),
            Span::new(9, 9, 9, 9),
        ),
        (StatementExpression::Identifier(Identifier::new(span, "x".to_string())), span),
        (StatementExpression::Return(ExpressionReturn::new(span)), span),
    ] {
        assert_eq!(expression.get_span(), expected);
    }
    let f = DefinedFn::new(3, 1, ByteCodeStream::empty(), 2);
    assert_eq!((f.start_line, f.arity, f.max_locals), (3, 1, 2));
    assert_eq!(DefinedFn::default(), DefinedFn::new(0, 0, ByteCodeStream::empty(), 0));
    assert_eq!(f.clone(), f);
}

fn generate(statement: Statement) -> GeneratorErrorKind {
    let mut generator = CodeGenerator::make();
    generator.gen(vec![function("main", Type::Void, vec![statement])]).unwrap_err().kind
}

#[test]
fn generator_fails_on_trees_that_the_checker_rejects() {
    let span = Span::default();
    assert_eq!(
        generate(Statement::Expression(StatementExpression::Identifier(ident("x")))),
        GeneratorErrorKind::UnknownLocal
    );
    assert_eq!(
        generate(Statement::Expression(StatementExpression::Binary(ExpressionBinary::new(
            BinaryOperator::Plus,
            span
        )))),
        GeneratorErrorKind::MissingAnnotation
    );
    let mut binary = ExpressionBinary::new(BinaryOperator::Plus, span);
    binary.operands_types = Some(Type::String);
    assert_eq!(
        generate(Statement::Expression(StatementExpression::Binary(binary))),
        GeneratorErrorKind::UnsupportedOperands
    );
    assert_eq!(
        generate(Statement::Expression(StatementExpression::Return(ExpressionReturn::new(span)))),
        GeneratorErrorKind::MissingAnnotation
    );
    assert_eq!(
        generate(Statement::Assignment(StatementAssignment::new(span))),
        GeneratorErrorKind::MissingAnnotation
    );
    let mut assignment = StatementAssignment::new(span);
    assignment.target = Some("x".to_string());
    assert_eq!(generate(Statement::Assignment(assignment)), GeneratorErrorKind::UnknownLocal);
    assert_eq!(generate(function("inner", Type::Void, vec![])), GeneratorErrorKind::NestedFunction);
    let mut generator = CodeGenerator::make();
    let twice = vec![
        Statement::Variable(StatementVariable::new(ident("x"), Type::Integer, span)),
        Statement::Variable(StatementVariable::new(ident("x"), Type::Integer, span)),
    ];
    assert_eq!(
        generator.gen(vec![function("main", Type::Void, twice)]).unwrap_err().kind,
        GeneratorErrorKind::DuplicateLocal
    );
    let mut generator = CodeGenerator::make();
    let error = generator
        .gen(vec![function("main", Type::Void, vec![]), function("main", Type::Void, vec![])])
        .unwrap_err();
    assert_eq!(error.kind, GeneratorErrorKind::DuplicateFunction);
}

#[test]
fn generator_terminates_functions_by_return_type() {
    let mut generator = CodeGenerator::make();
    let program = generator
        .gen(vec![
            function("a", Type::Void, vec![]),
            function("b", Type::Integer, vec![]),
            function("c", Type::String, vec![]),
            function("d", Type::Boolean, vec![]),
        ])
        .unwrap();
    let ends: Vec<Opcode> =
        program.fns.iter().map(|f| f.function.code.code[0].clone()).collect();
    assert_eq!(ends, vec![Opcode::Return, Opcode::IReturn, Opcode::IReturn, Opcode::IReturn]);
    let names: Vec<&str> = program.fns.iter().map(|f| f.name.as_str()).collect();
    assert_eq!(names, vec!["a", "b", "c", "d"]);
}

#[test]
fn compile_reports_generator_failure_on_accepted_tree() {
    // A variable of the top level is in scope for the checker but is no local.
    let mut ast = parse_source("int x f main -> x .write ;").unwrap();
    match compile(&mut ast, &list_natives()) {
        Err(CompileError::Generator(error)) => {
            assert_eq!(error.kind, GeneratorErrorKind::UnknownLocal)
        }
        other => panic!("expected a generator failure, got {:?}", other),
    }
}

fn engine_for(code: Vec<Opcode>, pool: Vec<Object>) -> Engine {
    let program = Program {
        pool: Pool { entries: pool },
        fns: vec![
            NamedFn {
                name: "main".to_string(),
                function: DefinedFn::new(0, 0, ByteCodeStream::from(code), 1),
            },
            NamedFn {
                name: "wide".to_string(),
                function: DefinedFn::new(0, 2, ByteCodeStream::from(vec![Opcode::Return]), 1),
            },
            NamedFn {
                name: "pair".to_string(),
                function: DefinedFn::new(
                    0,
                    2,
                    ByteCodeStream::from(vec![Opcode::LLoad(0), Opcode::IReturn]),
                    3,
                ),
            },
        ],
    };
    let natives = vec![
        NativeFn { name: "write".to_string(), prototype: FunctionPrototype::new(1, Type::Void, vec![]) },
        NativeFn {
            name: "both".to_string(),
            prototype: FunctionPrototype::new(2, Type::Integer, vec![Type::Integer, Type::Integer]),
        },
    ];
    let mut engine = Engine::bootstrap(program, natives);
    engine.setup_main_frame().unwrap();
    engine
}

fn fault_of(code: Vec<Opcode>) -> RuntimeErrorKind {
    let mut engine = engine_for(code, vec![]);
    match engine.run(100) {
        Signal::Fault(error) => {
            assert_eq!(error.function, "main");
            error.kind
        }
        other => panic!("expected a fault, got {:?}", other),
    }
}

#[test]
fn engine_faults_name_their_kind() {
    let one = Opcode::Push(PushOperand::Integer(1));
    let yes = Opcode::Push(PushOperand::Boolean(true));
    assert_eq!(fault_of(vec![]), RuntimeErrorKind::FetchOutOfRange);
    assert_eq!(fault_of(vec![Opcode::Nop]), RuntimeErrorKind::FetchOutOfRange);
    assert_eq!(fault_of(vec![Opcode::Jump(7)]), RuntimeErrorKind::FetchOutOfRange);
    assert_eq!(fault_of(vec![Opcode::Ldc(0)]), RuntimeErrorKind::PoolOutOfRange);
    assert_eq!(fault_of(vec![Opcode::LLoad(1)]), RuntimeErrorKind::LocalsOutOfRange);
    assert_eq!(fault_of(vec![one.clone(), Opcode::LStore(1)]), RuntimeErrorKind::LocalsOutOfRange);
    assert_eq!(fault_of(vec![Opcode::LStore(0)]), RuntimeErrorKind::StackUnderflow);
    assert_eq!(fault_of(vec![one.clone(), Opcode::IAdd]), RuntimeErrorKind::StackUnderflow);
    assert_eq!(fault_of(vec![Opcode::ISub]), RuntimeErrorKind::StackUnderflow);
    assert_eq!(fault_of(vec![one.clone(), yes.clone(), Opcode::IAdd]), RuntimeErrorKind::TypeMismatch);
    assert_eq!(fault_of(vec![yes.clone(), one.clone(), Opcode::ICmpGT]), RuntimeErrorKind::TypeMismatch);
    assert_eq!(fault_of(vec![Opcode::JumpIfFalse(0)]), RuntimeErrorKind::StackUnderflow);
    assert_eq!(fault_of(vec![one.clone(), Opcode::JumpIfFalse(0)]), RuntimeErrorKind::TypeMismatch);
    assert_eq!(fault_of(vec![Opcode::Invoke("nobody".to_string())]), RuntimeErrorKind::UndefinedCallee);
    assert_eq!(fault_of(vec![Opcode::Invoke("write".to_string())]), RuntimeErrorKind::StackUnderflow);
    assert_eq!(fault_of(vec![one.clone(), Opcode::Invoke("pair".to_string())]), RuntimeErrorKind::StackUnderflow);
    assert_eq!(
        fault_of(vec![one.clone(), one.clone(), Opcode::Invoke("wide".to_string())]),
        RuntimeErrorKind::LocalsOutOfRange
    );
    assert_eq!(fault_of(vec![Opcode::IReturn]), RuntimeErrorKind::StackUnderflow);
    assert_eq!(fault_of(vec![one.clone(), Opcode::IReturn]), RuntimeErrorKind::StackUnderflow);
}

#[test]
fn engine_fault_leaves_the_state_as_it_was() {
    let mut engine = engine_for(vec![Opcode::Push(PushOperand::Integer(1)), Opcode::IAdd], vec![]);
    assert!(matches!(engine.step(), Signal::Continue));
    assert!(matches!(engine.step(), Signal::Fault(_)));
    assert_eq!(engine.frame.ip, 1);
    assert_eq!(engine.frame.stack.inner, vec![Object::Integer(1)]);
    assert!(!engine.should_halt);
    assert!(engine.engine_should_run());
}

#[test]
fn engine_passes_arguments_in_order() {
    let code = vec![
        Opcode::Push(PushOperand::Integer(1)),
        Opcode::Push(PushOperand::Integer(2)),
        Opcode::Invoke("both".to_string()),
        Opcode::Push(PushOperand::Integer(3)),
        Opcode::Invoke("pair".to_string()),
        Opcode::LStore(0),
        Opcode::Return,
    ];
    let mut engine = engine_for(code, vec![]);
    match engine.run(100) {
        Signal::Native { name, arguments } => {
            assert_eq!(name, "both");
            assert_eq!(arguments, vec![Object::Integer(1), Object::Integer(2)]);
        }
        other => panic!("expected a native call, got {:?}", other),
    }
    assert!(engine.frame.stack.inner.is_empty());
    engine.resume(Some(Object::Integer(7)));
    assert_eq!(engine.frame.stack.inner, vec![Object::Integer(7)]);
    // `pair` is entered with the two values as its first locals and a zeroed third.
    assert!(matches!(engine.step(), Signal::Continue));
    assert!(matches!(engine.step(), Signal::Continue));
    assert_eq!(engine.frame.name, "pair");
    assert_eq!(engine.frame.ip, 0);
    assert_eq!(
        engine.frame.locals.inner,
        vec![Object::Integer(7), Object::Integer(3), Object::Integer(0)]
    );
    assert_eq!(engine.frame_stack.inner.len(), 1);
    assert_eq!(engine.frame_stack.inner[0].ip, 5);
    assert!(matches!(engine.run(100), Signal::Halted));
    assert_eq!(engine.frame.locals.inner, vec![Object::Integer(7)]);
    assert!(engine.frame_stack.inner.is_empty());
    assert!(engine.should_halt);
    assert!(matches!(engine.step(), Signal::Halted));
    assert!(matches!(engine.run(5), Signal::Halted));
}

#[test]
fn engine_loads_constants_and_jumps() {
    let code = vec![
        Opcode::Ldc(0),
        Opcode::Jump(3),
        Opcode::Ldc(0),
        Opcode::Push(PushOperand::Boolean(false)),
        Opcode::JumpIfFalse(6),
        Opcode::Ldc(0),
        Opcode::Nop,
        Opcode::Return,
    ];
    let mut engine = engine_for(code, vec![Object::String("k".to_string())]);
    assert!(matches!(engine.run(100), Signal::Halted));
    assert_eq!(engine.frame.stack.inner, vec![Object::String("k".to_string())]);
}

#[test]
fn frames_and_locals_start_zeroed() {
    let mut locals = Locals::new(2);
    assert_eq!(locals.len(), 2);
    assert_eq!(locals.get_at(1), Some(&Object::Integer(0)));
    assert_eq!(locals.get_at(2), None);
    locals.set_at(1, Object::Boolean(true));
    assert_eq!(locals.inner, vec![Object::Integer(0), Object::Boolean(true)]);
    let mut frame = Frame::new("f".to_string(), 4, 1);
    assert_eq!((frame.ip, frame.function, frame.get_name()), (0, 4, "f"));
    assert_eq!(frame.pop(), None);
    frame.push(Object::Integer(5));
    frame.store(0, Object::Integer(6));
    assert_eq!(frame.load(0), Some(&Object::Integer(6)));
    assert_eq!(frame.load(1), None);
    assert_eq!(frame.pop(), Some(Object::Integer(5)));
}
