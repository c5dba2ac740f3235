use bug::analysis::errorhandler::AnalyserErrorKind;
use bug::analysis::Analyser;
use bug::ast::{Ast, Statement, StatementExpression};
use bug::bytecode::{Opcode, PushOperand};
use bug::codegen::CodeGenerator;
use bug::compiler::{compile, CompileError};
use bug::engine::model::RuntimeErrorKind;
use bug::engine::{Engine, Signal};
use bug::object::{Object, Type};
use bug::parser::parse_source;
use bug::program::Program;
use bug::stdlib::list_natives;

fn build(source: &str) -> Result<Program, CompileError> {
    let mut ast = parse_source(source).unwrap();
    compile(&mut ast, &list_natives())
}

fn code_of(program: &Program, name: &str) -> Vec<Opcode> {
    program.fns.iter().find(|f| f.name == name).unwrap().function.code.code.clone()
}

/// Runs the program and returns what it wrote, one entry per call of `write`.
fn run(program: Program) -> (Vec<Object>, Signal, Engine) {
    let mut engine = Engine::bootstrap(program, list_natives());
    engine.setup_main_frame().unwrap();
    let mut written = vec![];
    loop {
        match engine.run(10_000) {
            Signal::Native { name, arguments } => {
                assert_eq!(name, "write");
                for argument in arguments {
                    written.push(argument);
                }
                engine.resume(None);
            }
            signal => return (written, signal, engine),
        }
    }
}

#[test]
fn hello_world_compiles_and_prints() {
    let program = build("f main -> \"Hello, world!\" .write ;").unwrap();
    assert_eq!(program.fns.len(), 1);
    assert_eq!(
        code_of(&program, "main"),
        vec![Opcode::Ldc(0), Opcode::Invoke("write".to_string()), Opcode::Return]
    );
    assert_eq!(program.pool.entries, vec![Object::String("Hello, world!".to_string())]);
    let (written, signal, engine) = run(program);
    assert_eq!(written, vec![Object::String("Hello, world!".to_string())]);
    assert!(matches!(signal, Signal::Halted));
    assert!(engine.frame_stack.inner.is_empty());
}

#[test]
fn arithmetic_with_user_function() {
    let program =
        build("f sum (int a, int b) int -> a b + ; f main -> 34 35 .sum .write ;").unwrap();
    assert_eq!(
        code_of(&program, "main"),
        vec![
            Opcode::Push(PushOperand::Integer(34)),
            Opcode::Push(PushOperand::Integer(35)),
            Opcode::Invoke("sum".to_string()),
            Opcode::Invoke("write".to_string()),
            Opcode::Return,
        ]
    );
    assert_eq!(
        code_of(&program, "sum"),
        vec![Opcode::LLoad(0), Opcode::LLoad(1), Opcode::IAdd, Opcode::IReturn]
    );
    let sum = program.fns.iter().find(|f| f.name == "sum").unwrap();
    assert_eq!(sum.function.arity, 2);
    assert_eq!(sum.function.max_locals, 2);
    let (written, signal, _) = run(program);
    assert_eq!(written, vec![Object::Integer(69)]);
    assert!(matches!(signal, Signal::Halted));
}

#[test]
fn conditional_is_patched_to_jump_over_block() {
    let program = build("f main -> 5 3 > if -> \"yes\" .write ; ;").unwrap();
    assert_eq!(
        code_of(&program, "main"),
        vec![
            Opcode::Push(PushOperand::Integer(5)),
            Opcode::Push(PushOperand::Integer(3)),
            Opcode::ICmpGT,
            Opcode::JumpIfFalse(6),
            Opcode::Ldc(0),
            Opcode::Invoke("write".to_string()),
            Opcode::Return,
        ]
    );
    let (written, signal, _) = run(program);
    assert_eq!(written, vec![Object::String("yes".to_string())]);
    assert!(matches!(signal, Signal::Halted));
}

#[test]
fn conditional_not_taken_skips_block() {
    let program = build("f main -> 3 5 > if -> \"yes\" .write ; ;").unwrap();
    let (written, signal, _) = run(program);
    assert!(written.is_empty());
    assert!(matches!(signal, Signal::Halted));
}

#[test]
fn unknown_callee_is_a_name_error_at_the_call() {
    let source = "f main -> .nope ;";
    match build(source) {
        Err(CompileError::Rejected(errors)) => {
            assert_eq!(errors.len(), 1);
            assert_eq!(errors[0].kind, AnalyserErrorKind::Name);
            assert_eq!(errors[0].msg, "'nope' is unbound");
            assert_eq!(errors[0].span.line, 1);
            assert_eq!(errors[0].span.column, 11);
            assert_eq!(errors[0].span.start, 10);
            assert_eq!(errors[0].span.end, 14);
        }
        other => panic!("expected a rejection, got {:?}", other),
    }
}

#[test]
fn missing_return_value_is_a_type_error() {
    match build("f one int -> ; f main -> ;") {
        Err(CompileError::Rejected(errors)) => {
            assert_eq!(errors.len(), 1);
            assert_eq!(errors[0].kind, AnalyserErrorKind::Type);
            assert_eq!(errors[0].msg, "Function 'one' must leave 'int' on the stack");
        }
        other => panic!("expected a rejection, got {:?}", other),
    }
}

#[test]
fn wrong_return_value_is_a_type_error() {
    match build("f one int -> \"text\" ; f main -> ;") {
        Err(CompileError::Rejected(errors)) => {
            assert_eq!(errors.len(), 1);
            assert_eq!(errors[0].kind, AnalyserErrorKind::Type);
        }
        other => panic!("expected a rejection, got {:?}", other),
    }
}

#[test]
fn too_few_arguments_is_an_argument_error_and_drains_the_stack() {
    let mut ast =
        parse_source("f three (int a, int b, int c) -> ; f main -> 1 2 .three ;").unwrap();
    let mut analyser = Analyser::make();
    let errors = analyser.analyse(&mut ast).unwrap_err();
    assert_eq!(errors.len(), 1);
    assert_eq!(errors[0].kind, AnalyserErrorKind::Argument);
    assert_eq!(errors[0].msg, "Missing arguments for function 'three'");

    // The call alone, with two entries on the meta-stack: both are gone afterwards.
    let mut analyser = Analyser::make();
    let mut ast = parse_source("f three (int a, int b, int c) -> ; 1 2 .three").unwrap();
    let _ = analyser.analyse(&mut ast);
    assert!(analyser.metastack.is_empty());
}

#[test]
fn call_with_exactly_arity_values_succeeds_and_one_fewer_fails() {
    assert!(build("f two (int a, int b) -> ; f main -> 1 2 .two ;").is_ok());
    match build("f two (int a, int b) -> ; f main -> 1 .two ;") {
        Err(CompileError::Rejected(errors)) => {
            assert_eq!(errors.len(), 1);
            assert_eq!(errors[0].kind, AnalyserErrorKind::Argument);
        }
        other => panic!("expected a rejection, got {:?}", other),
    }
}

#[test]
fn empty_void_function_checks_and_runs() {
    let program = build("f main -> ;").unwrap();
    assert_eq!(code_of(&program, "main"), vec![Opcode::Return]);
    let (written, signal, engine) = run(program);
    assert!(written.is_empty());
    assert!(matches!(signal, Signal::Halted));
    assert!(engine.should_halt);
    assert!(engine.frame_stack.inner.is_empty());
}

#[test]
fn empty_if_block_in_void_function_checks() {
    let program = build("f main -> true if -> ; ;").unwrap();
    assert_eq!(
        code_of(&program, "main"),
        vec![Opcode::Push(PushOperand::Boolean(true)), Opcode::JumpIfFalse(2), Opcode::Return]
    );
}

#[test]
fn assignment_to_just_declared_variable_succeeds() {
    let mut ast = parse_source("f main -> int x 5 = x .write ;").unwrap();
    let program = compile(&mut ast, &list_natives()).unwrap();
    assert_eq!(
        code_of(&program, "main"),
        vec![
            Opcode::Push(PushOperand::Integer(5)),
            Opcode::LStore(0),
            Opcode::LLoad(0),
            Opcode::Invoke("write".to_string()),
            Opcode::Return,
        ]
    );
    assert_eq!(program.fns[0].function.max_locals, 1);
    match &ast[0] {
        Statement::Function(f) => match &f.body.statements[2] {
            Statement::Assignment(assignment) => {
                assert_eq!(assignment.target, Some("x".to_string()))
            }
            other => panic!("expected an assignment, got {:?}", other),
        },
        other => panic!("expected a function, got {:?}", other),
    }
    let (written, _, _) = run(program);
    assert_eq!(written, vec![Object::Integer(5)]);
}

#[test]
fn locals_are_indexed_in_order_of_declaration() {
    let program = build(
        "f pick (int a, int b) int -> int c a b - = c ; f main -> 10 4 .pick .write ;",
    )
    .unwrap();
    assert_eq!(
        code_of(&program, "pick"),
        vec![
            Opcode::LLoad(0),
            Opcode::LLoad(1),
            Opcode::ISub,
            Opcode::LStore(2),
            Opcode::LLoad(2),
            Opcode::IReturn,
        ]
    );
    let pick = program.fns.iter().find(|f| f.name == "pick").unwrap();
    assert_eq!(pick.function.max_locals, 3);
    let (written, _, _) = run(program);
    assert_eq!(written, vec![Object::Integer(6)]);
}

#[test]
fn checking_twice_changes_nothing() {
    let source = "f max (int a, int b) int -> a b > if -> a return ; b ; \
                  f main -> int x 1 2 .max = x .write ;";
    let mut ast = parse_source(source).unwrap();
    let mut first = Analyser::make();
    assert!(first.analyse(&mut ast).is_ok());
    let annotated = format!("{:?}", ast);
    let mut second = Analyser::make();
    assert!(second.analyse(&mut ast).is_ok());
    assert_eq!(format!("{:?}", ast), annotated);
    assert_eq!(first, second);
}

#[test]
fn checking_a_rejected_tree_twice_reports_the_same() {
    let mut ast = parse_source("f main -> 1 \"a\" + .nope ;").unwrap();
    let mut first = Analyser::make();
    let errors = first.analyse(&mut ast).unwrap_err();
    let annotated = format!("{:?}", ast);
    let mut second = Analyser::make();
    let again = second.analyse(&mut ast).unwrap_err();
    assert_eq!(errors, again);
    assert_eq!(format!("{:?}", ast), annotated);
}

fn well_formed(program: &Program) -> bool {
    let natives = list_natives();
    program.fns.iter().all(|f| {
        let code = &f.function.code.code;
        code.iter().all(|op| match op {
            Opcode::Ldc(index) => *index < program.pool.entries.len(),
            Opcode::Jump(offset) | Opcode::JumpIfFalse(offset) => *offset < code.len(),
            Opcode::Invoke(name) => {
                program.fns.iter().any(|g| &g.name == name)
                    || natives.iter().any(|n| &n.name == name)
            }
            _ => true,
        })
    })
}

#[test]
fn accepted_programs_are_well_formed() {
    let sources = [
        "f main -> ;",
        "f main -> \"a\" .write \"b\" .write ;",
        "f id (int a) int -> a ; f main -> 1 .id 2 .id > if -> \"yes\" .write ; ;",
        "f loop -> .loop ; f main -> true if -> false if -> .loop ; ; ;",
    ];
    for source in sources {
        let program = build(source).unwrap();
        assert!(well_formed(&program), "{}", source);
    }
}

#[test]
fn binary_operator_is_annotated_with_operand_type() {
    let mut ast = parse_source("f main -> 1 2 > if -> ; ;").unwrap();
    let mut analyser = Analyser::make();
    assert!(analyser.analyse(&mut ast).is_ok());
    match &ast[0] {
        Statement::Function(f) => match &f.body.statements[2] {
            Statement::Expression(StatementExpression::Binary(binary)) => {
                assert_eq!(binary.operands_types, Some(Type::Integer))
            }
            other => panic!("expected an operator, got {:?}", other),
        },
        other => panic!("expected a function, got {:?}", other),
    }
}

#[test]
fn return_marker_is_annotated_with_top_type() {
    let mut ast: Ast =
        parse_source("f one int -> true if -> 1 return ; 2 ; f main -> return ;").unwrap();
    let mut analyser = Analyser::make();
    assert!(analyser.analyse(&mut ast).is_ok());
    let mut generator = CodeGenerator::make();
    let program = generator.gen(ast).unwrap();
    assert_eq!(
        code_of(&program, "one"),
        vec![
            Opcode::Push(PushOperand::Boolean(true)),
            Opcode::JumpIfFalse(4),
            Opcode::Push(PushOperand::Integer(1)),
            Opcode::IReturn,
            Opcode::Push(PushOperand::Integer(2)),
            Opcode::IReturn,
        ]
    );
    assert_eq!(code_of(&program, "main"), vec![Opcode::Return, Opcode::Return]);
}

#[test]
fn addition_wraps_around() {
    let program = build("f main -> 2147483647 1 + .write 0 1 - 2147483647 - 1 - .write ;").unwrap();
    let (written, signal, _) = run(program);
    assert_eq!(written, vec![Object::Integer(-2147483648), Object::Integer(2147483647)]);
    assert!(matches!(signal, Signal::Halted));
}

#[test]
fn run_stops_when_fuel_is_spent() {
    let program = build("f spin -> .spin ; f main -> .spin ;").unwrap();
    let mut engine = Engine::bootstrap(program, list_natives());
    engine.setup_main_frame().unwrap();
    assert!(matches!(engine.run(100), Signal::Continue));
    assert_eq!(engine.frame_stack.inner.len(), 100);
    assert!(!engine.should_halt);
}

#[test]
fn engine_starts_in_the_frame_of_main() {
    let program = build("f other -> ; f main -> int x 1 = ;").unwrap();
    let engine = Engine::start(program, list_natives()).unwrap();
    assert_eq!(engine.frame.name, "main");
    assert_eq!(engine.frame.function, 1);
    assert_eq!(engine.frame.ip, 0);
    assert_eq!(engine.frame.locals.inner, vec![Object::Integer(0)]);
    assert!(engine.frame.stack.inner.is_empty());
    assert!(engine.frame_stack.inner.is_empty());
    assert!(!engine.should_halt);
    let program = build("f main -> ;").unwrap();
    let error =
        Engine::start(Program { pool: program.pool, fns: vec![] }, list_natives()).unwrap_err();
    assert_eq!(error.kind, RuntimeErrorKind::UndefinedCallee);
}

#[test]
fn engine_without_main_faults() {
    let program = build("f main -> ;").unwrap();
    let mut engine = Engine::bootstrap(Program { pool: program.pool, fns: vec![] }, list_natives());
    let error = engine.setup_main_frame().unwrap_err();
    assert_eq!(error.kind, RuntimeErrorKind::UndefinedCallee);
    match engine.step() {
        Signal::Fault(error) => assert_eq!(error.kind, RuntimeErrorKind::FetchOutOfRange),
        other => panic!("expected a fault, got {:?}", other),
    }
}

fn fault_kind(source: &str) -> RuntimeErrorKind {
    let (_, signal, _) = run(build(source).unwrap());
    match signal {
        Signal::Fault(error) => error.kind,
        other => panic!("expected a fault, got {:?}", other),
    }
}

#[test]
fn accepted_program_can_read_a_variable_before_it_is_assigned() {
    // The variable is a boolean for the checker and still the zero integer at run time.
    assert_eq!(fault_kind("f main -> bool b b = b if -> ; ;"), RuntimeErrorKind::TypeMismatch);
}

#[test]
fn accepted_program_can_return_a_value_of_another_type() {
    // The return marker hands a string to a caller that was promised an integer.
    assert_eq!(
        fault_kind("f one int -> \"s\" return .write 5 ; f main -> .one 1 + .write ;"),
        RuntimeErrorKind::TypeMismatch
    );
}

#[test]
fn accepted_program_can_leave_a_value_under_the_operands() {
    // Assigning to a variable that was pushed by its name leaves its old value on the
    // operand stack, here a string between the two integers of the addition.
    assert_eq!(
        fault_kind("f show (str s) -> 1 s \"t\" = 2 + .write ; f main -> \"a\" .show ;"),
        RuntimeErrorKind::TypeMismatch
    );
}

#[test]
fn soundly_checked_programs_run_without_fault() {
    let sources = [
        "f max (int a, int b) int -> a b > if -> a return ; b ; \
         f main -> int x 3 9 .max = x .write ;",
        "f count (int n) -> n 0 > if -> n .write n 1 - .count ; ; f main -> 3 .count ;",
        "f pick (bool c, str a, str b) str -> c if -> a return ; b ; \
         f main -> true \"yes\" \"no\" .pick .write 2 1 > \"a\" \"b\" .pick .write ;",
        "f twice (int n) int -> int m n n + = m ; f main -> int x 4 .twice = x x 1 + = x .write ;",
        "f main -> str s \"a\" = bool b 2 1 > = b if -> s .write ; int n n = n .write ;",
    ];
    let expected = [
        vec![Object::Integer(9)],
        vec![Object::Integer(3), Object::Integer(2), Object::Integer(1)],
        vec![Object::String("yes".to_string()), Object::String("a".to_string())],
        vec![Object::Integer(9)],
        vec![Object::String("a".to_string()), Object::Integer(0)],
    ];
    for (source, expected) in sources.iter().zip(expected) {
        let (written, signal, engine) = run(build(source).unwrap());
        assert_eq!(written, expected, "{}", source);
        assert!(matches!(signal, Signal::Halted), "{}", source);
        assert!(engine.frame_stack.inner.is_empty());
    }
}

#[test]
fn accepted_program_can_return_a_value_from_main() {
    // The return marker in `main` hands a value to a caller that does not exist.
    assert_eq!(fault_kind("f main -> 5 return .write ;"), RuntimeErrorKind::StackUnderflow);
}

#[test]
fn programs_without_recursion_end_within_their_bound() {
    // Five instructions in `main`, four in `twice`, and two calls of `twice`: the
    // bound is thirteen steps, of which the last one ends the program.
    let program =
        build("f twice (int n) int -> n n + ; f main -> 1 .twice .twice .write ;").unwrap();
    let mut engine = Engine::start(program, list_natives()).unwrap();
    let mut steps = 0;
    loop {
        match engine.step() {
            Signal::Continue => steps += 1,
            Signal::Native { .. } => {
                steps += 1;
                engine.resume(None);
            }
            Signal::Halted => break,
            Signal::Fault(error) => panic!("unexpected fault {:?}", error),
        }
        assert!(steps < 5 + 2 * 4);
    }
    assert_eq!(steps, 12);
}
