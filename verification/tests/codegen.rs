use bug::ast::{
    ExpressionCall, ExpressionLiteral, Identifier, LiteralString, Parameters, Statement,
    StatementBlock, StatementExpression, StatementFunction,
};
use bug::bytecode::Opcode;
use bug::codegen::CodeGenerator;
use bug::object::{Object, Type};
use bug::span::Span;

fn ident(name: &str) -> Identifier {
    Identifier::new(Span::default(), name.to_string())
}

#[test]
fn enaure_hello_world_is_well_generated() {
    let mut body = StatementBlock::new();
    body.statements.push(Statement::Expression(StatementExpression::Literal(
        ExpressionLiteral::String(LiteralString::new(Span::default(), "Hello, world!".to_string())),
    )));
    body.statements.push(Statement::Expression(StatementExpression::Call(
        ExpressionCall::new(Span::default(), ident("write")),
    )));
    let ast = vec![Statement::Function(StatementFunction::new(
        ident("main"),
        Parameters::new(),
        Type::Void,
        body,
        Span::default(),
    ))];

    let mut generator = CodeGenerator::make();
    let program = generator.gen(ast).unwrap();

    assert!(program.fns.iter().any(|f| f.name == "main"));
    assert!(program.pool.entries.contains(&Object::String("Hello, world!".to_string())));

    let main_instructions = program
        .fns
        .iter()
        .find(|f| f.name == "main")
        .unwrap()
        .function
        .code
        .code
        .clone();

    match &main_instructions[0] {
        Opcode::Ldc(_) => {}
        x => panic!("Unexpected instruction {:?}", x),
    }

    match &main_instructions[1] {
        Opcode::Invoke(_) => {}
        x => panic!("Unexpected instruction {:?}", x),
    }

    match &main_instructions[2] {
        Opcode::Return => {}
        x => panic!("Unexpected instruction {:?}", x),
    }
}
