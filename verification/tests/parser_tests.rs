use mould::ast::{CallExpression, CallStatement, Expression, LetStatement, ReturnStatement, Statement, Type};
use mould::parser::parse_source;

#[test]
fn parses_empty_function() {
    let program = parse_source(
        r#"
        fn funcname() {
        }
        "#,
    )
    .unwrap();

    assert_eq!(program.functions.len(), 1);
    assert_eq!(program.functions[0].name, "funcname");
    assert!(program.functions[0].body.statements.is_empty());
}

#[test]
fn parses_multiple_functions() {
    let program = parse_source("fn first() {} fn second_2() {}").unwrap();

    let names: Vec<_> = program
        .functions
        .iter()
        .map(|function| function.name.as_str())
        .collect();

    assert_eq!(names, ["first", "second_2"]);
}

#[test]
fn parses_function_parameters_and_return_type() {
    let program = parse_source("fn sample(a: i32, b: bool) -> i32 { return a }").unwrap();
    let function = &program.functions[0];

    assert_eq!(function.name, "sample");
    assert_eq!(function.return_type, Some(Type::I32));
    assert_eq!(function.parameters.len(), 2);
    assert_eq!(function.parameters[0].name, "a");
    assert_eq!(function.parameters[0].ty, Type::I32);
    assert_eq!(function.parameters[1].name, "b");
    assert_eq!(function.parameters[1].ty, Type::Bool);
}

#[test]
fn parses_call_expression() {
    let program = parse_source("fn main() { let a: i32 = sample(1, true) }").unwrap();
    let statement = &program.functions[0].body.statements[0];

    assert_eq!(
        statement,
        &Statement::Let(LetStatement {
            name: "a".to_string(),
            ty: Type::I32,
            value: Expression::Call(CallExpression {
                name: "sample".to_string(),
                arguments: vec![Expression::Integer(1), Expression::Bool(true)],
            }),
        })
    );
}

#[test]
fn parses_return_statement() {
    let program = parse_source("fn sample() -> i32 { return 1 }").unwrap();
    let statement = &program.functions[0].body.statements[0];

    assert_eq!(
        statement,
        &Statement::Return(ReturnStatement {
            value: Expression::Integer(1),
        })
    );
}

#[test]
fn parses_i32_variable() {
    let program = parse_source("fn main() { let a: i32 = 1 }").unwrap();
    let statement = &program.functions[0].body.statements[0];

    assert_eq!(
        statement,
        &Statement::Let(LetStatement {
            name: "a".to_string(),
            ty: Type::I32,
            value: Expression::Integer(1),
        })
    );
}

#[test]
fn parses_all_primitive_types() {
    let all = Type::all_primitives();
    let type_names = all.iter().map(|ty| ty.name()).collect::<Vec<_>>().join(", ");
    let source = format!(
        "fn main() {{ {} }}",
        all.iter()
            .enumerate()
            .map(|(index, ty)| match ty {
                Type::F16 | Type::F32 | Type::F64 => {
                    format!("let v{index}: {} = 1.5", ty.name())
                }
                Type::Bool => format!("let v{index}: bool = true"),
                _ => format!("let v{index}: {} = 1", ty.name()),
            })
            .collect::<Vec<_>>()
            .join("; ")
    );

    let program =
        parse_source(&source).unwrap_or_else(|error| panic!("{type_names}: {error:?}"));

    assert_eq!(program.functions[0].body.statements.len(), all.len());
}

#[test]
fn parses_bool_variable() {
    let program = parse_source("fn main() { let ready: bool = true }").unwrap();
    let statement = &program.functions[0].body.statements[0];

    assert_eq!(
        statement,
        &Statement::Let(LetStatement {
            name: "ready".to_string(),
            ty: Type::Bool,
            value: Expression::Bool(true),
        })
    );
}

#[test]
fn parses_float_variable() {
    let program = parse_source("fn main() { let pi: f64 = 3.14 }").unwrap();
    let statement = &program.functions[0].body.statements[0];

    assert_eq!(
        statement,
        &Statement::Let(LetStatement {
            name: "pi".to_string(),
            ty: Type::F64,
            value: Expression::Float("3.14".to_string()),
        })
    );
}

#[test]
fn allows_semicolon_after_variable() {
    let program = parse_source("fn main() { let a: i32 = 1; }").unwrap();

    assert_eq!(program.functions[0].body.statements.len(), 1);
}

#[test]
fn parses_println_number_call() {
    let program = parse_source("fn main() { println(1) }").unwrap();
    let statement = &program.functions[0].body.statements[0];

    assert_eq!(
        statement,
        &Statement::Call(CallStatement {
            name: "println".to_string(),
            arguments: vec![Expression::Integer(1)],
        })
    );
}

#[test]
fn parses_println_variable_call() {
    let program = parse_source("fn main() { println(a); }").unwrap();
    let statement = &program.functions[0].body.statements[0];

    assert_eq!(
        statement,
        &Statement::Call(CallStatement {
            name: "println".to_string(),
            arguments: vec![Expression::Variable("a".to_string())],
        })
    );
}

#[test]
fn rejects_unknown_type_for_now() {
    let error = parse_source("fn nope() { let value: str = 1 }").unwrap_err();

    assert!(error.message.contains("expected primitive type"));
}

#[test]
fn rejects_unknown_statement_for_now() {
    let error = parse_source("fn nope() { value }").unwrap_err();

    assert!(error.message.contains("expected `(`"));
}
