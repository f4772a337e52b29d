use mould::parser::parse_source;
use mould::typechecker::check_program;

#[test]
fn accepts_typed_program() {
    let program = parse_source(
        "fn add(a: i32, b: i32) -> i32 { return a + b } fn main() { println(add(1, 2)) }",
    )
    .unwrap();

    check_program(&program).unwrap();
}

#[test]
fn accepts_void_function_call_statement() {
    let program =
        parse_source("fn log(value: i32) { println(value) } fn main() { log(7) }").unwrap();

    check_program(&program).unwrap();
}

#[test]
fn rejects_mismatched_math_types() {
    let program =
        parse_source("fn main() { let a: i32 = 1 let b: u32 = 2 println(a + b) }").unwrap();
    let error = check_program(&program).unwrap_err();

    assert!(error.message.contains("cannot use `u32` value as `i32`"));
}

#[test]
fn typechecker_rejects_non_bool_if_condition() {
    let program = parse_source("fn main() { if 1 { println(1) } }").unwrap();
    let error = check_program(&program).unwrap_err();

    assert!(
        error
            .message
            .contains("cannot assign integer literal to `bool`")
    );
}

#[test]
fn typechecker_rejects_break_outside_loop() {
    let program = parse_source("fn main() { break }").unwrap();
    let error = check_program(&program).unwrap_err();

    assert!(error.message.contains("cannot `break` outside loop"));
}

#[test]
fn typechecker_rejects_missing_return() {
    let program = parse_source("fn sample() -> i32 { if true { return 1 } }").unwrap();
    let error = check_program(&program).unwrap_err();

    assert!(error.message.contains("must return `i32`"));
}

#[test]
fn rejects_unknown_type() {
    let program = parse_source("fn main() { let value: Missing = Missing { x: 1 } }").unwrap();
    let error = check_program(&program).unwrap_err();

    assert!(error.message.contains("unknown type `Missing`"));
}
