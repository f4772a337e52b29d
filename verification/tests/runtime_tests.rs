use mould::parser::parse_source;
use mould::runtime::{run_main, FloatReply, FloatRequest};

fn floats(request: FloatRequest) -> FloatReply {
    match request {
        FloatRequest::Parse(text) => match text.parse::<f64>() {
            Ok(value) => FloatReply::Bits(value.to_bits()),
            Err(_) => FloatReply::Invalid,
        },
        FloatRequest::Narrow(bits) => FloatReply::Bits((f64::from_bits(bits) as f32).to_bits() as u64),
        FloatRequest::Add(a, b) => FloatReply::Bits((f64::from_bits(a) + f64::from_bits(b)).to_bits()),
        FloatRequest::Subtract(a, b) => FloatReply::Bits((f64::from_bits(a) - f64::from_bits(b)).to_bits()),
        FloatRequest::Multiply(a, b) => FloatReply::Bits((f64::from_bits(a) * f64::from_bits(b)).to_bits()),
        FloatRequest::Divide(a, b) => FloatReply::Bits((f64::from_bits(a) / f64::from_bits(b)).to_bits()),
        FloatRequest::Equal(a, b) => FloatReply::Truth(f64::from_bits(a) == f64::from_bits(b)),
        FloatRequest::Print(bits) => FloatReply::Text(f64::from_bits(bits).to_string()),
    }
}

#[test]
fn println_outputs_number() {
    let program = parse_source("fn main() { println(1) }").unwrap();

    assert_eq!(run_main(&program, &floats).unwrap(), "1\n");
}

#[test]
fn println_outputs_variable() {
    let program = parse_source("fn main() { let a: i32 = 1 println(a) }").unwrap();

    assert_eq!(run_main(&program, &floats).unwrap(), "1\n");
}

#[test]
fn println_outputs_bool() {
    let program = parse_source("fn main() { let ready: bool = true println(ready) }").unwrap();

    assert_eq!(run_main(&program, &floats).unwrap(), "true\n");
}

#[test]
fn println_outputs_float() {
    let program = parse_source("fn main() { let n: f64 = 1.5 println(n) }").unwrap();

    assert_eq!(run_main(&program, &floats).unwrap(), "1.5\n");
}

#[test]
fn evaluates_integer_math_with_precedence() {
    let program = parse_source("fn main() { let n: i32 = 1 + 2 * 3 println(n) }").unwrap();

    assert_eq!(run_main(&program, &floats).unwrap(), "7\n");
}

#[test]
fn evaluates_all_integer_math_operators() {
    let program =
        parse_source("fn main() { let n: i32 = 20 + 6 - 3 * 4 / 2 println(n) }").unwrap();

    assert_eq!(run_main(&program, &floats).unwrap(), "20\n");
}

#[test]
fn evaluates_signed_negative_result() {
    let program = parse_source("fn main() { let n: i32 = 1 - 2 println(n) }").unwrap();

    assert_eq!(run_main(&program, &floats).unwrap(), "-1\n");
}

#[test]
fn infers_literal_from_variable_type_in_math() {
    let program =
        parse_source("fn main() { let a: u8 = 2 let b: u8 = a + 1 println(b) }").unwrap();

    assert_eq!(run_main(&program, &floats).unwrap(), "3\n");
}

#[test]
fn evaluates_float_math() {
    let program = parse_source("fn main() { let n: f64 = 1.5 + 2.25 println(n) }").unwrap();

    assert_eq!(run_main(&program, &floats).unwrap(), "3.75\n");
}

#[test]
fn rejects_math_with_mismatched_variable_types() {
    let program =
        parse_source("fn main() { let a: i32 = 1 let b: u32 = 2 println(a + b) }").unwrap();
    let error = run_main(&program, &floats).unwrap_err();

    assert!(error.message.contains("cannot use `u32` value as `i32`"));
}

#[test]
fn rejects_math_on_bool() {
    let program = parse_source("fn main() { let value: bool = true + false }").unwrap();
    let error = run_main(&program, &floats).unwrap_err();

    assert!(
        error
            .message
            .contains("operator `+` cannot be used with `bool`")
    );
}

#[test]
fn rejects_integer_division_by_zero() {
    let program = parse_source("fn main() { let value: i32 = 1 / 0 }").unwrap();
    let error = run_main(&program, &floats).unwrap_err();

    assert!(error.message.contains("division by zero"));
}

#[test]
fn rejects_unsigned_underflow() {
    let program = parse_source("fn main() { let value: u8 = 1 - 2 }").unwrap();
    let error = run_main(&program, &floats).unwrap_err();

    assert!(error.message.contains("does not fit in `u8`"));
}

#[test]
fn evaluates_bitwise_integer_operators() {
    let program = parse_source(
        "fn main() { let a: u8 = 10 let b: u8 = 12 println(a & b) println(a | b) println(a ^ b) }",
    )
    .unwrap();

    assert_eq!(run_main(&program, &floats).unwrap(), "8\n14\n6\n");
}

#[test]
fn evaluates_bit_not_with_type_width() {
    let program = parse_source("fn main() { let value: u8 = !0 println(value) }").unwrap();

    assert_eq!(run_main(&program, &floats).unwrap(), "255\n");
}

#[test]
fn evaluates_signed_bit_not() {
    let program = parse_source("fn main() { let value: i32 = !0 println(value) }").unwrap();

    assert_eq!(run_main(&program, &floats).unwrap(), "-1\n");
}

#[test]
fn evaluates_shift_operators() {
    let program = parse_source(
        "fn main() { let left: u8 = 1 << 3 let right: u8 = left >> 2 println(left) println(right) }",
    )
    .unwrap();

    assert_eq!(run_main(&program, &floats).unwrap(), "8\n2\n");
}

#[test]
fn rejects_bitwise_float() {
    let program = parse_source("fn main() { let value: f64 = 1.5 & 2.5 }").unwrap();
    let error = run_main(&program, &floats).unwrap_err();

    assert!(
        error
            .message
            .contains("operator `&` cannot be used with `f64`")
    );
}

#[test]
fn rejects_bit_not_float() {
    let program = parse_source("fn main() { let value: f64 = !1.5 }").unwrap();
    let error = run_main(&program, &floats).unwrap_err();

    assert!(
        error
            .message
            .contains("operator `!` cannot be used with `f64`")
    );
}

#[test]
fn rejects_shift_amount_too_large() {
    let program = parse_source("fn main() { let value: u8 = 1 << 8 }").unwrap();
    let error = run_main(&program, &floats).unwrap_err();

    assert!(error.message.contains("shift amount must be less"));
}

#[test]
fn evaluates_bool_operators() {
    let program = parse_source(
        "fn main() { println(true && false) println(true || false) println(!true) }",
    )
    .unwrap();

    assert_eq!(run_main(&program, &floats).unwrap(), "false\ntrue\nfalse\n");
}

#[test]
fn evaluates_equality_operators() {
    let program = parse_source(
        "fn main() { let a: u8 = 7 println(a == 7) println(a != 8) println(true == false) }",
    )
    .unwrap();

    assert_eq!(run_main(&program, &floats).unwrap(), "true\ntrue\nfalse\n");
}

#[test]
fn runs_if_then_branch() {
    let program =
        parse_source("fn main() { if true { println(1) } else { println(2) } }").unwrap();

    assert_eq!(run_main(&program, &floats).unwrap(), "1\n");
}

#[test]
fn runs_if_else_branch() {
    let program =
        parse_source("fn main() { if false { println(1) } else { println(2) } }").unwrap();

    assert_eq!(run_main(&program, &floats).unwrap(), "2\n");
}

#[test]
fn runs_else_if_branch() {
    let program = parse_source(
        "fn main() { if false { println(1) } else if true { println(2) } else { println(3) } }",
    )
    .unwrap();

    assert_eq!(run_main(&program, &floats).unwrap(), "2\n");
}

#[test]
fn returns_from_if_branch() {
    let program = parse_source(
        "fn pick(flag: bool) -> i32 { if flag { return 1 } else { return 2 } } fn main() { println(pick(false)) }",
    )
    .unwrap();

    assert_eq!(run_main(&program, &floats).unwrap(), "2\n");
}

#[test]
fn short_circuits_bool_operators() {
    let program =
        parse_source("fn main() { println(false && missing()) println(true || missing()) }")
            .unwrap();

    assert_eq!(run_main(&program, &floats).unwrap(), "false\ntrue\n");
}

#[test]
fn runtime_rejects_non_bool_if_condition() {
    let program = parse_source("fn main() { if 1 { println(1) } }").unwrap();
    let error = run_main(&program, &floats).unwrap_err();

    assert!(
        error
            .message
            .contains("cannot assign integer literal to `bool`")
    );
}

#[test]
fn rejects_bool_operator_with_integer() {
    let program = parse_source("fn main() { let value: bool = 1 && 2 }").unwrap();
    let error = run_main(&program, &floats).unwrap_err();

    assert!(
        error
            .message
            .contains("cannot assign integer literal to `bool`")
    );
}

#[test]
fn rejects_equality_with_mismatched_types() {
    let program =
        parse_source("fn main() { let a: i32 = 1 let b: u32 = 1 println(a == b) }").unwrap();
    let error = run_main(&program, &floats).unwrap_err();

    assert!(error.message.contains("cannot use `u32` value as `i32`"));
}

#[test]
fn runs_loop_until_break() {
    let program =
        parse_source("fn main() { loop { println(1) break println(2) } println(3) }").unwrap();

    assert_eq!(run_main(&program, &floats).unwrap(), "1\n3\n");
}

#[test]
fn runs_while_until_break() {
    let program =
        parse_source("fn main() { while true { println(1) break println(2) } println(3) }")
            .unwrap();

    assert_eq!(run_main(&program, &floats).unwrap(), "1\n3\n");
}

#[test]
fn skips_false_while_body() {
    let program = parse_source("fn main() { while false { println(1) } println(2) }").unwrap();

    assert_eq!(run_main(&program, &floats).unwrap(), "2\n");
}

#[test]
fn returns_from_loop() {
    let program =
        parse_source("fn pick() -> i32 { loop { return 7 } } fn main() { println(pick()) }")
            .unwrap();

    assert_eq!(run_main(&program, &floats).unwrap(), "7\n");
}

#[test]
fn runtime_rejects_break_outside_loop() {
    let program = parse_source("fn main() { break }").unwrap();
    let error = run_main(&program, &floats).unwrap_err();

    assert!(error.message.contains("cannot `break` outside loop"));
}

#[test]
fn rejects_continue_outside_loop() {
    let program = parse_source("fn main() { continue }").unwrap();
    let error = run_main(&program, &floats).unwrap_err();

    assert!(error.message.contains("cannot `continue` outside loop"));
}

#[test]
fn rejects_non_bool_while_condition() {
    let program = parse_source("fn main() { while 1 { break } }").unwrap();
    let error = run_main(&program, &floats).unwrap_err();

    assert!(
        error
            .message
            .contains("cannot assign integer literal to `bool`")
    );
}

#[test]
fn calls_function_with_params_and_return() {
    let program = parse_source(
        "fn sample(a: i32, b: bool) -> i32 { return a } fn main() { println(sample(7, true)) }",
    )
    .unwrap();

    assert_eq!(run_main(&program, &floats).unwrap(), "7\n");
}

#[test]
fn calls_void_function_with_params() {
    let program = parse_source("fn log(a: i32) { println(a) } fn main() { log(8) }").unwrap();

    assert_eq!(run_main(&program, &floats).unwrap(), "8\n");
}

#[test]
fn reads_struct_field() {
    let program = parse_source(
        "struct Point { x: i32, y: bool } fn main() { let p: Point = Point { x: 7, y: true } println(p.x) println(p.y) }",
    )
    .unwrap();

    assert_eq!(run_main(&program, &floats).unwrap(), "7\ntrue\n");
}

#[test]
fn passes_struct_to_function() {
    let program = parse_source(
        "struct Point { x: i32 } fn pick_x(p: Point) -> i32 { return p.x } fn main() { let p: Point = Point { x: 9 } println(pick_x(p)) }",
    )
    .unwrap();

    assert_eq!(run_main(&program, &floats).unwrap(), "9\n");
}

#[test]
fn dereferences_pointer() {
    let program =
        parse_source("fn main() { let a: i32 = 7 let p: &i32 = &a println(*p) }").unwrap();

    assert_eq!(run_main(&program, &floats).unwrap(), "7\n");
}

#[test]
fn passes_pointer_to_function() {
    let program =
        parse_source("fn show(p: &i32) { println(*p) } fn main() { let a: i32 = 8 show(&a) }")
            .unwrap();

    assert_eq!(run_main(&program, &floats).unwrap(), "8\n");
}

#[test]
fn reads_field_through_struct_pointer() {
    let program = parse_source(
        "struct Point { x: i32 } fn pick_x(p: &Point) -> i32 { return p.x } fn main() { let p: Point = Point { x: 9 } println(pick_x(&p)) }",
    )
    .unwrap();

    assert_eq!(run_main(&program, &floats).unwrap(), "9\n");
}

#[test]
fn allocates_and_deallocates_value() {
    let program =
        parse_source("fn main() { let p: &i32 = alloc(7) println(*p) dealloc(p) }").unwrap();

    assert_eq!(run_main(&program, &floats).unwrap(), "7\n");
}

#[test]
fn alloc_uses_expected_pointer_type() {
    let program =
        parse_source("fn main() { let p: &u8 = alloc(7) println(*p) dealloc(p) }").unwrap();

    assert_eq!(run_main(&program, &floats).unwrap(), "7\n");
}

#[test]
fn allocates_struct() {
    let program = parse_source(
        "struct Point { x: i32 } fn main() { let p: &Point = alloc(Point { x: 9 }) println(p.x) dealloc(p) }",
    )
    .unwrap();

    assert_eq!(run_main(&program, &floats).unwrap(), "9\n");
}

#[test]
fn rejects_use_after_dealloc() {
    let program =
        parse_source("fn main() { let p: &i32 = alloc(7) dealloc(p) println(*p) }").unwrap();
    let error = run_main(&program, &floats).unwrap_err();

    assert!(error.message.contains("freed pointer"));
}

#[test]
fn rejects_dealloc_of_reference() {
    let program = parse_source("fn main() { let a: i32 = 7 dealloc(&a) }").unwrap();
    let error = run_main(&program, &floats).unwrap_err();

    assert!(error.message.contains("pointer returned by `alloc`"));
}

#[test]
fn rejects_dereferencing_non_pointer() {
    let program = parse_source("fn main() { let a: i32 = 7 println(*a) }").unwrap();
    let error = run_main(&program, &floats).unwrap_err();

    assert!(error.message.contains("cannot dereference `i32`"));
}

#[test]
fn runtime_rejects_missing_return() {
    let program = parse_source("fn sample() -> i32 {} fn main() { sample() }").unwrap();
    let error = run_main(&program, &floats).unwrap_err();

    assert!(error.message.contains("must return `i32`"));
}

#[test]
fn rejects_integer_out_of_range() {
    let program = parse_source("fn main() { let n: i8 = 128 }").unwrap();
    let error = run_main(&program, &floats).unwrap_err();

    assert!(error.message.contains("does not fit in `i8`"));
}

#[test]
fn rejects_unknown_function() {
    let program = parse_source("fn main() { print(1) }").unwrap();
    let error = run_main(&program, &floats).unwrap_err();

    assert!(error.message.contains("unknown function `print`"));
}

#[test]
fn rejects_missing_println_argument() {
    let program = parse_source("fn main() { println() }").unwrap();
    let error = run_main(&program, &floats).unwrap_err();

    assert!(error.message.contains("expects 1 argument"));
}
