use mould::compiler::{compile_program_to_assembly, CompileError};
use mould::parser::parse_source;
use mould::runtime::{FloatReply, FloatRequest};

#[test]
fn emits_println_number() {
    let assembly = compile("fn main() { println(1) }");

    assert!(assembly.contains("bl _printf"));
    assert!(assembly.contains("L_mould_fmt_signed"));
}

#[test]
fn emits_function_with_params_and_return() {
    let assembly = compile(
        "fn sample(a: i32, b: bool) -> i32 { return a } fn main() { println(sample(7, true)) }",
    );

    assert!(assembly.contains("_mould_sample:"));
    assert!(assembly.contains("bl _mould_sample"));
}

#[test]
fn emits_struct_field_access() {
    let assembly = compile(
        "struct Point { x: i32, y: bool } fn main() { let p: Point = Point { x: 7, y: true } println(p.x) }",
    );

    assert!(assembly.contains("ldr x0, [x0]"));
}

#[test]
fn emits_allocated_value() {
    let assembly = compile("fn main() { let p: &i32 = alloc(7) println(*p) dealloc(p) }");

    assert!(assembly.contains("bl _malloc"));
    assert!(assembly.contains("bl _free"));
}

#[test]
fn emits_math_instructions() {
    let assembly = compile("fn main() { let n: i32 = 1 + 2 * 3 println(n) }");

    assert!(assembly.contains("mul x0, x0, x1"));
    assert!(assembly.contains("add x0, x0, x1"));
}

#[test]
fn emits_bitwise_instructions() {
    let assembly = compile("fn main() { let n: u8 = 10 & 12 println(n) }");

    assert!(assembly.contains("and x0, x0, x1"));
}

#[test]
fn emits_if_branching() {
    let assembly =
        compile("fn main() { if true && !false { println(1) } else { println(2) } }");

    assert!(assembly.contains("b.eq L_mould_if_else"));
}

#[test]
fn emits_loop_branching() {
    let assembly = compile("fn main() { loop { println(1) break } }");

    assert!(assembly.contains("L_mould_loop_start"));
    assert!(assembly.contains("L_mould_loop_end"));
}

#[test]
fn rejects_missing_main() {
    let error = compile_failure("fn helper() {}");

    assert!(error.message.contains("function `main` not found"));
}

#[test]
fn rejects_unknown_struct() {
    let error = compile_failure("fn main() { let p: Point = Point { x: 1 } }");

    assert!(error.message.contains("unknown type `Point`"));
}

#[test]
fn rejects_missing_field() {
    let error = compile_failure(
        "struct Point { x: i32, y: bool } fn main() { let p: Point = Point { x: 1 } }",
    );

    assert!(error.message.contains("missing field `y`"));
}

#[test]
fn emits_i128_storage_and_printing() {
    let assembly = compile("fn main() { let value: i128 = 1 println(value) }");

    assert!(assembly.contains("str x1, [x9, #8]"));
    assert!(assembly.contains("bl _mould_print_i128"));
}

#[test]
fn emits_i128_division_helper() {
    let assembly = compile("fn main() { let value: u128 = 8 / 2 println(value) }");

    assert!(assembly.contains("bl L_mould_udivmod_u128"));
}

fn floats(request: FloatRequest) -> FloatReply {
    match request {
        FloatRequest::Parse(text) => match text.parse::<f64>() {
            Ok(value) => FloatReply::Bits(value.to_bits()),
            Err(_) => FloatReply::Invalid,
        },
        FloatRequest::Narrow(bits) => FloatReply::Bits((f64::from_bits(bits) as f32).to_bits() as u64),
        FloatRequest::Add(a, b) => FloatReply::Bits((f64::from_bits(a) + f64::from_bits(b)).to_bits()),
        FloatRequest::Subtract(a, b) => FloatReply::Bits((f64::from_bits(a) - f64::from_bits(b)).to_bits()),
        FloatRequest::Multiply(a, b) => FloatReply::Bits((f64::from_bits(a) * f64::from_bits(b)).to_bits()),
        FloatRequest::Divide(a, b) => FloatReply::Bits((f64::from_bits(a) / f64::from_bits(b)).to_bits()),
        FloatRequest::Equal(a, b) => FloatReply::Truth(f64::from_bits(a) == f64::from_bits(b)),
        FloatRequest::Print(bits) => FloatReply::Text(f64::from_bits(bits).to_string()),
    }
}

fn compile(source: &str) -> String {
    let program = parse_source(source).unwrap();
    compile_program_to_assembly(&program, &floats).unwrap()
}

fn compile_failure(source: &str) -> CompileError {
    let program = parse_source(source).unwrap();
    compile_program_to_assembly(&program, &floats).unwrap_err()
}
