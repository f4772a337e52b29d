use mould::compiler::{
    compile_program_to_assembly, compile_program_to_executable, compile_source_to_assembly, compile_source_to_executable, ASSEMBLY_HEADER,
    RUNTIME_HELPERS,
};
use mould::parser::parse_source;
use mould::runtime::{FloatReply, FloatRequest};

fn floats(request: FloatRequest) -> FloatReply {
    match request {
        FloatRequest::Parse(text) => match text.parse::<f64>() {
            Ok(value) => FloatReply::Bits(value.to_bits()),
            Err(_) => FloatReply::Invalid,
        },
        FloatRequest::Narrow(bits) => FloatReply::Bits((f64::from_bits(bits) as f32).to_bits() as u64),
        FloatRequest::Add(a, b) => FloatReply::Bits((f64::from_bits(a) + f64::from_bits(b)).to_bits()),
        FloatRequest::Subtract(a, b) => FloatReply::Bits((f64::from_bits(a) - f64::from_bits(b)).to_bits()),
        FloatRequest::Multiply(a, b) => FloatReply::Bits((f64::from_bits(a) * f64::from_bits(b)).to_bits()),
        FloatRequest::Divide(a, b) => FloatReply::Bits((f64::from_bits(a) / f64::from_bits(b)).to_bits()),
        FloatRequest::Equal(a, b) => FloatReply::Truth(f64::from_bits(a) == f64::from_bits(b)),
        FloatRequest::Print(bits) => FloatReply::Text(f64::from_bits(bits).to_string()),
    }
}

fn assembly(source: &str) -> String {
    compile_source_to_assembly(source, &floats).unwrap()
}

fn failure(source: &str) -> String {
    compile_source_to_assembly(source, &floats).unwrap_err().message
}

#[test]
fn empty_main_has_exact_code() {
    let text = assembly("fn main() {}");
    let main = ".globl _main\n.p2align 2\n_main:\n    stp x29, x30, [sp, #-16]!\n    mov x29, sp\nL_mould_main_return:\n    mov x0, #0\n    ldp x29, x30, [sp], #16\n    ret\n\n";
    assert_eq!(text, format!("{ASSEMBLY_HEADER}{main}{RUNTIME_HELPERS}.subsections_via_symbols\n"));
}

#[test]
fn assembly_is_framed_by_header_and_helpers() {
    let text = assembly("fn helper() -> i32 { return 3 } fn main() { println(helper()) }");
    assert!(text.starts_with(".build_version macos, 11, 0\n"));
    assert!(text.starts_with(ASSEMBLY_HEADER));
    assert!(text.ends_with("    ret\n\n.subsections_via_symbols\n"));
    assert!(text.contains(".globl _mould_helper\n.p2align 2\n_mould_helper:\n"));
    assert!(text.contains("    bl _mould_helper\n    sxtw x0, w0\n"));
}

#[test]
fn wide_integer_literal_uses_movk() {
    let text = assembly("fn main() { let x: u64 = 65537 }");
    assert!(text.contains("    sub sp, sp, #16\n    movz x0, #1\n    movk x0, #1, lsl #16\n    sub x9, x29, #8\n    str x0, [x9]\n"));
    assert!(text.contains("    add sp, sp, #16\n    ldp x29, x30, [sp], #16\n"));
}

#[test]
fn u128_literal_fills_both_registers() {
    let text = assembly("fn main() { let x: u128 = 18446744073709551617 }");
    assert!(text.contains("    movz x0, #1\n    movz x1, #1\n    sub x9, x29, #16\n    str x0, [x9]\n    str x1, [x9, #8]\n"));
}

#[test]
fn double_literal_is_loaded_as_its_bits() {
    let text = assembly("fn main() { let x: f64 = 1.5 }");
    assert!(text.contains("    movz x0, #0\n    movk x0, #16376, lsl #48\n"));
}

#[test]
fn single_literal_is_narrowed() {
    let text = assembly("fn main() { let x: f32 = 1.5 }");
    assert!(text.contains("    movz x0, #0\n    movk x0, #16320, lsl #16\n"));
}

#[test]
fn labels_are_numbered_across_functions() {
    let text = assembly("fn a() { if true { println(1) } } fn main() { if false { println(2) } }");
    assert!(text.contains("L_mould_if_else_0:\n"));
    assert!(text.contains("L_mould_if_end_1:\n"));
    assert!(text.contains("L_mould_if_else_2:\n"));
    assert!(text.contains("L_mould_if_end_3:\n"));
}

#[test]
fn while_loop_branches_back() {
    let text = assembly("fn main() { while true { continue } }");
    assert!(text.contains("L_mould_while_start_0:\n    mov x0, #1\n    cmp x0, #0\n    b.eq L_mould_while_end_1\n    b L_mould_while_start_0\n    b L_mould_while_start_0\nL_mould_while_end_1:\n"));
}

#[test]
fn struct_fields_follow_declaration_order() {
    let text = assembly("struct P { a: i32, b: u128, c: bool } fn main() { let p: P = P { c: true, a: 1, b: 2 } println(p.c) }");
    assert!(text.contains("    sub sp, sp, #32\n"));
    assert!(text.contains("    sub x9, x29, #32\n    str x0, [x9]\n"));
    assert!(text.contains("    sub x9, x29, #24\n    str x0, [x9]\n    str x1, [x9, #8]\n"));
    assert!(text.contains("    sub x9, x29, #8\n    str x0, [x9]\n"));
    assert!(text.contains("    add x0, x0, #24\n    ldr x0, [x0]\n    and x0, x0, #0xff\n"));
}

#[test]
fn main_with_parameters_is_refused() {
    assert_eq!(failure("fn main(a: i32) {}"), "function `main` cannot have parameters");
}

#[test]
fn recursive_struct_is_refused() {
    assert_eq!(failure("struct A { next: A } fn main() {}"), "recursive struct `A` is not supported");
}

#[test]
fn struct_results_are_refused() {
    assert_eq!(
        failure("struct P { x: i32 } fn make() -> P { return P { x: 1 } } fn main() {}"),
        "native backend cannot return structs yet"
    );
}

#[test]
fn printing_structs_is_refused() {
    assert_eq!(
        failure("struct P { x: i32 } fn main() { let p: P = P { x: 1 } println(p) }"),
        "native backend cannot print structs yet"
    );
}

#[test]
fn comparing_structs_is_refused() {
    assert_eq!(
        failure("struct P { x: i32 } fn main() { let p: P = P { x: 1 } let q: P = P { x: 1 } println(p == q) }"),
        "native backend cannot compare structs yet"
    );
}

#[test]
fn too_many_argument_registers_are_refused() {
    assert_eq!(
        failure("fn f(a: u128, b: u128, c: u128, d: u128, e: i32) {} fn main() {}"),
        "native backend supports up to 8 argument registers"
    );
}

#[test]
fn eight_argument_registers_are_enough() {
    let text = assembly("fn f(a: u128, b: u128, c: u128, d: u128) {} fn main() { f(1, 2, 3, 4) }");
    assert!(text.contains("    ldr x6, [sp, #48]\n    ldr x7, [sp, #56]\n    add sp, sp, #64\n    bl _mould_f\n"));
}

#[test]
fn checker_errors_come_first() {
    assert_eq!(failure("fn main() { break }"), "cannot `break` outside loop");
}

#[test]
fn missing_main_is_refused() {
    assert_eq!(failure(""), "function `main` not found");
}

#[test]
fn parse_errors_give_their_span() {
    let error = parse_source("fn").unwrap_err();
    let expected = format!("parse error at {}..{}: {}", error.span.start, error.span.end, error.message);
    assert_eq!(failure("fn"), expected);
    assert!(expected.starts_with("parse error at 2..2: "));
}

#[test]
fn executables_need_the_native_target() {
    assert_eq!(
        compile_source_to_executable("fn main() {}", false, &floats).unwrap_err().message,
        "native backend currently supports only macOS arm64"
    );
    let parse_error = compile_source_to_executable("fn", false, &floats).unwrap_err().message;
    assert!(parse_error.starts_with("parse error at 2..2: "));
    assert_eq!(
        compile_source_to_executable("fn main() { println(1) }", true, &floats).unwrap(),
        assembly("fn main() { println(1) }")
    );
}

#[test]
fn program_and_source_give_the_same_text() {
    let source = "fn main() { let p: &u8 = alloc(7) println(*p) dealloc(p) }";
    let program = parse_source(source).unwrap();
    assert_eq!(compile_program_to_assembly(&program, &floats).unwrap(), assembly(source));
}

#[test]
fn large_frames_use_a_scratch_register() {
    let mut body = String::new();
    for index in 0..520 {
        body.push_str(&format!("let v{index}: i64 = {index} "));
    }
    let text = assembly(&format!("fn main() {{ {body} }}"));
    assert!(text.contains("    movz x16, #4160\n    sub sp, sp, x16\n"));
    assert!(text.contains("    movz x16, #4160\n    add sp, sp, x16\n"));
}

#[test]
fn functions_appear_in_declaration_order() {
    let text = assembly("fn first() {} fn main() { first() } fn last() {}");
    let first = text.find(".globl _mould_first\n.p2align 2\n_mould_first:\n").unwrap();
    let main = text.find(".globl _main\n.p2align 2\n_main:\n").unwrap();
    let last = text.find(".globl _mould_last\n.p2align 2\n_mould_last:\n").unwrap();
    assert!(first < main && main < last);
}

#[test]
fn program_executables_need_the_native_target() {
    let program = parse_source("fn main() { println(2) }").unwrap();
    assert_eq!(
        compile_program_to_executable(&program, false, &floats).unwrap_err().message,
        "native backend currently supports only macOS arm64"
    );
    assert_eq!(
        compile_program_to_executable(&program, true, &floats).unwrap(),
        compile_program_to_assembly(&program, &floats).unwrap()
    );
}
