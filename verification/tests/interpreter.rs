use mould::lexer::{lex, TokenKind};
use mould::parser::parse_source;
use mould::runtime::{run_main, run_main_with_budget, FloatReply, FloatRequest};
use mould::typechecker::check_program;

fn floats(request: FloatRequest) -> FloatReply {
    match request {
        FloatRequest::Parse(text) => match text.parse::<f64>() {
            Ok(value) => FloatReply::Bits(value.to_bits()),
            Err(_) => FloatReply::Invalid,
        },
        FloatRequest::Narrow(bits) => FloatReply::Bits((f64::from_bits(bits) as f32).to_bits() as u64),
        FloatRequest::Add(a, b) => FloatReply::Bits((f64::from_bits(a) + f64::from_bits(b)).to_bits()),
        FloatRequest::Subtract(a, b) => FloatReply::Bits((f64::from_bits(a) - f64::from_bits(b)).to_bits()),
        FloatRequest::Multiply(a, b) => FloatReply::Bits((f64::from_bits(a) * f64::from_bits(b)).to_bits()),
        FloatRequest::Divide(a, b) => FloatReply::Bits((f64::from_bits(a) / f64::from_bits(b)).to_bits()),
        FloatRequest::Equal(a, b) => FloatReply::Truth(f64::from_bits(a) == f64::from_bits(b)),
        FloatRequest::Print(bits) => FloatReply::Text(f64::from_bits(bits).to_string()),
    }
}

fn output(source: &str) -> String {
    run_main(&parse_source(source).unwrap(), &floats).unwrap()
}

fn failure(source: &str) -> String {
    run_main(&parse_source(source).unwrap(), &floats).unwrap_err().message
}

#[test]
fn tokens_end_with_end_of_file() {
    let tokens = lex("fn main() {}").unwrap();
    assert_eq!(tokens.last().unwrap().kind, TokenKind::Eof);
    assert_eq!(lex("").unwrap().len(), 1);
    assert_eq!(lex("").unwrap()[0].kind, TokenKind::Eof);
}

#[test]
fn unexpected_character_is_reported() {
    let error = lex("fn main() { $ }").unwrap_err();
    assert_eq!(error.message, "unexpected character `$`");
    assert_eq!(error.span.start, 12);
}

#[test]
fn endless_loop_exhausts_the_budget() {
    let program = parse_source("fn main() { loop { println(1) } }").unwrap();
    assert_eq!(
        run_main_with_budget(&program, &floats, 3).unwrap_err().message,
        "execution budget exhausted"
    );
}

#[test]
fn a_sufficient_budget_gives_the_full_output() {
    let program = parse_source("fn main() { while false { } println(5) }").unwrap();
    assert_eq!(run_main_with_budget(&program, &floats, 1).unwrap(), "5\n");
    assert_eq!(run_main_with_budget(&program, &floats, 1000).unwrap(), "5\n");
    assert_eq!(run_main(&program, &floats).unwrap(), "5\n");
    assert_eq!(run_main_with_budget(&program, &floats, 0).unwrap_err().message, "execution budget exhausted");
}

#[test]
fn recursion_runs_within_the_budget() {
    let source = "fn count(n: i32) -> i32 { if n == 0 { return 0 } return 1 + count(n - 1) } fn main() { println(count(5)) }";
    assert_eq!(output(source), "5\n");
}

#[test]
fn integer_overflow_is_reported() {
    assert!(failure("fn main() { let x: i8 = 100 + 100 }").contains("does not fit in `i8`"));
    assert!(failure("fn main() { let x: u64 = 18446744073709551615 + 1 }").contains("does not fit in `u64`"));
}

#[test]
fn wide_integers_print_in_full() {
    assert_eq!(
        output("fn main() { let x: u128 = 340282366920938463463374607431768211455 println(x) }"),
        "340282366920938463463374607431768211455\n"
    );
    assert_eq!(output("fn main() { let x: i128 = 0 - 5 println(x) }"), "-5\n");
}

#[test]
fn float_division_by_zero_is_reported() {
    assert_eq!(failure("fn main() { let x: f64 = 1.0 / 0.0 }"), "division by zero");
}

#[test]
fn float_equality_compares_values() {
    assert_eq!(output("fn main() { println(0.5 + 0.25 == 0.75) }"), "true\n");
}

#[test]
fn single_precision_values_print() {
    assert_eq!(output("fn main() { let x: f32 = 2.5 println(x) }"), "2.5\n");
}

#[test]
fn pointer_writes_are_seen_through_other_pointers() {
    let source = "struct P { x: i32 } fn main() { let p: &P = alloc(P { x: 1 }) let q: &P = p println(q.x) dealloc(q) }";
    assert_eq!(output(source), "1\n");
}

#[test]
fn double_free_is_reported() {
    let message = failure("fn main() { let p: &i32 = alloc(1) dealloc(p) dealloc(p) }");
    assert_eq!(message, "allocation is already freed");
}

#[test]
fn checker_reports_unknown_struct_in_literal() {
    let program = parse_source("fn main() { println(Q { x: 1 }) }").unwrap();
    assert_eq!(check_program(&program).unwrap_err().message, "unknown struct `Q`");
    let program = parse_source("fn main() { let p: i32 = Q { x: 1 } }").unwrap();
    assert_eq!(check_program(&program).unwrap_err().message, "cannot use `Q` value as `i32`");
}

#[test]
fn checker_reports_duplicate_struct() {
    let program = parse_source("struct A { x: i32 } struct A { y: i32 } fn main() {}").unwrap();
    assert_eq!(check_program(&program).unwrap_err().message, "struct `A` is already defined");
}

#[test]
fn checker_accepts_nested_blocks() {
    let program = parse_source("fn main() { loop { if true { break } else { continue } } }").unwrap();
    let checked = check_program(&program).unwrap();
    assert_eq!(checked.functions.len(), 1);
}

#[test]
fn checker_tables_follow_declaration_order() {
    let program = parse_source(
        "struct B { x: i32 } struct A { b: B, y: bool } fn second(a: A) -> i32 { return a.b.x } fn main() { }",
    )
    .unwrap();
    let checked = check_program(&program).unwrap();
    let struct_names: Vec<&str> = checked.structs.iter().map(|(name, _)| name.as_str()).collect();
    assert_eq!(struct_names, ["B", "A"]);
    assert_eq!(checked.structs[1].1.fields.len(), 2);
    let function_names: Vec<&str> = checked.functions.iter().map(|(name, _)| name.as_str()).collect();
    assert_eq!(function_names, ["second", "main"]);
    assert_eq!(checked.functions[0].1.parameters.len(), 1);
    assert!(checked.functions[1].1.return_type.is_none());
}

#[test]
fn printed_text_is_whole_lines_in_order() {
    let text = output("fn show(n: i32) { println(n) } fn main() { show(1) println(true) show(2) }");
    assert_eq!(text, "1\ntrue\n2\n");
    assert!(text.ends_with('\n'));
}

#[test]
fn token_spans_are_in_order() {
    let tokens = lex("fn main() {}").unwrap();
    let spans: Vec<(usize, usize)> = tokens.iter().map(|token| (token.span.start, token.span.end)).collect();
    assert_eq!(spans, [(0, 2), (3, 7), (7, 8), (8, 9), (10, 11), (11, 12), (12, 12)]);
    let tokens = lex("a != b").unwrap();
    let spans: Vec<(usize, usize)> = tokens.iter().map(|token| (token.span.start, token.span.end)).collect();
    assert_eq!(spans, [(0, 1), (2, 4), (5, 6), (6, 6)]);
}
