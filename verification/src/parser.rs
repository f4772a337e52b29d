//! Turns tokens into a syntax tree.
//!
//! The grammar is read by recursive descent.  Each `s_*` spec function states
//! what reading one construct from token position `p` gives: the construct's
//! model and the position after it, or the error.  The executable readers
//! below are proved to give exactly the same.
use vstd::prelude::*;
use vstd::string::StringExecFns;
use crate::ast::{
    lemma_exprs_view_push, lemma_field_inits_view_push, lemma_stmts_view_push, type_eq,
    BinaryExpression, BinaryOperator, BindingView, Block, CallExpression, CallStatement,
    ExprView, Expression, FieldAccess, FieldInitView, Function, FunctionParameter, FunctionView,
    IfStatement, LetStatement, LoopStatement, Program, ProgramView, ReturnStatement, Statement,
    StmtView, StructDefView, StructDefinition, StructField, StructLiteral, StructLiteralField,
    Type, TypeView, WhileStatement, exprs_view, field_inits_view, stmts_view,
};
use crate::lexer::{lemma_lex_ends_with_eof, lex, spec_lex, tokens_view, Span, Token, TokenKind, TokenKindView, TokenView};
use crate::text::{chars_of, concat3, utf8_len};

verus! {

/// A syntax error, with the place of the token where it was found.
#[derive(Debug, Clone, PartialEq, Eq)]
pub struct ParseError {
    pub message: String,
    pub span: Span,
}

/// The model of a [`ParseError`].
pub struct ParseErrorView {
    pub message: Seq<char>,
    pub span: Span,
}

impl View for ParseError {
    type V = ParseErrorView;

    open spec fn view(&self) -> ParseErrorView {
        ParseErrorView { message: self.message@, span: self.span }
    }
}

/// How an error message names a token.
pub open spec fn describe_kind(kind: TokenKindView) -> Seq<char> {
    match kind {
        TokenKindView::Fn => "`fn`"@,
        TokenKindView::If => "`if`"@,
        TokenKindView::Else => "`else`"@,
        TokenKindView::Let => "`let`"@,
        TokenKindView::Loop => "`loop`"@,
        TokenKindView::While => "`while`"@,
        TokenKindView::Break => "`break`"@,
        TokenKindView::Continue => "`continue`"@,
        TokenKindView::Pub => "`pub`"@,
        TokenKindView::Return => "`return`"@,
        TokenKindView::Struct => "`struct`"@,
        TokenKindView::LeftParen => "`(`"@,
        TokenKindView::RightParen => "`)`"@,
        TokenKindView::LeftBrace => "`{`"@,
        TokenKindView::RightBrace => "`}`"@,
        TokenKindView::Ampersand => "`&`"@,
        TokenKindView::DoubleAmpersand => "`&&`"@,
        TokenKindView::Pipe => "`|`"@,
        TokenKindView::DoublePipe => "`||`"@,
        TokenKindView::Caret => "`^`"@,
        TokenKindView::Bang => "`!`"@,
        TokenKindView::BangEqual => "`!=`"@,
        TokenKindView::Colon => "`:`"@,
        TokenKindView::Comma => "`,`"@,
        TokenKindView::Dot => "`.`"@,
        TokenKindView::Plus => "`+`"@,
        TokenKindView::Minus => "`-`"@,
        TokenKindView::Star => "`*`"@,
        TokenKindView::Slash => "`/`"@,
        TokenKindView::LeftShift => "`<<`"@,
        TokenKindView::RightShift => "`>>`"@,
        TokenKindView::Arrow => "`->`"@,
        TokenKindView::Equal => "`=`"@,
        TokenKindView::EqualEqual => "`==`"@,
        TokenKindView::Semicolon => "`;`"@,
        TokenKindView::Eof => "end of file"@,
        TokenKindView::PrimitiveType(t) => "type `"@ + t.name() + "`"@,
        TokenKindView::BoolLiteral(v) => if v { "bool literal `true`"@ } else { "bool literal `false`"@ },
        TokenKindView::Ident(n) => "identifier `"@ + n + "`"@,
        TokenKindView::Integer(v) => "integer literal `"@ + v + "`"@,
        TokenKindView::Float(v) => "float literal `"@ + v + "`"@,
    }
}

fn describe_token_kind(kind: &TokenKind) -> (r: String)
    ensures
        r@ == describe_kind(kind@),
{
    match kind {
        TokenKind::Fn => String::from_str("`fn`"),
        TokenKind::If => String::from_str("`if`"),
        TokenKind::Else => String::from_str("`else`"),
        TokenKind::Let => String::from_str("`let`"),
        TokenKind::Loop => String::from_str("`loop`"),
        TokenKind::While => String::from_str("`while`"),
        TokenKind::Break => String::from_str("`break`"),
        TokenKind::Continue => String::from_str("`continue`"),
        TokenKind::Pub => String::from_str("`pub`"),
        TokenKind::Return => String::from_str("`return`"),
        TokenKind::Struct => String::from_str("`struct`"),
        TokenKind::LeftParen => String::from_str("`(`"),
        TokenKind::RightParen => String::from_str("`)`"),
        TokenKind::LeftBrace => String::from_str("`{`"),
        TokenKind::RightBrace => String::from_str("`}`"),
        TokenKind::Ampersand => String::from_str("`&`"),
        TokenKind::DoubleAmpersand => String::from_str("`&&`"),
        TokenKind::Pipe => String::from_str("`|`"),
        TokenKind::DoublePipe => String::from_str("`||`"),
        TokenKind::Caret => String::from_str("`^`"),
        TokenKind::Bang => String::from_str("`!`"),
        TokenKind::BangEqual => String::from_str("`!=`"),
        TokenKind::Colon => String::from_str("`:`"),
        TokenKind::Comma => String::from_str("`,`"),
        TokenKind::Dot => String::from_str("`.`"),
        TokenKind::Plus => String::from_str("`+`"),
        TokenKind::Minus => String::from_str("`-`"),
        TokenKind::Star => String::from_str("`*`"),
        TokenKind::Slash => String::from_str("`/`"),
        TokenKind::LeftShift => String::from_str("`<<`"),
        TokenKind::RightShift => String::from_str("`>>`"),
        TokenKind::Arrow => String::from_str("`->`"),
        TokenKind::Equal => String::from_str("`=`"),
        TokenKind::EqualEqual => String::from_str("`==`"),
        TokenKind::Semicolon => String::from_str("`;`"),
        TokenKind::Eof => String::from_str("end of file"),
        TokenKind::PrimitiveType(t) => { let name = t.name(); concat3("type `", name.as_str(), "`") },
        TokenKind::BoolLiteral(v) => if *v { String::from_str("bool literal `true`") } else { String::from_str("bool literal `false`") },
        TokenKind::Ident(n) => concat3("identifier `", n.as_str(), "`"),
        TokenKind::Integer(v) => concat3("integer literal `", v.as_str(), "`"),
        TokenKind::Float(v) => concat3("float literal `", v.as_str(), "`"),
    }
}

/// Whether two token kinds are equal.
fn kind_eq(a: &TokenKind, b: &TokenKind) -> (r: bool)
    ensures
        r == (a@ == b@),
{
    match (a, b) {
        (TokenKind::Fn, TokenKind::Fn) => true,
        (TokenKind::If, TokenKind::If) => true,
        (TokenKind::Else, TokenKind::Else) => true,
        (TokenKind::Let, TokenKind::Let) => true,
        (TokenKind::Loop, TokenKind::Loop) => true,
        (TokenKind::While, TokenKind::While) => true,
        (TokenKind::Break, TokenKind::Break) => true,
        (TokenKind::Continue, TokenKind::Continue) => true,
        (TokenKind::Pub, TokenKind::Pub) => true,
        (TokenKind::Return, TokenKind::Return) => true,
        (TokenKind::Struct, TokenKind::Struct) => true,
        (TokenKind::LeftParen, TokenKind::LeftParen) => true,
        (TokenKind::RightParen, TokenKind::RightParen) => true,
        (TokenKind::LeftBrace, TokenKind::LeftBrace) => true,
        (TokenKind::RightBrace, TokenKind::RightBrace) => true,
        (TokenKind::Ampersand, TokenKind::Ampersand) => true,
        (TokenKind::DoubleAmpersand, TokenKind::DoubleAmpersand) => true,
        (TokenKind::Pipe, TokenKind::Pipe) => true,
        (TokenKind::DoublePipe, TokenKind::DoublePipe) => true,
        (TokenKind::Caret, TokenKind::Caret) => true,
        (TokenKind::Bang, TokenKind::Bang) => true,
        (TokenKind::BangEqual, TokenKind::BangEqual) => true,
        (TokenKind::Colon, TokenKind::Colon) => true,
        (TokenKind::Comma, TokenKind::Comma) => true,
        (TokenKind::Dot, TokenKind::Dot) => true,
        (TokenKind::Plus, TokenKind::Plus) => true,
        (TokenKind::Minus, TokenKind::Minus) => true,
        (TokenKind::Star, TokenKind::Star) => true,
        (TokenKind::Slash, TokenKind::Slash) => true,
        (TokenKind::LeftShift, TokenKind::LeftShift) => true,
        (TokenKind::RightShift, TokenKind::RightShift) => true,
        (TokenKind::Arrow, TokenKind::Arrow) => true,
        (TokenKind::Equal, TokenKind::Equal) => true,
        (TokenKind::EqualEqual, TokenKind::EqualEqual) => true,
        (TokenKind::Semicolon, TokenKind::Semicolon) => true,
        (TokenKind::Eof, TokenKind::Eof) => true,
        (TokenKind::PrimitiveType(x), TokenKind::PrimitiveType(y)) => type_eq(x, y),
        (TokenKind::BoolLiteral(x), TokenKind::BoolLiteral(y)) => *x == *y,
        (TokenKind::Ident(x), TokenKind::Ident(y)) => *x == *y,
        (TokenKind::Integer(x), TokenKind::Integer(y)) => *x == *y,
        (TokenKind::Float(x), TokenKind::Float(y)) => *x == *y,
        _ => false,
    }
}

/// The kind of the token at `p` (past the end: end of file).
pub open spec fn kind_at(ts: Seq<TokenView>, p: nat) -> TokenKindView {
    if p < ts.len() {
        ts[p as int].kind
    } else {
        TokenKindView::Eof
    }
}

pub open spec fn span_at(ts: Seq<TokenView>, p: nat) -> Span {
    if p < ts.len() {
        ts[p as int].span
    } else {
        Span { start: 0, end: 0 }
    }
}

pub open spec fn error_at(ts: Seq<TokenView>, p: nat, message: Seq<char>) -> ParseErrorView {
    ParseErrorView { message, span: span_at(ts, p) }
}

/// "expected <label>, found <token>" at `p`.
pub open spec fn expected_error(ts: Seq<TokenView>, p: nat, label: Seq<char>) -> ParseErrorView {
    error_at(ts, p, "expected "@ + label + ", found "@ + describe_kind(kind_at(ts, p)))
}

/// Reading past the last token (which a token sequence from the lexer never asks).
pub open spec fn end_error() -> ParseErrorView {
    ParseErrorView { message: "unexpected end of input"@, span: Span { start: 0, end: 0 } }
}

/// Token sequences as the lexer makes them: non-empty, ending with end of file.
pub open spec fn well_formed_tokens(ts: Seq<TokenView>) -> bool {
    ts.len() > 0 && ts[ts.len() - 1].kind is Eof
}

pub open spec fn s_expect(ts: Seq<TokenView>, p: nat, kind: TokenKindView, label: Seq<char>) -> Result<
    nat,
    ParseErrorView,
> {
    if kind_at(ts, p) == kind {
        Ok(p + 1)
    } else {
        Err(expected_error(ts, p, label))
    }
}

pub open spec fn s_expect_identifier(ts: Seq<TokenView>, p: nat, label: Seq<char>) -> Result<
    (Seq<char>, nat),
    ParseErrorView,
> {
    match kind_at(ts, p) {
        TokenKindView::Ident(name) => Ok((name, p + 1)),
        _ => Err(expected_error(ts, p, label)),
    }
}

pub open spec fn s_eat(ts: Seq<TokenView>, p: nat, kind: TokenKindView) -> nat {
    if kind_at(ts, p) == kind {
        p + 1
    } else {
        p
    }
}

/// Names of struct types start with an upper-case ASCII letter.
pub open spec fn starts_uppercase(name: Seq<char>) -> bool {
    name.len() > 0 && 'A' <= name[0] && name[0] <= 'Z'
}

/// A type: a primitive, `&` and a type, or a struct name.
pub open spec fn s_type(ts: Seq<TokenView>, p: nat) -> Result<(TypeView, nat), ParseErrorView>
    decreases ts.len() - p,
{
    if p >= ts.len() {
        Err(end_error())
    } else {
        match kind_at(ts, p) {
            TokenKindView::PrimitiveType(t) => Ok((t, p + 1)),
            TokenKindView::Ampersand => match s_type(ts, p + 1) {
                Ok((t, p2)) => Ok((TypeView::Pointer(Box::new(t)), p2)),
                Err(e) => Err(e),
            },
            TokenKindView::Ident(name) => if starts_uppercase(name) {
                Ok((TypeView::Struct(name), p + 1))
            } else {
                Err(expected_error(ts, p, "primitive type"@))
            },
            _ => Err(expected_error(ts, p, "primitive type"@)),
        }
    }
}

/// The value of a digit of an integer literal.
pub open spec fn literal_digit(c: char) -> nat {
    if '0' <= c && c <= '9' {
        ((c as u32) - ('0' as u32)) as nat
    } else {
        0
    }
}

/// The value that the text of an integer literal denotes.
pub open spec fn literal_value(text: Seq<char>) -> nat
    decreases text.len(),
{
    if text.len() == 0 {
        0
    } else {
        literal_value(text.drop_last()) * 10 + literal_digit(text.last())
    }
}

/// The operator that a token stands for at a precedence level (0 binds loosest).
pub open spec fn binary_operator_at(level: nat, kind: TokenKindView) -> Option<BinaryOperator> {
    match kind {
        TokenKindView::DoublePipe => if level == 0 { Some(BinaryOperator::BoolOr) } else { None },
        TokenKindView::DoubleAmpersand => if level == 1 { Some(BinaryOperator::BoolAnd) } else { None },
        TokenKindView::EqualEqual => if level == 2 { Some(BinaryOperator::Equal) } else { None },
        TokenKindView::BangEqual => if level == 2 { Some(BinaryOperator::NotEqual) } else { None },
        TokenKindView::Pipe => if level == 3 { Some(BinaryOperator::BitOr) } else { None },
        TokenKindView::Caret => if level == 4 { Some(BinaryOperator::BitXor) } else { None },
        TokenKindView::Ampersand => if level == 5 { Some(BinaryOperator::BitAnd) } else { None },
        TokenKindView::LeftShift => if level == 6 { Some(BinaryOperator::ShiftLeft) } else { None },
        TokenKindView::RightShift => if level == 6 { Some(BinaryOperator::ShiftRight) } else { None },
        TokenKindView::Plus => if level == 7 { Some(BinaryOperator::Add) } else { None },
        TokenKindView::Minus => if level == 7 { Some(BinaryOperator::Subtract) } else { None },
        TokenKindView::Star => if level == 8 { Some(BinaryOperator::Multiply) } else { None },
        TokenKindView::Slash => if level == 8 { Some(BinaryOperator::Divide) } else { None },
        _ => None,
    }
}

pub open spec fn level_rank(level: nat) -> int {
    if level < 9 {
        20 - level
    } else {
        11
    }
}

/// An expression; struct literals are read only where `structs` holds.
pub open spec fn s_expr(ts: Seq<TokenView>, p: nat, structs: bool) -> Result<
    (ExprView, nat),
    ParseErrorView,
>
    decreases ts.len() - p, 40int,
{
    if p >= ts.len() {
        Err(end_error())
    } else {
        s_binary(ts, p, 0, structs)
    }
}

/// Operands joined by operators of precedence `level` or tighter, left to right.
pub open spec fn s_binary(ts: Seq<TokenView>, p: nat, level: nat, structs: bool) -> Result<
    (ExprView, nat),
    ParseErrorView,
>
    decreases ts.len() - p, level_rank(level),
{
    if p >= ts.len() {
        Err(end_error())
    } else if level >= 9 {
        s_unary(ts, p, structs)
    } else {
        match s_binary(ts, p, level + 1, structs) {
            Err(e) => Err(e),
            Ok((left, p1)) => if p < p1 <= ts.len() {
                s_binary_rest(ts, p1, level, left, structs)
            } else {
                Ok((left, p1))
            },
        }
    }
}

/// After a left operand: more operators of exactly this `level`, each with its right operand.
pub open spec fn s_binary_rest(
    ts: Seq<TokenView>,
    p: nat,
    level: nat,
    left: ExprView,
    structs: bool,
) -> Result<(ExprView, nat), ParseErrorView>
    decreases ts.len() - p, 0int,
{
    if p >= ts.len() {
        Err(end_error())
    } else {
        match binary_operator_at(level, kind_at(ts, p)) {
            None => Ok((left, p)),
            Some(operator) => match s_binary(ts, p + 1, level + 1, structs) {
                Err(e) => Err(e),
                Ok((right, p2)) => {
                    let combined = ExprView::Binary {
                        left: Box::new(left),
                        operator,
                        right: Box::new(right),
                    };
                    if p < p2 <= ts.len() {
                        s_binary_rest(ts, p2, level, combined, structs)
                    } else {
                        Ok((combined, p2))
                    }
                },
            },
        }
    }
}

/// `!`, `&` or `*` before an operand, or an operand with its field reads.
pub open spec fn s_unary(ts: Seq<TokenView>, p: nat, structs: bool) -> Result<
    (ExprView, nat),
    ParseErrorView,
>
    decreases ts.len() - p, 10int,
{
    if p >= ts.len() {
        Err(end_error())
    } else {
        match kind_at(ts, p) {
            TokenKindView::Bang => match s_unary(ts, p + 1, structs) {
                Ok((e, p2)) => Ok((ExprView::BitNot(Box::new(e)), p2)),
                Err(e) => Err(e),
            },
            TokenKindView::Ampersand => match s_unary(ts, p + 1, structs) {
                Ok((e, p2)) => Ok((ExprView::AddressOf(Box::new(e)), p2)),
                Err(e) => Err(e),
            },
            TokenKindView::Star => match s_unary(ts, p + 1, structs) {
                Ok((e, p2)) => Ok((ExprView::Dereference(Box::new(e)), p2)),
                Err(e) => Err(e),
            },
            _ => match s_primary(ts, p, structs) {
                Err(e) => Err(e),
                Ok((e, p1)) => if p < p1 <= ts.len() {
                    s_postfix_rest(ts, p1, e)
                } else {
                    Ok((e, p1))
                },
            },
        }
    }
}

/// Field reads `.name` after an operand.
pub open spec fn s_postfix_rest(ts: Seq<TokenView>, p: nat, object: ExprView) -> Result<
    (ExprView, nat),
    ParseErrorView,
>
    decreases ts.len() - p,
{
    if p >= ts.len() {
        Err(end_error())
    } else if kind_at(ts, p) is Dot {
        match s_expect_identifier(ts, p + 1, "field name"@) {
            Err(e) => Err(e),
            Ok((field, p2)) => s_postfix_rest(
                ts,
                p2,
                ExprView::FieldAccess { object: Box::new(object), field },
            ),
        }
    } else {
        Ok((object, p))
    }
}

pub open spec fn integer_too_large_message(text: Seq<char>) -> Seq<char> {
    "integer literal `"@ + text + "` does not fit in u128"@
}

/// A literal, a variable, a call, a struct literal, or an expression in parentheses.
pub open spec fn s_primary(ts: Seq<TokenView>, p: nat, structs: bool) -> Result<
    (ExprView, nat),
    ParseErrorView,
>
    decreases ts.len() - p, 8int,
{
    if p >= ts.len() {
        Err(end_error())
    } else {
        match kind_at(ts, p) {
            TokenKindView::Integer(text) => if literal_value(text) <= u128::MAX {
                Ok((ExprView::Integer(literal_value(text) as u128), p + 1))
            } else {
                Err(error_at(ts, p, integer_too_large_message(text)))
            },
            TokenKindView::Float(text) => Ok((ExprView::Float(text), p + 1)),
            TokenKindView::BoolLiteral(b) => Ok((ExprView::Bool(b), p + 1)),
            TokenKindView::Ident(name) => if kind_at(ts, p + 1) is LeftParen {
                match s_call_arguments(ts, p + 2) {
                    Ok((arguments, p2)) => Ok((ExprView::Call { name, arguments }, p2)),
                    Err(e) => Err(e),
                }
            } else if structs && kind_at(ts, p + 1) is LeftBrace {
                match s_field_inits(ts, p + 2, Seq::empty()) {
                    Ok((fields, p2)) => Ok((ExprView::StructLiteral { name, fields }, p2)),
                    Err(e) => Err(e),
                }
            } else {
                Ok((ExprView::Variable(name), p + 1))
            },
            TokenKindView::LeftParen => match s_expr(ts, p + 1, true) {
                Err(e) => Err(e),
                Ok((e, p2)) => match s_expect(ts, p2, TokenKindView::RightParen, "`)`"@) {
                    Ok(p3) => Ok((e, p3)),
                    Err(err) => Err(err),
                },
            },
            _ => Err(expected_error(ts, p, "expression"@)),
        }
    }
}

/// The arguments of a call, from just after `(` to just after `)`.
pub open spec fn s_call_arguments(ts: Seq<TokenView>, p: nat) -> Result<
    (Seq<ExprView>, nat),
    ParseErrorView,
>
    decreases ts.len() - p, 60int,
{
    if p >= ts.len() {
        Err(end_error())
    } else if kind_at(ts, p) is RightParen {
        Ok((Seq::empty(), p + 1))
    } else {
        s_argument_list(ts, p, Seq::empty())
    }
}

/// Arguments separated by commas and closed by `)`, after the arguments `acc`.
pub open spec fn s_argument_list(ts: Seq<TokenView>, p: nat, acc: Seq<ExprView>) -> Result<
    (Seq<ExprView>, nat),
    ParseErrorView,
>
    decreases ts.len() - p, 50int,
{
    if p >= ts.len() {
        Err(end_error())
    } else {
        match s_expr(ts, p, true) {
            Err(e) => Err(e),
            Ok((e, p2)) => if kind_at(ts, p2) is Comma {
                if p <= p2 {
                    s_argument_list(ts, p2 + 1, acc.push(e))
                } else {
                    Ok((acc.push(e), p2 + 1))
                }
            } else {
                match s_expect(ts, p2, TokenKindView::RightParen, "`)`"@) {
                    Ok(p3) => Ok((acc.push(e), p3)),
                    Err(err) => Err(err),
                }
            },
        }
    }
}

/// The fields of a struct literal, from just after `{` to just after `}`.
pub open spec fn s_field_inits(ts: Seq<TokenView>, p: nat, acc: Seq<FieldInitView>) -> Result<
    (Seq<FieldInitView>, nat),
    ParseErrorView,
>
    decreases ts.len() - p, 50int,
{
    if p >= ts.len() {
        Err(end_error())
    } else if kind_at(ts, p) is RightBrace {
        Ok((acc, p + 1))
    } else {
        match s_expect_identifier(ts, p, "field name"@) {
            Err(e) => Err(e),
            Ok((name, p1)) => match s_expect(ts, p1, TokenKindView::Colon, "`:`"@) {
                Err(e) => Err(e),
                Ok(p2) => match s_expr(ts, p2, true) {
                    Err(e) => Err(e),
                    Ok((value, p3)) => {
                        let acc2 = acc.push(FieldInitView { name, value });
                        if kind_at(ts, p3) is Comma {
                            if p <= p3 {
                                s_field_inits(ts, p3 + 1, acc2)
                            } else {
                                Ok((acc2, p3 + 1))
                            }
                        } else {
                            match s_expect(ts, p3, TokenKindView::RightBrace, "`}`"@) {
                                Ok(p4) => Ok((acc2, p4)),
                                Err(err) => Err(err),
                            }
                        }
                    },
                },
            },
        }
    }
}

/// `name(arguments)`.
pub open spec fn s_call(ts: Seq<TokenView>, p: nat) -> Result<
    (Seq<char>, Seq<ExprView>, nat),
    ParseErrorView,
> {
    match s_expect_identifier(ts, p, "function name"@) {
        Err(e) => Err(e),
        Ok((name, p1)) => match s_expect(ts, p1, TokenKindView::LeftParen, "`(`"@) {
            Err(e) => Err(e),
            Ok(p2) => match s_call_arguments(ts, p2) {
                Err(e) => Err(e),
                Ok((arguments, p3)) => Ok((name, arguments, p3)),
            },
        },
    }
}

/// `let name: type = value`, with an optional `;`.
pub open spec fn s_let(ts: Seq<TokenView>, p: nat) -> Result<(StmtView, nat), ParseErrorView> {
    match s_expect_identifier(ts, p + 1, "variable name"@) {
        Err(e) => Err(e),
        Ok((name, p2)) => match s_expect(ts, p2, TokenKindView::Colon, "`:`"@) {
            Err(e) => Err(e),
            Ok(p3) => match s_type(ts, p3) {
                Err(e) => Err(e),
                Ok((ty, p4)) => match s_expect(ts, p4, TokenKindView::Equal, "`=`"@) {
                    Err(e) => Err(e),
                    Ok(p5) => match s_expr(ts, p5, true) {
                        Err(e) => Err(e),
                        Ok((value, p6)) => Ok(
                            (
                                StmtView::Let { name, ty, value },
                                s_eat(ts, p6, TokenKindView::Semicolon),
                            ),
                        ),
                    },
                },
            },
        },
    }
}

/// A block: `{`, statements, `}`.
pub open spec fn s_block(ts: Seq<TokenView>, p: nat) -> Result<(Seq<StmtView>, nat), ParseErrorView>
    decreases ts.len() - p, 0int,
{
    if p >= ts.len() {
        Err(end_error())
    } else {
        match s_expect(ts, p, TokenKindView::LeftBrace, "`{`"@) {
            Err(e) => Err(e),
            Ok(p1) => s_statements(ts, p1, Seq::empty()),
        }
    }
}

/// Statements up to and including the closing `}`, after the statements `acc`.
pub open spec fn s_statements(ts: Seq<TokenView>, p: nat, acc: Seq<StmtView>) -> Result<
    (Seq<StmtView>, nat),
    ParseErrorView,
>
    decreases ts.len() - p, 3int,
{
    if p >= ts.len() {
        Err(end_error())
    } else if kind_at(ts, p) is RightBrace {
        Ok((acc, p + 1))
    } else {
        match s_statement(ts, p) {
            Err(e) => Err(e),
            Ok((s, p2)) => if p < p2 <= ts.len() {
                s_statements(ts, p2, acc.push(s))
            } else {
                Ok((acc.push(s), p2))
            },
        }
    }
}

/// One statement.
pub open spec fn s_statement(ts: Seq<TokenView>, p: nat) -> Result<(StmtView, nat), ParseErrorView>
    decreases ts.len() - p, 2int,
{
    if p >= ts.len() {
        Err(end_error())
    } else {
        match kind_at(ts, p) {
            TokenKindView::Let => s_let(ts, p),
            TokenKindView::Ident(_) => match s_call(ts, p) {
                Err(e) => Err(e),
                Ok((name, arguments, p2)) => Ok(
                    (StmtView::Call { name, arguments }, s_eat(ts, p2, TokenKindView::Semicolon)),
                ),
            },
            TokenKindView::Return => match s_expr(ts, p + 1, true) {
                Err(e) => Err(e),
                Ok((value, p2)) => Ok(
                    (StmtView::Return(value), s_eat(ts, p2, TokenKindView::Semicolon)),
                ),
            },
            TokenKindView::If => s_if(ts, p),
            TokenKindView::Loop => match s_block(ts, p + 1) {
                Err(e) => Err(e),
                Ok((body, p2)) => Ok((StmtView::Loop(body), p2)),
            },
            TokenKindView::While => match s_expr(ts, p + 1, false) {
                Err(e) => Err(e),
                Ok((condition, p2)) => if p < p2 <= ts.len() {
                    match s_block(ts, p2) {
                        Err(e) => Err(e),
                        Ok((body, p3)) => Ok((StmtView::While { condition, body }, p3)),
                    }
                } else {
                    Err(end_error())
                },
            },
            TokenKindView::Break => Ok((StmtView::Break, s_eat(ts, p + 1, TokenKindView::Semicolon))),
            TokenKindView::Continue => Ok(
                (StmtView::Continue, s_eat(ts, p + 1, TokenKindView::Semicolon)),
            ),
            _ => Err(expected_error(ts, p, "statement"@)),
        }
    }
}

/// A `let`, a call, `return`, `break` and `continue` each take the `;` that
/// may follow them: where such a statement ends, either its last token is
/// that `;`, or the next token is not a `;`. So `return e;` never leaves its
/// `;` to be read as the next statement.
pub proof fn law_simple_statements_take_their_semicolon(ts: Seq<TokenView>, p: nat)
    ensures
        match s_statement(ts, p) {
            Ok((s, q)) => (s is Let || s is Call || s is Return || s is Break || s is Continue) ==> ((q >= 1
                && kind_at(ts, (q - 1) as nat) is Semicolon) || !(kind_at(ts, q) is Semicolon)),
            Err(_) => true,
        },
{
}

/// `if condition block`, optionally followed by `else block` or `else if ...`.
pub open spec fn s_if(ts: Seq<TokenView>, p: nat) -> Result<(StmtView, nat), ParseErrorView>
    decreases ts.len() - p, 1int,
{
    if p >= ts.len() {
        Err(end_error())
    } else {
        match s_expr(ts, p + 1, false) {
            Err(e) => Err(e),
            Ok((condition, p2)) => if p < p2 <= ts.len() {
                match s_block(ts, p2) {
                    Err(e) => Err(e),
                    Ok((then_block, p3)) => if p < p3 < ts.len() && kind_at(ts, p3) is Else {
                        if kind_at(ts, p3 + 1) is If {
                            match s_if(ts, p3 + 1) {
                                Err(e) => Err(e),
                                Ok((nested, p4)) => Ok(
                                    (
                                        StmtView::If {
                                            condition,
                                            then_block,
                                            else_block: Some(seq![nested]),
                                        },
                                        p4,
                                    ),
                                ),
                            }
                        } else {
                            match s_block(ts, p3 + 1) {
                                Err(e) => Err(e),
                                Ok((else_block, p4)) => Ok(
                                    (
                                        StmtView::If {
                                            condition,
                                            then_block,
                                            else_block: Some(else_block),
                                        },
                                        p4,
                                    ),
                                ),
                            }
                        }
                    } else {
                        Ok((StmtView::If { condition, then_block, else_block: None }, p3))
                    },
                }
            } else {
                Err(end_error())
            },
        }
    }
}

/// `name: type` entries separated by commas, after the entries `acc`.
pub open spec fn s_bindings(ts: Seq<TokenView>, p: nat, label: Seq<char>, acc: Seq<BindingView>) -> Result<
    (Seq<BindingView>, nat),
    ParseErrorView,
>
    decreases ts.len() - p,
{
    if p >= ts.len() {
        Err(end_error())
    } else {
        match s_expect_identifier(ts, p, label) {
            Err(e) => Err(e),
            Ok((name, p1)) => match s_expect(ts, p1, TokenKindView::Colon, "`:`"@) {
                Err(e) => Err(e),
                Ok(p2) => match s_type(ts, p2) {
                    Err(e) => Err(e),
                    Ok((ty, p3)) => {
                        let acc2 = acc.push(BindingView { name, ty });
                        if kind_at(ts, p3) is Comma && p < p3 {
                            s_bindings(ts, p3 + 1, label, acc2)
                        } else {
                            Ok((acc2, p3))
                        }
                    },
                },
            },
        }
    }
}

/// A function: `fn name(parameters) -> type { ... }`, the return type being optional.
pub open spec fn s_function(ts: Seq<TokenView>, p: nat) -> Result<(FunctionView, nat), ParseErrorView> {
    match s_expect(ts, p, TokenKindView::Fn, "`fn`"@) {
        Err(e) => Err(e),
        Ok(p1) => match s_expect_identifier(ts, p1, "function name"@) {
            Err(e) => Err(e),
            Ok((name, p2)) => match s_expect(ts, p2, TokenKindView::LeftParen, "`(`"@) {
                Err(e) => Err(e),
                Ok(p3) => {
                    let params = if kind_at(ts, p3) is RightParen {
                        Ok((Seq::<BindingView>::empty(), p3))
                    } else {
                        s_bindings(ts, p3, "parameter name"@, Seq::empty())
                    };
                    match params {
                        Err(e) => Err(e),
                        Ok((parameters, p4)) => match s_expect(
                            ts,
                            p4,
                            TokenKindView::RightParen,
                            "`)`"@,
                        ) {
                            Err(e) => Err(e),
                            Ok(p5) => {
                                let ret = if kind_at(ts, p5) is Arrow {
                                    match s_type(ts, p5 + 1) {
                                        Err(e) => Err(e),
                                        Ok((t, p6)) => Ok((Some(t), p6)),
                                    }
                                } else {
                                    Ok((None, p5))
                                };
                                match ret {
                                    Err(e) => Err(e),
                                    Ok((return_type, p6)) => match s_block(ts, p6) {
                                        Err(e) => Err(e),
                                        Ok((body, p7)) => Ok(
                                            (FunctionView { name, parameters, return_type, body }, p7),
                                        ),
                                    },
                                }
                            },
                        },
                    }
                },
            },
        },
    }
}

/// A struct: `struct Name { field: type, ... }`.
pub open spec fn s_struct(ts: Seq<TokenView>, p: nat) -> Result<(StructDefView, nat), ParseErrorView> {
    match s_expect_identifier(ts, p + 1, "struct name"@) {
        Err(e) => Err(e),
        Ok((name, p2)) => match s_expect(ts, p2, TokenKindView::LeftBrace, "`{`"@) {
            Err(e) => Err(e),
            Ok(p3) => {
                let fields = if kind_at(ts, p3) is RightBrace {
                    Ok((Seq::<BindingView>::empty(), p3))
                } else {
                    s_bindings(ts, p3, "field name"@, Seq::empty())
                };
                match fields {
                    Err(e) => Err(e),
                    Ok((fields, p4)) => match s_expect(ts, p4, TokenKindView::RightBrace, "`}`"@) {
                        Err(e) => Err(e),
                        Ok(p5) => Ok((StructDefView { name, fields }, p5)),
                    },
                }
            },
        },
    }
}

/// Items up to the end of file, after the items already read.
pub open spec fn s_items(
    ts: Seq<TokenView>,
    p: nat,
    structs: Seq<StructDefView>,
    functions: Seq<FunctionView>,
) -> Result<ProgramView, ParseErrorView>
    decreases ts.len() - p,
{
    if p >= ts.len() {
        Err(end_error())
    } else if kind_at(ts, p) is Eof {
        Ok(ProgramView { structs, functions })
    } else if kind_at(ts, p) is Struct {
        match s_struct(ts, p) {
            Err(e) => Err(e),
            Ok((s, p2)) => if p < p2 <= ts.len() {
                s_items(ts, p2, structs.push(s), functions)
            } else {
                Err(end_error())
            },
        }
    } else {
        match s_function(ts, p) {
            Err(e) => Err(e),
            Ok((f, p2)) => if p < p2 <= ts.len() {
                s_items(ts, p2, structs, functions.push(f))
            } else {
                Err(end_error())
            },
        }
    }
}

/// The program that a token sequence spells.
pub open spec fn spec_parse_tokens(ts: Seq<TokenView>) -> Result<ProgramView, ParseErrorView> {
    s_items(ts, 0, Seq::empty(), Seq::empty())
}

/// The program that a source text spells; a lexical error is reported as is.
pub open spec fn spec_parse_source(source: Seq<char>) -> Result<ProgramView, ParseErrorView> {
    match spec_lex(source) {
        Err(e) => Err(ParseErrorView { message: e.message, span: e.span }),
        Ok(ts) => spec_parse_tokens(ts),
    }
}

/// The model of a reader's result: the construct's model and the next position, or the error.
pub open spec fn view_result<T: View>(r: Result<(T, usize), ParseError>) -> Result<
    (T::V, nat),
    ParseErrorView,
> {
    match r {
        Ok((v, p)) => Ok((v@, p as nat)),
        Err(e) => Err(e@),
    }
}

/// A successful read moved forward and stopped before the end-of-file token's end.
pub open spec fn advanced<T>(r: Result<(T, usize), ParseError>, p: usize, len: nat) -> bool {
    r matches Ok((_, p2)) ==> p < p2 < len
}

/// The precondition of every reader: lexer-shaped tokens and a position inside them.
pub open spec fn reading(ts: &Vec<Token>, p: usize) -> bool {
    well_formed_tokens(tokens_view(ts@)) && p < ts@.len() && ts@.len() <= usize::MAX
}

fn kind(ts: &Vec<Token>, p: usize) -> (r: &TokenKind)
    requires
        p < ts@.len(),
    ensures
        r@ == kind_at(tokens_view(ts@), p as nat),
{
    &ts[p].kind
}

fn kind_is(ts: &Vec<Token>, p: usize, expected: TokenKind) -> (r: bool)
    requires
        p < ts@.len(),
    ensures
        r == (kind_at(tokens_view(ts@), p as nat) == expected@),
{
    kind_eq(&ts[p].kind, &expected)
}

fn error_expected(ts: &Vec<Token>, p: usize, label: &str) -> (e: ParseError)
    requires
        p < ts@.len(),
    ensures
        e@ == expected_error(tokens_view(ts@), p as nat, label@),
{
    let found = describe_token_kind(&ts[p].kind);
    let mut message = concat3("expected ", label, ", found ");
    message.append(found.as_str());
    ParseError { message, span: ts[p].span }
}

fn expect(ts: &Vec<Token>, p: usize, expected: TokenKind, label: &str) -> (r: Result<usize, ParseError>)
    requires
        reading(ts, p),
        !(expected@ is Eof),
    ensures
        match r {
            Ok(p2) => s_expect(tokens_view(ts@), p as nat, expected@, label@) == Ok::<_, ParseErrorView>(
                p2 as nat,
            ) && p2 == p + 1 && p2 < ts@.len(),
            Err(e) => s_expect(tokens_view(ts@), p as nat, expected@, label@) == Err::<nat, _>(e@),
        },
{
    let ghost k = expected@;
    if kind_is(ts, p, expected) {
        Ok(p + 1)
    } else {
        Err(error_expected(ts, p, label))
    }
}

fn expect_identifier(ts: &Vec<Token>, p: usize, label: &str) -> (r: Result<(String, usize), ParseError>)
    requires
        reading(ts, p),
    ensures
        match r {
            Ok((name, p2)) => s_expect_identifier(tokens_view(ts@), p as nat, label@) == Ok::<
                _,
                ParseErrorView,
            >((name@, p2 as nat)) && p2 == p + 1 && p2 < ts@.len(),
            Err(e) => s_expect_identifier(tokens_view(ts@), p as nat, label@) == Err::<
                (Seq<char>, nat),
                _,
            >(e@),
        },
{
    match kind(ts, p) {
        TokenKind::Ident(name) => Ok((name.clone(), p + 1)),
        _ => Err(error_expected(ts, p, label)),
    }
}

fn eat(ts: &Vec<Token>, p: usize, expected: TokenKind) -> (r: usize)
    requires
        reading(ts, p),
        !(expected@ is Eof),
    ensures
        r == s_eat(tokens_view(ts@), p as nat, expected@),
        r < ts@.len(),
{
    if kind_is(ts, p, expected) {
        p + 1
    } else {
        p
    }
}

fn starts_with_uppercase(name: &String) -> (r: bool)
    ensures
        r == starts_uppercase(name@),
{
    let cs = chars_of(name.as_str());
    cs.len() > 0 && 'A' <= cs[0] && cs[0] <= 'Z'
}

fn parse_type(ts: &Vec<Token>, p: usize) -> (r: Result<(Type, usize), ParseError>)
    requires
        reading(ts, p),
    ensures
        view_result(r) == s_type(tokens_view(ts@), p as nat),
        advanced(r, p, ts@.len()),
    decreases ts@.len() - p,
{
    match kind(ts, p) {
        TokenKind::PrimitiveType(t) => Ok((t.duplicate(), p + 1)),
        TokenKind::Ampersand => {
            let (t, p2) = parse_type(ts, p + 1)?;
            Ok((Type::Pointer(Box::new(t)), p2))
        },
        TokenKind::Ident(name) => {
            if starts_with_uppercase(name) {
                Ok((Type::Struct(name.clone()), p + 1))
            } else {
                Err(error_expected(ts, p, "primitive type"))
            }
        },
        _ => Err(error_expected(ts, p, "primitive type")),
    }
}

proof fn lemma_literal_value_prefix(text: Seq<char>, i: int)
    requires
        0 <= i <= text.len(),
    ensures
        literal_value(text.take(i)) <= literal_value(text),
    decreases text.len() - i,
{
    if i < text.len() {
        lemma_literal_value_prefix(text, i + 1);
        assert(text.take(i + 1).drop_last() == text.take(i));
    } else {
        assert(text.take(i) == text);
    }
}

/// The value of an integer literal's text, if it fits in `u128`.
fn integer_literal_value(text: &String) -> (r: Option<u128>)
    ensures
        r matches Some(v) ==> literal_value(text@) <= u128::MAX && v == literal_value(text@),
        r is None ==> literal_value(text@) > u128::MAX,
{
    let cs = chars_of(text.as_str());
    let mut value: u128 = 0;
    let mut i: usize = 0;
    proof {
        assert(cs@.take(0) == Seq::<char>::empty());
    }
    while i < cs.len()
        invariant
            i <= cs@.len(),
            cs@ == text@,
            value == literal_value(cs@.take(i as int)),
        decreases cs@.len() - i,
    {
        let c = cs[i];
        let d: u128 = if '0' <= c && c <= '9' {
            ((c as u32) - ('0' as u32)) as u128
        } else {
            0
        };
        proof {
            assert(cs@.take(i + 1).drop_last() == cs@.take(i as int));
            assert(cs@.take(i + 1).last() == c);
        }
        if value > (u128::MAX - d) / 10 {
            proof {
                assert(value * 10 + d > u128::MAX) by (nonlinear_arith)
                    requires
                        value > (u128::MAX - d) / 10,
                        d <= 9,
                ;
                lemma_literal_value_prefix(cs@, i + 1);
            }
            return None;
        }
        proof {
            assert(value * 10 + d <= u128::MAX) by (nonlinear_arith)
                requires
                    value <= (u128::MAX - d) / 10,
                    d <= 9,
            ;
        }
        value = value * 10 + d;
        i = i + 1;
    }
    proof {
        assert(cs@.take(cs@.len() as int) == cs@);
    }
    Some(value)
}

pub open spec fn exprs_result(r: Result<(Vec<Expression>, usize), ParseError>) -> Result<
    (Seq<ExprView>, nat),
    ParseErrorView,
> {
    match r {
        Ok((v, p)) => Ok((exprs_view(v@), p as nat)),
        Err(e) => Err(e@),
    }
}

pub open spec fn field_inits_result(r: Result<(Vec<StructLiteralField>, usize), ParseError>) -> Result<
    (Seq<FieldInitView>, nat),
    ParseErrorView,
> {
    match r {
        Ok((v, p)) => Ok((field_inits_view(v@), p as nat)),
        Err(e) => Err(e@),
    }
}

fn binary_operator(level: usize, k: &TokenKind) -> (r: Option<BinaryOperator>)
    ensures
        r == binary_operator_at(level as nat, k@),
{
    match k {
        TokenKind::DoublePipe => if level == 0 { Some(BinaryOperator::BoolOr) } else { None },
        TokenKind::DoubleAmpersand => if level == 1 { Some(BinaryOperator::BoolAnd) } else { None },
        TokenKind::EqualEqual => if level == 2 { Some(BinaryOperator::Equal) } else { None },
        TokenKind::BangEqual => if level == 2 { Some(BinaryOperator::NotEqual) } else { None },
        TokenKind::Pipe => if level == 3 { Some(BinaryOperator::BitOr) } else { None },
        TokenKind::Caret => if level == 4 { Some(BinaryOperator::BitXor) } else { None },
        TokenKind::Ampersand => if level == 5 { Some(BinaryOperator::BitAnd) } else { None },
        TokenKind::LeftShift => if level == 6 { Some(BinaryOperator::ShiftLeft) } else { None },
        TokenKind::RightShift => if level == 6 { Some(BinaryOperator::ShiftRight) } else { None },
        TokenKind::Plus => if level == 7 { Some(BinaryOperator::Add) } else { None },
        TokenKind::Minus => if level == 7 { Some(BinaryOperator::Subtract) } else { None },
        TokenKind::Star => if level == 8 { Some(BinaryOperator::Multiply) } else { None },
        TokenKind::Slash => if level == 8 { Some(BinaryOperator::Divide) } else { None },
        _ => None,
    }
}

fn parse_expression(ts: &Vec<Token>, p: usize, structs: bool) -> (r: Result<(Expression, usize), ParseError>)
    requires
        reading(ts, p),
    ensures
        view_result(r) == s_expr(tokens_view(ts@), p as nat, structs),
        advanced(r, p, ts@.len()),
    decreases ts@.len() - p, 40int,
{
    parse_binary(ts, p, 0, structs)
}

fn parse_binary(ts: &Vec<Token>, p: usize, level: usize, structs: bool) -> (r: Result<
    (Expression, usize),
    ParseError,
>)
    requires
        reading(ts, p),
        level <= 9,
    ensures
        view_result(r) == s_binary(tokens_view(ts@), p as nat, level as nat, structs),
        advanced(r, p, ts@.len()),
    decreases ts@.len() - p, level_rank(level as nat),
{
    if level >= 9 {
        parse_unary(ts, p, structs)
    } else {
        let (left, p1) = parse_binary(ts, p, level + 1, structs)?;
        parse_binary_rest(ts, p1, level, left, structs)
    }
}

fn parse_binary_rest(
    ts: &Vec<Token>,
    p: usize,
    level: usize,
    left: Expression,
    structs: bool,
) -> (r: Result<(Expression, usize), ParseError>)
    requires
        reading(ts, p),
        level < 9,
    ensures
        view_result(r) == s_binary_rest(tokens_view(ts@), p as nat, level as nat, left@, structs),
        r matches Ok((_, p2)) ==> p <= p2 < ts@.len(),
    decreases ts@.len() - p, 0int,
{
    match binary_operator(level, kind(ts, p)) {
        None => Ok((left, p)),
        Some(operator) => {
            let (right, p2) = parse_binary(ts, p + 1, level + 1, structs)?;
            let combined = Expression::Binary(
                BinaryExpression { left: Box::new(left), operator, right: Box::new(right) },
            );
            parse_binary_rest(ts, p2, level, combined, structs)
        },
    }
}

fn parse_unary(ts: &Vec<Token>, p: usize, structs: bool) -> (r: Result<(Expression, usize), ParseError>)
    requires
        reading(ts, p),
    ensures
        view_result(r) == s_unary(tokens_view(ts@), p as nat, structs),
        advanced(r, p, ts@.len()),
    decreases ts@.len() - p, 10int,
{
    match kind(ts, p) {
        TokenKind::Bang => {
            let (e, p2) = parse_unary(ts, p + 1, structs)?;
            Ok((Expression::BitNot(Box::new(e)), p2))
        },
        TokenKind::Ampersand => {
            let (e, p2) = parse_unary(ts, p + 1, structs)?;
            Ok((Expression::AddressOf(Box::new(e)), p2))
        },
        TokenKind::Star => {
            let (e, p2) = parse_unary(ts, p + 1, structs)?;
            Ok((Expression::Dereference(Box::new(e)), p2))
        },
        _ => {
            let (e, p1) = parse_primary(ts, p, structs)?;
            parse_postfix_rest(ts, p1, e)
        },
    }
}

fn parse_postfix_rest(ts: &Vec<Token>, p: usize, object: Expression) -> (r: Result<
    (Expression, usize),
    ParseError,
>)
    requires
        reading(ts, p),
    ensures
        view_result(r) == s_postfix_rest(tokens_view(ts@), p as nat, object@),
        r matches Ok((_, p2)) ==> p <= p2 < ts@.len(),
    decreases ts@.len() - p,
{
    if kind_is(ts, p, TokenKind::Dot) {
        let (field, p2) = expect_identifier(ts, p + 1, "field name")?;
        parse_postfix_rest(
            ts,
            p2,
            Expression::FieldAccess(FieldAccess { object: Box::new(object), field }),
        )
    } else {
        Ok((object, p))
    }
}

fn parse_primary(ts: &Vec<Token>, p: usize, structs: bool) -> (r: Result<(Expression, usize), ParseError>)
    requires
        reading(ts, p),
    ensures
        view_result(r) == s_primary(tokens_view(ts@), p as nat, structs),
        advanced(r, p, ts@.len()),
    decreases ts@.len() - p, 8int,
{
    match kind(ts, p) {
        TokenKind::Integer(text) => match integer_literal_value(text) {
            Some(v) => Ok((Expression::Integer(v), p + 1)),
            None => {
                let message = concat3("integer literal `", text.as_str(), "` does not fit in u128");
                Err(ParseError { message, span: ts[p].span })
            },
        },
        TokenKind::Float(text) => Ok((Expression::Float(text.clone()), p + 1)),
        TokenKind::BoolLiteral(b) => Ok((Expression::Bool(*b), p + 1)),
        TokenKind::Ident(name) => {
            if kind_is(ts, p + 1, TokenKind::LeftParen) {
                let (arguments, p2) = parse_call_arguments(ts, p + 2)?;
                Ok((Expression::Call(CallExpression { name: name.clone(), arguments }), p2))
            } else if structs && kind_is(ts, p + 1, TokenKind::LeftBrace) {
                let (fields, p2) = parse_field_inits(ts, p + 2, Vec::new())?;
                Ok((Expression::StructLiteral(StructLiteral { name: name.clone(), fields }), p2))
            } else {
                Ok((Expression::Variable(name.clone()), p + 1))
            }
        },
        TokenKind::LeftParen => {
            let (e, p2) = parse_expression(ts, p + 1, true)?;
            let p3 = expect(ts, p2, TokenKind::RightParen, "`)`")?;
            Ok((e, p3))
        },
        _ => Err(error_expected(ts, p, "expression")),
    }
}

fn parse_call_arguments(ts: &Vec<Token>, p: usize) -> (r: Result<(Vec<Expression>, usize), ParseError>)
    requires
        reading(ts, p),
    ensures
        exprs_result(r) == s_call_arguments(tokens_view(ts@), p as nat),
        advanced(r, p, ts@.len()),
    decreases ts@.len() - p, 60int,
{
    if kind_is(ts, p, TokenKind::RightParen) {
        Ok((Vec::new(), p + 1))
    } else {
        parse_argument_list(ts, p, Vec::new())
    }
}

fn parse_argument_list(ts: &Vec<Token>, p: usize, acc: Vec<Expression>) -> (r: Result<
    (Vec<Expression>, usize),
    ParseError,
>)
    requires
        reading(ts, p),
    ensures
        exprs_result(r) == s_argument_list(tokens_view(ts@), p as nat, exprs_view(acc@)),
        advanced(r, p, ts@.len()),
    decreases ts@.len() - p, 50int,
{
    let mut acc = acc;
    let (e, p2) = parse_expression(ts, p, true)?;
    proof {
        lemma_exprs_view_push(acc@, e);
    }
    acc.push(e);
    if kind_is(ts, p2, TokenKind::Comma) {
        parse_argument_list(ts, p2 + 1, acc)
    } else {
        let p3 = expect(ts, p2, TokenKind::RightParen, "`)`")?;
        Ok((acc, p3))
    }
}

fn parse_field_inits(ts: &Vec<Token>, p: usize, acc: Vec<StructLiteralField>) -> (r: Result<
    (Vec<StructLiteralField>, usize),
    ParseError,
>)
    requires
        reading(ts, p),
    ensures
        field_inits_result(r) == s_field_inits(tokens_view(ts@), p as nat, field_inits_view(acc@)),
        advanced(r, p, ts@.len()),
    decreases ts@.len() - p, 50int,
{
    if kind_is(ts, p, TokenKind::RightBrace) {
        return Ok((acc, p + 1));
    }
    let mut acc = acc;
    let (name, p1) = expect_identifier(ts, p, "field name")?;
    let p2 = expect(ts, p1, TokenKind::Colon, "`:`")?;
    let (value, p3) = parse_expression(ts, p2, true)?;
    let field = StructLiteralField { name, value };
    proof {
        lemma_field_inits_view_push(acc@, field);
    }
    acc.push(field);
    if kind_is(ts, p3, TokenKind::Comma) {
        parse_field_inits(ts, p3 + 1, acc)
    } else {
        let p4 = expect(ts, p3, TokenKind::RightBrace, "`}`")?;
        Ok((acc, p4))
    }
}

fn parse_call(ts: &Vec<Token>, p: usize) -> (r: Result<(String, Vec<Expression>, usize), ParseError>)
    requires
        reading(ts, p),
    ensures
        match r {
            Ok((name, arguments, p2)) => s_call(tokens_view(ts@), p as nat) == Ok::<_, ParseErrorView>(
                (name@, exprs_view(arguments@), p2 as nat),
            ) && p < p2 < ts@.len(),
            Err(e) => s_call(tokens_view(ts@), p as nat) == Err::<(Seq<char>, Seq<ExprView>, nat), _>(
                e@,
            ),
        },
{
    let (name, p1) = expect_identifier(ts, p, "function name")?;
    let p2 = expect(ts, p1, TokenKind::LeftParen, "`(`")?;
    let (arguments, p3) = parse_call_arguments(ts, p2)?;
    Ok((name, arguments, p3))
}

fn parse_let(ts: &Vec<Token>, p: usize) -> (r: Result<(Statement, usize), ParseError>)
    requires
        reading(ts, p),
        kind_at(tokens_view(ts@), p as nat) is Let,
    ensures
        view_result(r) == s_let(tokens_view(ts@), p as nat),
        advanced(r, p, ts@.len()),
{
    let (name, p2) = expect_identifier(ts, p + 1, "variable name")?;
    let p3 = expect(ts, p2, TokenKind::Colon, "`:`")?;
    let (ty, p4) = parse_type(ts, p3)?;
    let p5 = expect(ts, p4, TokenKind::Equal, "`=`")?;
    let (value, p6) = parse_expression(ts, p5, true)?;
    let p7 = eat(ts, p6, TokenKind::Semicolon);
    Ok((Statement::Let(LetStatement { name, ty, value }), p7))
}

pub open spec fn block_result(r: Result<(Vec<Statement>, usize), ParseError>) -> Result<
    (Seq<StmtView>, nat),
    ParseErrorView,
> {
    match r {
        Ok((v, p)) => Ok((stmts_view(v@), p as nat)),
        Err(e) => Err(e@),
    }
}

fn parse_block(ts: &Vec<Token>, p: usize) -> (r: Result<(Vec<Statement>, usize), ParseError>)
    requires
        reading(ts, p),
    ensures
        block_result(r) == s_block(tokens_view(ts@), p as nat),
        advanced(r, p, ts@.len()),
    decreases ts@.len() - p, 0int,
{
    let p1 = expect(ts, p, TokenKind::LeftBrace, "`{`")?;
    parse_statements(ts, p1, Vec::new())
}

fn parse_statements(ts: &Vec<Token>, p: usize, acc: Vec<Statement>) -> (r: Result<
    (Vec<Statement>, usize),
    ParseError,
>)
    requires
        reading(ts, p),
    ensures
        block_result(r) == s_statements(tokens_view(ts@), p as nat, stmts_view(acc@)),
        advanced(r, p, ts@.len()),
    decreases ts@.len() - p, 3int,
{
    if kind_is(ts, p, TokenKind::RightBrace) {
        return Ok((acc, p + 1));
    }
    let mut acc = acc;
    let (s, p2) = parse_statement(ts, p)?;
    proof {
        lemma_stmts_view_push(acc@, s);
    }
    acc.push(s);
    parse_statements(ts, p2, acc)
}

fn parse_statement(ts: &Vec<Token>, p: usize) -> (r: Result<(Statement, usize), ParseError>)
    requires
        reading(ts, p),
    ensures
        view_result(r) == s_statement(tokens_view(ts@), p as nat),
        advanced(r, p, ts@.len()),
    decreases ts@.len() - p, 2int,
{
    match kind(ts, p) {
        TokenKind::Let => parse_let(ts, p),
        TokenKind::Ident(_) => {
            let (name, arguments, p2) = parse_call(ts, p)?;
            let p3 = eat(ts, p2, TokenKind::Semicolon);
            Ok((Statement::Call(CallStatement { name, arguments }), p3))
        },
        TokenKind::Return => {
            let (value, p2) = parse_expression(ts, p + 1, true)?;
            let p3 = eat(ts, p2, TokenKind::Semicolon);
            Ok((Statement::Return(ReturnStatement { value }), p3))
        },
        TokenKind::If => parse_if(ts, p),
        TokenKind::Loop => {
            let (statements, p2) = parse_block(ts, p + 1)?;
            Ok((Statement::Loop(LoopStatement { body: Block { statements } }), p2))
        },
        TokenKind::While => {
            let (condition, p2) = parse_expression(ts, p + 1, false)?;
            let (statements, p3) = parse_block(ts, p2)?;
            Ok((Statement::While(WhileStatement { condition, body: Block { statements } }), p3))
        },
        TokenKind::Break => Ok((Statement::Break, eat(ts, p + 1, TokenKind::Semicolon))),
        TokenKind::Continue => Ok((Statement::Continue, eat(ts, p + 1, TokenKind::Semicolon))),
        _ => Err(error_expected(ts, p, "statement")),
    }
}

fn parse_if(ts: &Vec<Token>, p: usize) -> (r: Result<(Statement, usize), ParseError>)
    requires
        reading(ts, p),
        kind_at(tokens_view(ts@), p as nat) is If,
    ensures
        view_result(r) == s_if(tokens_view(ts@), p as nat),
        advanced(r, p, ts@.len()),
    decreases ts@.len() - p, 1int,
{
    let (condition, p2) = parse_expression(ts, p + 1, false)?;
    let (then_statements, p3) = parse_block(ts, p2)?;
    let then_block = Block { statements: then_statements };
    if kind_is(ts, p3, TokenKind::Else) {
        if kind_is(ts, p3 + 1, TokenKind::If) {
            let (nested, p4) = parse_if(ts, p3 + 1)?;
            let mut else_statements: Vec<Statement> = Vec::new();
            proof {
                lemma_stmts_view_push(else_statements@, nested);
                assert(else_statements@.push(nested) == seq![nested]);
            }
            else_statements.push(nested);
            Ok((
                Statement::If(IfStatement {
                    condition,
                    then_block,
                    else_block: Some(Block { statements: else_statements }),
                }),
                p4,
            ))
        } else {
            let (else_statements, p4) = parse_block(ts, p3 + 1)?;
            Ok((
                Statement::If(IfStatement {
                    condition,
                    then_block,
                    else_block: Some(Block { statements: else_statements }),
                }),
                p4,
            ))
        }
    } else {
        Ok((Statement::If(IfStatement { condition, then_block, else_block: None }), p3))
    }
}

pub open spec fn bindings_result<T: View<V = BindingView>>(r: Result<(Vec<T>, usize), ParseError>) -> Result<
    (Seq<BindingView>, nat),
    ParseErrorView,
> {
    match r {
        Ok((v, p)) => Ok((v@.map_values(|b: T| b@), p as nat)),
        Err(e) => Err(e@),
    }
}

fn parse_parameters(ts: &Vec<Token>, p: usize, acc: Vec<FunctionParameter>) -> (r: Result<
    (Vec<FunctionParameter>, usize),
    ParseError,
>)
    requires
        reading(ts, p),
    ensures
        bindings_result(r) == s_bindings(
            tokens_view(ts@),
            p as nat,
            "parameter name"@,
            acc@.map_values(|b: FunctionParameter| b@),
        ),
        advanced(r, p, ts@.len()),
    decreases ts@.len() - p,
{
    let mut acc = acc;
    let (name, p1) = expect_identifier(ts, p, "parameter name")?;
    let p2 = expect(ts, p1, TokenKind::Colon, "`:`")?;
    let (ty, p3) = parse_type(ts, p2)?;
    let binding = FunctionParameter { name, ty };
    proof {
        assert(acc@.push(binding).map_values(|b: FunctionParameter| b@) == acc@.map_values(
            |b: FunctionParameter| b@,
        ).push(binding@));
    }
    acc.push(binding);
    if kind_is(ts, p3, TokenKind::Comma) {
        parse_parameters(ts, p3 + 1, acc)
    } else {
        Ok((acc, p3))
    }
}

fn parse_fields(ts: &Vec<Token>, p: usize, acc: Vec<StructField>) -> (r: Result<
    (Vec<StructField>, usize),
    ParseError,
>)
    requires
        reading(ts, p),
    ensures
        bindings_result(r) == s_bindings(
            tokens_view(ts@),
            p as nat,
            "field name"@,
            acc@.map_values(|b: StructField| b@),
        ),
        advanced(r, p, ts@.len()),
    decreases ts@.len() - p,
{
    let mut acc = acc;
    let (name, p1) = expect_identifier(ts, p, "field name")?;
    let p2 = expect(ts, p1, TokenKind::Colon, "`:`")?;
    let (ty, p3) = parse_type(ts, p2)?;
    let binding = StructField { name, ty };
    proof {
        assert(acc@.push(binding).map_values(|b: StructField| b@) == acc@.map_values(
            |b: StructField| b@,
        ).push(binding@));
    }
    acc.push(binding);
    if kind_is(ts, p3, TokenKind::Comma) {
        parse_fields(ts, p3 + 1, acc)
    } else {
        Ok((acc, p3))
    }
}

#[verifier::rlimit(40)]
fn parse_function(ts: &Vec<Token>, p: usize) -> (r: Result<(Function, usize), ParseError>)
    requires
        reading(ts, p),
    ensures
        view_result(r) == s_function(tokens_view(ts@), p as nat),
        advanced(r, p, ts@.len()),
{
    let p1 = expect(ts, p, TokenKind::Fn, "`fn`")?;
    let (name, p2) = expect_identifier(ts, p1, "function name")?;
    let p3 = expect(ts, p2, TokenKind::LeftParen, "`(`")?;
    let empty: Vec<FunctionParameter> = Vec::new();
    proof {
        assert(empty@.map_values(|b: FunctionParameter| b@) =~= Seq::<BindingView>::empty());
    }
    let (parameters, p4) = if kind_is(ts, p3, TokenKind::RightParen) {
        (empty, p3)
    } else {
        parse_parameters(ts, p3, empty)?
    };
    let p5 = expect(ts, p4, TokenKind::RightParen, "`)`")?;
    let (return_type, p6) = if kind_is(ts, p5, TokenKind::Arrow) {
        let (t, p6) = parse_type(ts, p5 + 1)?;
        (Some(t), p6)
    } else {
        (None, p5)
    };
    let (statements, p7) = parse_block(ts, p6)?;
    Ok((Function { name, parameters, return_type, body: Block { statements } }, p7))
}

fn parse_struct(ts: &Vec<Token>, p: usize) -> (r: Result<(StructDefinition, usize), ParseError>)
    requires
        reading(ts, p),
        kind_at(tokens_view(ts@), p as nat) is Struct,
    ensures
        view_result(r) == s_struct(tokens_view(ts@), p as nat),
        advanced(r, p, ts@.len()),
{
    let (name, p2) = expect_identifier(ts, p + 1, "struct name")?;
    let p3 = expect(ts, p2, TokenKind::LeftBrace, "`{`")?;
    let empty: Vec<StructField> = Vec::new();
    proof {
        assert(empty@.map_values(|b: StructField| b@) =~= Seq::<BindingView>::empty());
    }
    let (fields, p4) = if kind_is(ts, p3, TokenKind::RightBrace) {
        (empty, p3)
    } else {
        parse_fields(ts, p3, empty)?
    };
    let p5 = expect(ts, p4, TokenKind::RightBrace, "`}`")?;
    Ok((StructDefinition { name, fields }, p5))
}

/// Reads a whole program from lexer-shaped tokens.
fn parse_program(ts: &Vec<Token>) -> (r: Result<Program, ParseError>)
    requires
        well_formed_tokens(tokens_view(ts@)),
    ensures
        match r {
            Ok(program) => spec_parse_tokens(tokens_view(ts@)) == Ok::<_, ParseErrorView>(program@),
            Err(e) => spec_parse_tokens(tokens_view(ts@)) == Err::<ProgramView, _>(e@),
        },
{
    let mut structs: Vec<StructDefinition> = Vec::new();
    let mut functions: Vec<Function> = Vec::new();
    let mut p: usize = 0;
    let _count = ts.len();
    proof {
        assert(structs@.map_values(|s: StructDefinition| s@) =~= Seq::<StructDefView>::empty());
        assert(functions@.map_values(|f: Function| f@) =~= Seq::<FunctionView>::empty());
    }
    while !kind_is(ts, p, TokenKind::Eof)
        invariant
            reading(ts, p),
            spec_parse_tokens(tokens_view(ts@)) == s_items(
                tokens_view(ts@),
                p as nat,
                structs@.map_values(|s: StructDefinition| s@),
                functions@.map_values(|f: Function| f@),
            ),
        decreases ts@.len() - p,
    {
        if kind_is(ts, p, TokenKind::Struct) {
            let (s, p2) = parse_struct(ts, p)?;
            proof {
                assert(structs@.push(s).map_values(|s: StructDefinition| s@) == structs@.map_values(
                    |s: StructDefinition| s@,
                ).push(s@));
            }
            structs.push(s);
            p = p2;
        } else {
            let (f, p2) = parse_function(ts, p)?;
            proof {
                assert(functions@.push(f).map_values(|f: Function| f@) == functions@.map_values(
                    |f: Function| f@,
                ).push(f@));
            }
            functions.push(f);
            p = p2;
        }
    }
    Ok(Program { structs, functions })
}

/// Reads a program from source text: lexing, then parsing; the first error
/// of either stops it.
pub fn parse_source(source: &str) -> (r: Result<Program, ParseError>)
    requires
        utf8_len(source@) <= usize::MAX,
    ensures
        match r {
            Ok(program) => spec_parse_source(source@) == Ok::<_, ParseErrorView>(program@),
            Err(e) => spec_parse_source(source@) == Err::<ProgramView, _>(e@),
        },
{
    match lex(source) {
        Err(e) => Err(ParseError { message: e.message, span: e.span }),
        Ok(tokens) => {
            proof {
                lemma_lex_ends_with_eof(source@);
            }
            parse_program(&tokens)
        },
    }
}

} // verus!
