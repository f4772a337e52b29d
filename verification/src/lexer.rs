//! Turns source text into tokens.
//!
//! The model: [`spec_lex`] walks the characters of the source from the left,
//! skipping white space and producing one token per lexeme; spans are byte
//! offsets into the UTF-8 encoding of the source.
use vstd::prelude::*;
use vstd::string::StringExecFns;
use crate::ast::{str_eq, type_from_name, Type, TypeView};
use crate::text::{
    char_width, chars_of, is_ascii_digit, is_ascii_digit_char, is_ident_continue,
    is_ident_continue_char, is_ident_start, is_ident_start_char, is_whitespace, is_whitespace_char,
    len_utf8, lemma_utf8_len_take_step, push_char, string_of, utf8_len,
};

verus! {

/// A half-open range of byte offsets into the source.
#[derive(Debug, Clone, Copy, PartialEq, Eq, Structural)]
pub struct Span {
    pub start: usize,
    pub end: usize,
}

/// The kind of a token, with the text of identifiers and numbers.
#[derive(Debug, PartialEq, Eq)]
pub enum TokenKind {
    Fn,
    If,
    Else,
    Let,
    Loop,
    While,
    Break,
    Continue,
    Pub,
    Return,
    Struct,
    PrimitiveType(Type),
    BoolLiteral(bool),
    Ident(String),
    Integer(String),
    Float(String),
    LeftParen,
    RightParen,
    LeftBrace,
    RightBrace,
    Ampersand,
    DoubleAmpersand,
    Pipe,
    DoublePipe,
    Caret,
    Bang,
    BangEqual,
    Colon,
    Comma,
    Dot,
    Plus,
    Minus,
    Star,
    Slash,
    LeftShift,
    RightShift,
    Arrow,
    Equal,
    EqualEqual,
    Semicolon,
    Eof,
}

/// The model of a [`TokenKind`].
pub enum TokenKindView {
    Fn,
    If,
    Else,
    Let,
    Loop,
    While,
    Break,
    Continue,
    Pub,
    Return,
    Struct,
    PrimitiveType(TypeView),
    BoolLiteral(bool),
    Ident(Seq<char>),
    Integer(Seq<char>),
    Float(Seq<char>),
    LeftParen,
    RightParen,
    LeftBrace,
    RightBrace,
    Ampersand,
    DoubleAmpersand,
    Pipe,
    DoublePipe,
    Caret,
    Bang,
    BangEqual,
    Colon,
    Comma,
    Dot,
    Plus,
    Minus,
    Star,
    Slash,
    LeftShift,
    RightShift,
    Arrow,
    Equal,
    EqualEqual,
    Semicolon,
    Eof,
}

impl View for TokenKind {
    type V = TokenKindView;

    open spec fn view(&self) -> TokenKindView {
        match self {
            TokenKind::Fn => TokenKindView::Fn,
            TokenKind::If => TokenKindView::If,
            TokenKind::Else => TokenKindView::Else,
            TokenKind::Let => TokenKindView::Let,
            TokenKind::Loop => TokenKindView::Loop,
            TokenKind::While => TokenKindView::While,
            TokenKind::Break => TokenKindView::Break,
            TokenKind::Continue => TokenKindView::Continue,
            TokenKind::Pub => TokenKindView::Pub,
            TokenKind::Return => TokenKindView::Return,
            TokenKind::Struct => TokenKindView::Struct,
            TokenKind::PrimitiveType(t) => TokenKindView::PrimitiveType(t@),
            TokenKind::BoolLiteral(b) => TokenKindView::BoolLiteral(*b),
            TokenKind::Ident(s) => TokenKindView::Ident(s@),
            TokenKind::Integer(s) => TokenKindView::Integer(s@),
            TokenKind::Float(s) => TokenKindView::Float(s@),
            TokenKind::LeftParen => TokenKindView::LeftParen,
            TokenKind::RightParen => TokenKindView::RightParen,
            TokenKind::LeftBrace => TokenKindView::LeftBrace,
            TokenKind::RightBrace => TokenKindView::RightBrace,
            TokenKind::Ampersand => TokenKindView::Ampersand,
            TokenKind::DoubleAmpersand => TokenKindView::DoubleAmpersand,
            TokenKind::Pipe => TokenKindView::Pipe,
            TokenKind::DoublePipe => TokenKindView::DoublePipe,
            TokenKind::Caret => TokenKindView::Caret,
            TokenKind::Bang => TokenKindView::Bang,
            TokenKind::BangEqual => TokenKindView::BangEqual,
            TokenKind::Colon => TokenKindView::Colon,
            TokenKind::Comma => TokenKindView::Comma,
            TokenKind::Dot => TokenKindView::Dot,
            TokenKind::Plus => TokenKindView::Plus,
            TokenKind::Minus => TokenKindView::Minus,
            TokenKind::Star => TokenKindView::Star,
            TokenKind::Slash => TokenKindView::Slash,
            TokenKind::LeftShift => TokenKindView::LeftShift,
            TokenKind::RightShift => TokenKindView::RightShift,
            TokenKind::Arrow => TokenKindView::Arrow,
            TokenKind::Equal => TokenKindView::Equal,
            TokenKind::EqualEqual => TokenKindView::EqualEqual,
            TokenKind::Semicolon => TokenKindView::Semicolon,
            TokenKind::Eof => TokenKindView::Eof,
        }
    }
}

/// A token with its place in the source.
#[derive(Debug, PartialEq, Eq)]
pub struct Token {
    pub kind: TokenKind,
    pub span: Span,
}

/// The model of a [`Token`].
pub struct TokenView {
    pub kind: TokenKindView,
    pub span: Span,
}

impl View for Token {
    type V = TokenView;

    open spec fn view(&self) -> TokenView {
        TokenView { kind: self.kind@, span: self.span }
    }
}

/// A character that starts no token.
#[derive(Debug, Clone, PartialEq, Eq)]
pub struct LexError {
    pub message: String,
    pub span: Span,
}

/// The model of a [`LexError`].
pub struct LexErrorView {
    pub message: Seq<char>,
    pub span: Span,
}

impl View for LexError {
    type V = LexErrorView;

    open spec fn view(&self) -> LexErrorView {
        LexErrorView { message: self.message@, span: self.span }
    }
}

pub open spec fn tokens_view(ts: Seq<Token>) -> Seq<TokenView> {
    ts.map_values(|t: Token| t@)
}

/// The token that a punctuation character starts, given the character after
/// it, with the number of characters it takes.
pub open spec fn punctuation(c: char, next: Option<char>) -> Option<(TokenKindView, nat)> {
    if c == '(' {
        Some((TokenKindView::LeftParen, 1))
    } else if c == ')' {
        Some((TokenKindView::RightParen, 1))
    } else if c == '{' {
        Some((TokenKindView::LeftBrace, 1))
    } else if c == '}' {
        Some((TokenKindView::RightBrace, 1))
    } else if c == '&' && next == Some('&') {
        Some((TokenKindView::DoubleAmpersand, 2))
    } else if c == '&' {
        Some((TokenKindView::Ampersand, 1))
    } else if c == '|' && next == Some('|') {
        Some((TokenKindView::DoublePipe, 2))
    } else if c == '|' {
        Some((TokenKindView::Pipe, 1))
    } else if c == '^' {
        Some((TokenKindView::Caret, 1))
    } else if c == '!' && next == Some('=') {
        Some((TokenKindView::BangEqual, 2))
    } else if c == '!' {
        Some((TokenKindView::Bang, 1))
    } else if c == ':' {
        Some((TokenKindView::Colon, 1))
    } else if c == ',' {
        Some((TokenKindView::Comma, 1))
    } else if c == '.' {
        Some((TokenKindView::Dot, 1))
    } else if c == '+' {
        Some((TokenKindView::Plus, 1))
    } else if c == '*' {
        Some((TokenKindView::Star, 1))
    } else if c == '/' {
        Some((TokenKindView::Slash, 1))
    } else if c == '<' && next == Some('<') {
        Some((TokenKindView::LeftShift, 2))
    } else if c == '>' && next == Some('>') {
        Some((TokenKindView::RightShift, 2))
    } else if c == '-' && next == Some('>') {
        Some((TokenKindView::Arrow, 2))
    } else if c == '-' {
        Some((TokenKindView::Minus, 1))
    } else if c == '=' && next == Some('=') {
        Some((TokenKindView::EqualEqual, 2))
    } else if c == '=' {
        Some((TokenKindView::Equal, 1))
    } else if c == ';' {
        Some((TokenKindView::Semicolon, 1))
    } else {
        None
    }
}

/// The token kind that the text of an identifier-like lexeme stands for.
pub open spec fn word_kind(text: Seq<char>) -> TokenKindView {
    if text == "fn"@ {
        TokenKindView::Fn
    } else if text == "if"@ {
        TokenKindView::If
    } else if text == "else"@ {
        TokenKindView::Else
    } else if text == "let"@ {
        TokenKindView::Let
    } else if text == "loop"@ {
        TokenKindView::Loop
    } else if text == "while"@ {
        TokenKindView::While
    } else if text == "break"@ {
        TokenKindView::Break
    } else if text == "continue"@ {
        TokenKindView::Continue
    } else if text == "pub"@ {
        TokenKindView::Pub
    } else if text == "return"@ {
        TokenKindView::Return
    } else if text == "struct"@ {
        TokenKindView::Struct
    } else if text == "true"@ {
        TokenKindView::BoolLiteral(true)
    } else if text == "false"@ {
        TokenKindView::BoolLiteral(false)
    } else if let Some(t) = type_from_name(text) {
        TokenKindView::PrimitiveType(t)
    } else {
        TokenKindView::Ident(text)
    }
}

/// The first index at or after `j` whose character cannot continue an identifier.
pub open spec fn scan_ident(cs: Seq<char>, j: nat) -> nat
    decreases cs.len() - j,
{
    if j < cs.len() && is_ident_continue_char(cs[j as int]) {
        scan_ident(cs, j + 1)
    } else {
        j
    }
}

/// The first index at or after `j` whose character is not an ASCII digit.
pub open spec fn scan_digits(cs: Seq<char>, j: nat) -> nat
    decreases cs.len() - j,
{
    if j < cs.len() && is_ascii_digit_char(cs[j as int]) {
        scan_digits(cs, j + 1)
    } else {
        j
    }
}

/// The end of a number that starts at `i`, and whether it is a float.
pub open spec fn number_end(cs: Seq<char>, i: nat) -> (nat, bool) {
    let j = scan_digits(cs, i + 1);
    if j + 1 < cs.len() && cs[j as int] == '.' && is_ascii_digit_char(cs[j + 1int]) {
        (scan_digits(cs, j + 2), true)
    } else {
        (j, false)
    }
}

pub open spec fn char_at(cs: Seq<char>, i: nat) -> Option<char> {
    if i < cs.len() {
        Some(cs[i as int])
    } else {
        None
    }
}

pub open spec fn token_at(kind: TokenKindView, start: nat, end: nat) -> TokenView {
    TokenView { kind, span: Span { start: start as usize, end: end as usize } }
}

pub open spec fn unexpected_character_message(c: char) -> Seq<char> {
    "unexpected character `"@ + seq![c] + "`"@
}

/// One step of lexing at character `i` (byte offset `pos`): the next
/// character index, the next byte offset, and the token produced, if any.
pub open spec fn lex_step(cs: Seq<char>, i: nat, pos: nat) -> Result<
    (nat, nat, Option<TokenView>),
    LexErrorView,
> {
    let c = cs[i as int];
    if is_whitespace_char(c) {
        Ok((i + 1, pos + char_width(c), None))
    } else if let Some((kind, n)) = punctuation(c, char_at(cs, i + 1)) {
        Ok((i + n, pos + n, Some(token_at(kind, pos, pos + n))))
    } else if is_ident_start_char(c) {
        let j = scan_ident(cs, i + 1);
        let end = (pos + j - i) as nat;
        Ok((j, end, Some(token_at(word_kind(cs.subrange(i as int, j as int)), pos, end))))
    } else if is_ascii_digit_char(c) {
        let (j, is_float) = number_end(cs, i);
        let end = (pos + j - i) as nat;
        let text = cs.subrange(i as int, j as int);
        let kind = if is_float {
            TokenKindView::Float(text)
        } else {
            TokenKindView::Integer(text)
        };
        Ok((j, end, Some(token_at(kind, pos, end))))
    } else {
        Err(
            LexErrorView {
                message: unexpected_character_message(c),
                span: Span { start: pos as usize, end: (pos + char_width(c)) as usize },
            },
        )
    }
}

pub proof fn lemma_lex_step_advances(cs: Seq<char>, i: nat, pos: nat)
    requires
        i < cs.len(),
    ensures
        lex_step(cs, i, pos) matches Ok((j, _, _)) ==> i < j <= cs.len(),
{
    lemma_scan_ident(cs, i + 1);
    lemma_number_end(cs, i);
}

/// Lexing from character `i`, at byte offset `pos`, with tokens `acc` already produced.
pub open spec fn lex_from(cs: Seq<char>, i: nat, pos: nat, acc: Seq<TokenView>) -> Result<
    Seq<TokenView>,
    LexErrorView,
>
    decreases cs.len() - i,
{
    if i >= cs.len() {
        Ok(acc.push(token_at(TokenKindView::Eof, pos, pos)))
    } else {
        match lex_step(cs, i, pos) {
            Err(e) => Err(e),
            Ok((j, next_pos, token)) => {
                proof {
                    lemma_lex_step_advances(cs, i, pos);
                }
                let next_acc = match token {
                    Some(t) => acc.push(t),
                    None => acc,
                };
                lex_from(cs, j, next_pos, next_acc)
            },
        }
    }
}

/// The tokens of a source text.
pub open spec fn spec_lex(source: Seq<char>) -> Result<Seq<TokenView>, LexErrorView> {
    lex_from(source, 0, 0, Seq::empty())
}

pub proof fn lemma_lex_from_ends_with_eof(cs: Seq<char>, i: nat, pos: nat, acc: Seq<TokenView>)
    ensures
        lex_from(cs, i, pos, acc) matches Ok(ts) ==> ts.len() > 0 && ts[ts.len() - 1].kind is Eof,
    decreases cs.len() - i,
{
    if i < cs.len() {
        lemma_lex_step_advances(cs, i, pos);
        match lex_step(cs, i, pos) {
            Ok((j, next_pos, token)) => {
                let next_acc = match token {
                    Some(t) => acc.push(t),
                    None => acc,
                };
                lemma_lex_from_ends_with_eof(cs, j, next_pos, next_acc);
            },
            Err(_) => {},
        }
    }
}

/// A whitespace character (one with Unicode's `White_Space` property, as
/// `char::is_whitespace` tests: tab, line feed, carriage return, space and
/// the others) is skipped: it gives no token and no error, and lexing goes
/// on from the next character at the next byte offset exactly as it would
/// have without it.
pub proof fn law_whitespace_is_skipped(cs: Seq<char>, i: nat, pos: nat, acc: Seq<TokenView>)
    requires
        i < cs.len(),
        is_whitespace_char(cs[i as int]),
    ensures
        lex_step(cs, i, pos) == Ok::<(nat, nat, Option<TokenView>), LexErrorView>(
            (i + 1, pos + char_width(cs[i as int]), None),
        ),
        lex_from(cs, i, pos, acc) == lex_from(cs, i + 1, pos + char_width(cs[i as int]), acc),
{
}

/// Lexing fails only at a character that is not whitespace, and its error
/// names that character.
pub proof fn law_lex_errors_name_non_whitespace(cs: Seq<char>, i: nat, pos: nat, acc: Seq<TokenView>)
    ensures
        lex_from(cs, i, pos, acc) matches Err(e) ==> exists|k: int|
            i <= k < cs.len() && !is_whitespace_char(#[trigger] cs[k]) && e.message
                == unexpected_character_message(cs[k]),
    decreases cs.len() - i,
{
    if i < cs.len() {
        lemma_lex_step_advances(cs, i, pos);
        match lex_step(cs, i, pos) {
            Ok((j, next_pos, token)) => {
                let next_acc = match token {
                    Some(t) => acc.push(t),
                    None => acc,
                };
                law_lex_errors_name_non_whitespace(cs, j, next_pos, next_acc);
            },
            Err(e) => {
                assert(!is_whitespace_char(cs[i as int]));
            },
        }
    }
}

/// Lexing a source text fails only at a character that is not whitespace.
pub proof fn law_lex_never_fails_at_whitespace(source: Seq<char>)
    ensures
        spec_lex(source) matches Err(e) ==> exists|k: int|
            0 <= k < source.len() && !is_whitespace_char(#[trigger] source[k]) && e.message
                == unexpected_character_message(source[k]),
{
    law_lex_errors_name_non_whitespace(source, 0, 0, Seq::empty());
}

/// Lexing that succeeds ends with an end-of-file token.
pub proof fn lemma_lex_ends_with_eof(source: Seq<char>)
    ensures
        spec_lex(source) matches Ok(ts) ==> ts.len() > 0 && ts[ts.len() - 1].kind is Eof,
{
    lemma_lex_from_ends_with_eof(source, 0, 0, Seq::empty());
}

/// One step of lexing from the byte offset of character `i` moves to the
/// byte offset of the next character index, and its token spans the bytes
/// in between.
proof fn lemma_lex_step_position(cs: Seq<char>, i: nat, pos: nat)
    requires
        i < cs.len(),
        pos == utf8_len(cs.take(i as int)),
        utf8_len(cs) <= usize::MAX,
    ensures
        lex_step(cs, i, pos) matches Ok((j, p, t)) ==> {
            &&& i < j <= cs.len()
            &&& p == utf8_len(cs.take(j as int))
            &&& pos <= p <= usize::MAX
            &&& (t matches Some(tok) ==> tok.span.start == pos && tok.span.end == p)
        },
{
    lemma_lex_step_advances(cs, i, pos);
    lemma_utf8_len_take_step(cs, i as int);
    let c = cs[i as int];
    if is_whitespace_char(c) {
    } else if let Some((kind, n)) = punctuation(c, char_at(cs, i + 1)) {
        if n == 2 {
            lemma_utf8_len_take_step(cs, i + 1int);
        }
        lemma_ascii_run_bytes(cs, i, i + n);
        lemma_utf8_len_take_step(cs, i + n - 1);
    } else if is_ident_start_char(c) {
        let j = scan_ident(cs, i + 1);
        lemma_scan_ident(cs, i + 1);
        lemma_ascii_run_bytes(cs, i, j);
        lemma_utf8_len_take_step(cs, j - 1);
    } else if is_ascii_digit_char(c) {
        lemma_scan_digits(cs, i + 1);
        lemma_number_end(cs, i);
        let (end, _) = number_end(cs, i);
        lemma_ascii_run_bytes(cs, i, end);
        lemma_utf8_len_take_step(cs, end - 1);
    }
}

/// Each token's span starts no later than it ends, and no earlier than the
/// token before it ended.
pub open spec fn spans_in_order(ts: Seq<TokenView>) -> bool {
    &&& forall|k: int| 0 <= k < ts.len() ==> (#[trigger] ts[k]).span.start <= ts[k].span.end
    &&& forall|k: int| 0 <= k < ts.len() - 1 ==> (#[trigger] ts[k]).span.end <= ts[k + 1].span.start
}

#[verifier::spinoff_prover]
#[verifier::rlimit(50)]
proof fn lemma_lex_from_spans(cs: Seq<char>, i: nat, pos: nat, acc: Seq<TokenView>)
    requires
        i <= cs.len(),
        pos == utf8_len(cs.take(i as int)),
        utf8_len(cs) <= usize::MAX,
        spans_in_order(acc),
        acc.len() > 0 ==> acc.last().span.end <= pos,
    ensures
        lex_from(cs, i, pos, acc) matches Ok(ts) ==> {
            &&& spans_in_order(ts)
            &&& ts.len() > 0
            &&& ts.last().span.start == utf8_len(cs)
            &&& ts.last().span.end == utf8_len(cs)
        },
    decreases cs.len() - i,
{
    if i >= cs.len() {
        assert(cs.take(i as int) =~= cs);
        let ts = acc.push(token_at(TokenKindView::Eof, pos, pos));
        assert(spans_in_order(ts)) by {
            assert forall|k: int| 0 <= k < ts.len() - 1 implies (#[trigger] ts[k]).span.end <= ts[k + 1].span.start by {
                if k < acc.len() - 1 {
                    assert(acc[k].span.end <= acc[k + 1].span.start);
                }
            }
        }
    } else {
        lemma_lex_step_position(cs, i, pos);
        match lex_step(cs, i, pos) {
            Ok((j, p, token)) => {
                let next_acc = match token {
                    Some(t) => acc.push(t),
                    None => acc,
                };
                assert(spans_in_order(next_acc)) by {
                    assert forall|k: int| 0 <= k < next_acc.len() - 1 implies (#[trigger] next_acc[k]).span.end
                        <= next_acc[k + 1].span.start by {
                        if k < acc.len() - 1 {
                            assert(acc[k].span.end <= acc[k + 1].span.start);
                        }
                    }
                }
                lemma_lex_from_spans(cs, j, p, next_acc);
            },
            Err(_) => {},
        }
    }
}

/// Lexing that succeeds gives the tokens in source order: each span starts
/// no later than it ends and no earlier than the token before it ended, and
/// the end-of-file token sits at the source's length in bytes.
pub proof fn law_token_spans_in_order(source: Seq<char>)
    requires
        utf8_len(source) <= usize::MAX,
    ensures
        spec_lex(source) matches Ok(ts) ==> {
            &&& spans_in_order(ts)
            &&& ts.len() > 0
            &&& ts.last().span.start == utf8_len(source)
            &&& ts.last().span.end == utf8_len(source)
        },
{
    assert(source.take(0) =~= Seq::<char>::empty());
    assert(vstd::utf8::encode_utf8(Seq::<char>::empty()) == Seq::<u8>::empty());
    lemma_lex_from_spans(source, 0, 0, Seq::empty());
}

pub proof fn lemma_scan_ident(cs: Seq<char>, j: nat)
    requires
        j <= cs.len(),
    ensures
        j <= scan_ident(cs, j) <= cs.len(),
        forall|k: int| j <= k < scan_ident(cs, j) ==> is_ident_continue_char(#[trigger] cs[k]),
    decreases cs.len() - j,
{
    if j < cs.len() && is_ident_continue_char(cs[j as int]) {
        lemma_scan_ident(cs, j + 1);
    }
}

pub proof fn lemma_scan_digits(cs: Seq<char>, j: nat)
    requires
        j <= cs.len(),
    ensures
        j <= scan_digits(cs, j) <= cs.len(),
        forall|k: int| j <= k < scan_digits(cs, j) ==> is_ascii_digit_char(#[trigger] cs[k]),
    decreases cs.len() - j,
{
    if j < cs.len() && is_ascii_digit_char(cs[j as int]) {
        lemma_scan_digits(cs, j + 1);
    }
}

pub proof fn lemma_number_end(cs: Seq<char>, i: nat)
    requires
        i < cs.len(),
    ensures
        i < number_end(cs, i).0 <= cs.len(),
        forall|k: int|
            i < k < number_end(cs, i).0 ==> (#[trigger] cs[k] as u32) <= 0x7f,
{
    lemma_scan_digits(cs, i + 1);
    let j = scan_digits(cs, i + 1);
    if j + 1 < cs.len() && cs[j as int] == '.' && is_ascii_digit_char(cs[j + 1int]) {
        lemma_scan_digits(cs, j + 2);
    }
}

/// The characters of an identifier, number or punctuation are one byte each.
proof fn lemma_ascii_run_bytes(cs: Seq<char>, i: nat, j: nat)
    requires
        i <= j <= cs.len(),
        forall|k: int| i <= k < j ==> (#[trigger] cs[k] as u32) <= 0x7f,
    ensures
        utf8_len(cs.take(j as int)) == utf8_len(cs.take(i as int)) + (j - i),
    decreases j - i,
{
    if i < j {
        lemma_ascii_run_bytes(cs, i, (j - 1) as nat);
        lemma_utf8_len_take_step(cs, j - 1);
    }
}

fn word_token(text: &String) -> (r: TokenKind)
    ensures
        r@ == word_kind(text@),
{
    let s = text.as_str();
    if str_eq(s, "fn") {
        TokenKind::Fn
    } else if str_eq(s, "if") {
        TokenKind::If
    } else if str_eq(s, "else") {
        TokenKind::Else
    } else if str_eq(s, "let") {
        TokenKind::Let
    } else if str_eq(s, "loop") {
        TokenKind::Loop
    } else if str_eq(s, "while") {
        TokenKind::While
    } else if str_eq(s, "break") {
        TokenKind::Break
    } else if str_eq(s, "continue") {
        TokenKind::Continue
    } else if str_eq(s, "pub") {
        TokenKind::Pub
    } else if str_eq(s, "return") {
        TokenKind::Return
    } else if str_eq(s, "struct") {
        TokenKind::Struct
    } else if str_eq(s, "true") {
        TokenKind::BoolLiteral(true)
    } else if str_eq(s, "false") {
        TokenKind::BoolLiteral(false)
    } else {
        match Type::from_name(s) {
            Some(t) => TokenKind::PrimitiveType(t),
            None => TokenKind::Ident(text.clone()),
        }
    }
}

fn punctuation_token(c: char, next: Option<char>) -> (r: Option<(TokenKind, usize)>)
    ensures
        match (r, punctuation(c, next)) {
            (Some((k, n)), Some((kv, nv))) => k@ == kv && n == nv,
            (None, None) => true,
            _ => false,
        },
{
    if c == '(' {
        Some((TokenKind::LeftParen, 1))
    } else if c == ')' {
        Some((TokenKind::RightParen, 1))
    } else if c == '{' {
        Some((TokenKind::LeftBrace, 1))
    } else if c == '}' {
        Some((TokenKind::RightBrace, 1))
    } else if c == '&' && next == Some('&') {
        Some((TokenKind::DoubleAmpersand, 2))
    } else if c == '&' {
        Some((TokenKind::Ampersand, 1))
    } else if c == '|' && next == Some('|') {
        Some((TokenKind::DoublePipe, 2))
    } else if c == '|' {
        Some((TokenKind::Pipe, 1))
    } else if c == '^' {
        Some((TokenKind::Caret, 1))
    } else if c == '!' && next == Some('=') {
        Some((TokenKind::BangEqual, 2))
    } else if c == '!' {
        Some((TokenKind::Bang, 1))
    } else if c == ':' {
        Some((TokenKind::Colon, 1))
    } else if c == ',' {
        Some((TokenKind::Comma, 1))
    } else if c == '.' {
        Some((TokenKind::Dot, 1))
    } else if c == '+' {
        Some((TokenKind::Plus, 1))
    } else if c == '*' {
        Some((TokenKind::Star, 1))
    } else if c == '/' {
        Some((TokenKind::Slash, 1))
    } else if c == '<' && next == Some('<') {
        Some((TokenKind::LeftShift, 2))
    } else if c == '>' && next == Some('>') {
        Some((TokenKind::RightShift, 2))
    } else if c == '-' && next == Some('>') {
        Some((TokenKind::Arrow, 2))
    } else if c == '-' {
        Some((TokenKind::Minus, 1))
    } else if c == '=' && next == Some('=') {
        Some((TokenKind::EqualEqual, 2))
    } else if c == '=' {
        Some((TokenKind::Equal, 1))
    } else if c == ';' {
        Some((TokenKind::Semicolon, 1))
    } else {
        None
    }
}

fn peek_at(cs: &Vec<char>, i: usize) -> (r: Option<char>)
    ensures
        r == char_at(cs@, i as nat),
{
    if i < cs.len() {
        Some(cs[i])
    } else {
        None
    }
}

fn scan_ident_exec(cs: &Vec<char>, start: usize) -> (r: usize)
    requires
        start <= cs@.len(),
    ensures
        r == scan_ident(cs@, start as nat),
{
    let mut j = start;
    while j < cs.len() && is_ident_continue(cs[j])
        invariant
            start <= j <= cs@.len(),
            scan_ident(cs@, start as nat) == scan_ident(cs@, j as nat),
        decreases cs@.len() - j,
    {
        j = j + 1;
    }
    j
}

fn scan_digits_exec(cs: &Vec<char>, start: usize) -> (r: usize)
    requires
        start <= cs@.len(),
    ensures
        r == scan_digits(cs@, start as nat),
{
    let mut j = start;
    while j < cs.len() && is_ascii_digit(cs[j])
        invariant
            start <= j <= cs@.len(),
            scan_digits(cs@, start as nat) == scan_digits(cs@, j as nat),
        decreases cs@.len() - j,
    {
        j = j + 1;
    }
    j
}

/// One step of lexing; mirrors [`lex_step`].
fn lex_step_exec(cs: &Vec<char>, i: usize, pos: usize) -> (r: Result<
    (usize, usize, Option<Token>),
    LexError,
>)
    requires
        i < cs@.len(),
        pos == utf8_len(cs@.take(i as int)),
        utf8_len(cs@) <= usize::MAX,
    ensures
        match r {
            Ok((j, p, t)) => {
                &&& lex_step(cs@, i as nat, pos as nat) == Ok::<_, LexErrorView>(
                    (
                        j as nat,
                        p as nat,
                        match t {
                            Some(t) => Some(t@),
                            None => None,
                        },
                    ),
                )
                &&& p == utf8_len(cs@.take(j as int))
            },
            Err(e) => lex_step(cs@, i as nat, pos as nat) == Err::<(nat, nat, Option<TokenView>), _>(
                e@,
            ),
        },
{
    let ghost s = cs@;
    let n = cs.len();
    let c = cs[i];
    let next = peek_at(cs, i + 1);
    proof {
        lemma_utf8_len_take_step(s, i as int);
    }
    if is_whitespace(c) {
        Ok((i + 1, pos + len_utf8(c), None))
    } else if let Some((kind, count)) = punctuation_token(c, next) {
        proof {
            if count == 2 {
                lemma_utf8_len_take_step(s, i + 1);
            }
            lemma_ascii_run_bytes(s, i as nat, (i + count) as nat);
            lemma_utf8_len_take_step(s, i + count - 1);
        }
        Ok((i + count, pos + count, Some(Token { kind, span: Span { start: pos, end: pos + count } })))
    } else if is_ident_start(c) {
        let j = scan_ident_exec(cs, i + 1);
        proof {
            lemma_scan_ident(s, (i + 1) as nat);
            lemma_ascii_run_bytes(s, i as nat, j as nat);
            lemma_utf8_len_take_step(s, j - 1);
        }
        let text = string_of(cs, i, j);
        let kind = word_token(&text);
        Ok((j, pos + (j - i), Some(Token { kind, span: Span { start: pos, end: pos + (j - i) } })))
    } else if is_ascii_digit(c) {
        let j = scan_digits_exec(cs, i + 1);
        proof {
            lemma_scan_digits(s, (i + 1) as nat);
        }
        let is_float = j < n - 1 && cs[j] == '.' && is_ascii_digit(cs[j + 1]);
        let end = if is_float {
            scan_digits_exec(cs, j + 2)
        } else {
            j
        };
        proof {
            lemma_number_end(s, i as nat);
            lemma_ascii_run_bytes(s, i as nat, end as nat);
            lemma_utf8_len_take_step(s, end - 1);
        }
        let text = string_of(cs, i, end);
        let kind = if is_float {
            TokenKind::Float(text)
        } else {
            TokenKind::Integer(text)
        };
        Ok((end, pos + (end - i), Some(Token { kind, span: Span { start: pos, end: pos + (end - i) } })))
    } else {
        let width = len_utf8(c);
        let mut message = String::from_str("unexpected character `");
        push_char(&mut message, c);
        message.append("`");
        proof {
            assert("unexpected character `"@.push(c) == "unexpected character `"@ + seq![c]);
        }
        Err(LexError { message, span: Span { start: pos, end: pos + width } })
    }
}

/// Splits a source text into tokens, ending with an end-of-file token; fails
/// on the first character that starts no token.
pub fn lex(source: &str) -> (r: Result<Vec<Token>, LexError>)
    requires
        utf8_len(source@) <= usize::MAX,
    ensures
        match r {
            Ok(tokens) => spec_lex(source@) == Ok::<_, LexErrorView>(tokens_view(tokens@)),
            Err(e) => spec_lex(source@) == Err::<Seq<TokenView>, _>(e@),
        },
{
    let cs = chars_of(source);
    let ghost s = cs@;
    let n = cs.len();
    let mut tokens: Vec<Token> = Vec::new();
    let mut i: usize = 0;
    let mut pos: usize = 0;
    proof {
        assert(s.take(0) == Seq::<char>::empty());
        assert(tokens_view(tokens@) == Seq::<TokenView>::empty());
    }
    while i < n
        invariant
            n == s.len(),
            s == cs@,
            s == source@,
            utf8_len(s) <= usize::MAX,
            i <= n,
            pos == utf8_len(s.take(i as int)),
            spec_lex(s) == lex_from(s, i as nat, pos as nat, tokens_view(tokens@)),
        decreases n - i,
    {
        proof {
            lemma_lex_step_advances(s, i as nat, pos as nat);
        }
        match lex_step_exec(&cs, i, pos) {
            Err(e) => {
                assert(lex_step(s, i as nat, pos as nat) is Err);
                assert(lex_from(s, i as nat, pos as nat, tokens_view(tokens@)) == Err::<
                    Seq<TokenView>,
                    LexErrorView,
                >(e@));
                return Err(e);
            },
            Ok((j, p, token)) => {
                match token {
                    Some(t) => {
                        proof {
                            assert(tokens_view(tokens@.push(t)) == tokens_view(tokens@).push(t@));
                        }
                        tokens.push(t);
                    },
                    None => {},
                }
                i = j;
                pos = p;
            },
        }
    }
    let tok = Token { kind: TokenKind::Eof, span: Span { start: pos, end: pos } };
    proof {
        assert(tokens_view(tokens@.push(tok)) == tokens_view(tokens@).push(tok@));
    }
    tokens.push(tok);
    Ok(tokens)
}

} // verus!
