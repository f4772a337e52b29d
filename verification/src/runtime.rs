//! The interpreter: runs `main` of a program and collects what it prints.
//!
//! The model is a big-step semantics over the syntax tree's views. It
//! threads a [`Machine`] (heap cells and printed text) through evaluation
//! in the order the interpreter evaluates, so the first error met is the
//! error reported. Floating-point arithmetic is not done here: the caller
//! hands in a float handler, and the model speaks of its answers.
//!
//! Every function call and every loop iteration takes one unit of a budget;
//! a run that would need more than the budget stops with an error.
use vstd::prelude::*;
use vstd::string::StringExecFns;
use crate::ast::{
    expr_view, exprs_view, field_inits_view, lemma_exprs_view, lemma_field_inits_view,
    lemma_stmts_view, operator_is_bitwise, operator_result_is_bool, operator_symbol,
    option_type_view, stmt_view, stmts_view, str_eq, type_eq, type_from_name, BinaryExpression,
    BinaryOperator, BindingView, ExprView, Expression, FieldInitView, Function, FunctionView,
    Program, ProgramView, Statement, StmtView, StructDefView, StructField, StructLiteralField,
    Type, TypeView, FunctionParameter,
};
use crate::text::{concat, concat3, concat5, decimal, i128_to_string, signed_decimal, u128_to_string, usize_to_string};
use crate::typechecker::{
    binary_view, check_declared_type, check_struct_field_types, declarations, tc_collect_functions,
    tc_collect_structs, tc_declared, tc_struct_field_types, CheckedProgram, CheckedProgramView,
    TypeError,
};

verus! {

/// A run that went wrong, with the reason.
#[derive(Debug, Clone, PartialEq, Eq)]
pub struct RuntimeError {
    pub message: String,
}

impl View for RuntimeError {
    type V = Seq<char>;

    open spec fn view(&self) -> Seq<char> {
        self.message@
    }
}

// ---------------------------------------------------------------------------
// Floating point, supplied by the caller.
// ---------------------------------------------------------------------------

/// A question put to the float handler. Floats travel as the bits of an
/// IEEE-754 double.
#[derive(Debug, PartialEq, Eq)]
pub enum FloatRequest {
    /// The double nearest to a decimal literal.
    Parse(String),
    /// The single-precision bits of a double, widened to 64 bits.
    Narrow(u64),
    Add(u64, u64),
    Subtract(u64, u64),
    Multiply(u64, u64),
    Divide(u64, u64),
    /// Whether two doubles compare equal.
    Equal(u64, u64),
    /// How a double is printed.
    Print(u64),
}

/// The float handler's answer.
#[derive(Debug, PartialEq, Eq)]
pub enum FloatReply {
    Bits(u64),
    Invalid,
    Truth(bool),
    Text(String),
}

/// The model of a [`FloatRequest`].
pub enum FloatQuery {
    Parse(Seq<char>),
    Narrow(u64),
    Add(u64, u64),
    Subtract(u64, u64),
    Multiply(u64, u64),
    Divide(u64, u64),
    Equal(u64, u64),
    Print(u64),
}

/// The model of a [`FloatReply`].
pub enum FloatAnswer {
    Bits(u64),
    Invalid,
    Truth(bool),
    Text(Seq<char>),
}

impl View for FloatRequest {
    type V = FloatQuery;

    open spec fn view(&self) -> FloatQuery {
        match self {
            FloatRequest::Parse(t) => FloatQuery::Parse(t@),
            FloatRequest::Narrow(x) => FloatQuery::Narrow(*x),
            FloatRequest::Add(x, y) => FloatQuery::Add(*x, *y),
            FloatRequest::Subtract(x, y) => FloatQuery::Subtract(*x, *y),
            FloatRequest::Multiply(x, y) => FloatQuery::Multiply(*x, *y),
            FloatRequest::Divide(x, y) => FloatQuery::Divide(*x, *y),
            FloatRequest::Equal(x, y) => FloatQuery::Equal(*x, *y),
            FloatRequest::Print(x) => FloatQuery::Print(*x),
        }
    }
}

impl View for FloatReply {
    type V = FloatAnswer;

    open spec fn view(&self) -> FloatAnswer {
        match self {
            FloatReply::Bits(x) => FloatAnswer::Bits(*x),
            FloatReply::Invalid => FloatAnswer::Invalid,
            FloatReply::Truth(b) => FloatAnswer::Truth(*b),
            FloatReply::Text(t) => FloatAnswer::Text(t@),
        }
    }
}

/// Whether the handler may answer `q` with `a`.
pub open spec fn answers<F: Fn(FloatRequest) -> FloatReply>(f: F, q: FloatQuery, a: FloatAnswer) -> bool {
    exists|req: FloatRequest, rep: FloatReply| req@ == q && rep@ == a && #[trigger] call_ensures(f, (req,), rep)
}

/// A handler that accepts every request and gives equal answers to equal requests.
pub open spec fn float_handler<F: Fn(FloatRequest) -> FloatReply>(f: F) -> bool {
    &&& forall|req: FloatRequest| call_requires(f, (req,))
    &&& forall|r1: FloatRequest, r2: FloatRequest, a1: FloatReply, a2: FloatReply|
        r1@ == r2@ && #[trigger] call_ensures(f, (r1,), a1) && #[trigger] call_ensures(f, (r2,), a2)
            ==> a1@ == a2@
}

/// The handler's answer to a query.
pub open spec fn float_answer<F: Fn(FloatRequest) -> FloatReply>(f: F, q: FloatQuery) -> FloatAnswer {
    choose|a: FloatAnswer| #[trigger] answers(f, q, a)
}

/// The handler as a function from queries to answers.
pub open spec fn float_semantics<F: Fn(FloatRequest) -> FloatReply>(f: F) -> spec_fn(FloatQuery) -> FloatAnswer {
    |q: FloatQuery| float_answer(f, q)
}

pub open spec fn float_parse(fs: spec_fn(FloatQuery) -> FloatAnswer, text: Seq<char>) -> Option<u64> {
    match fs(FloatQuery::Parse(text)) {
        FloatAnswer::Bits(b) => Some(b),
        _ => None,
    }
}

pub open spec fn float_bits(answer: FloatAnswer) -> u64 {
    match answer {
        FloatAnswer::Bits(b) => b,
        _ => 0,
    }
}

pub open spec fn float_equal(fs: spec_fn(FloatQuery) -> FloatAnswer, x: u64, y: u64) -> bool {
    match fs(FloatQuery::Equal(x, y)) {
        FloatAnswer::Truth(t) => t,
        _ => false,
    }
}

pub open spec fn float_text(fs: spec_fn(FloatQuery) -> FloatAnswer, x: u64) -> Seq<char> {
    match fs(FloatQuery::Print(x)) {
        FloatAnswer::Text(t) => t,
        _ => Seq::empty(),
    }
}

// ---------------------------------------------------------------------------
// Values.
// ---------------------------------------------------------------------------

/// The integer held by an integer value: signed for the signed types.
#[derive(Debug, Clone, Copy, PartialEq, Eq, Structural)]
pub enum IntegerValue {
    Signed(i128),
    Unsigned(u128),
}

/// A value of the language.
#[derive(Debug, PartialEq, Eq)]
pub enum Value {
    Integer { value: IntegerValue, ty: Type },
    Float { bits: u64, ty: Type },
    Bool(bool),
    Struct { name: String, fields: Vec<(String, Value)> },
    Pointer(PointerValue),
}

/// A pointer: to a value of the program, or to a heap cell from `alloc`.
#[derive(Debug, PartialEq, Eq)]
pub enum PointerValue {
    Reference(Box<Value>),
    Heap { allocation: usize, ty: Type },
}

/// The model of a [`Value`].
pub enum ValueView {
    Integer { value: IntegerValue, ty: TypeView },
    Float { bits: u64, ty: TypeView },
    Bool(bool),
    Struct { name: Seq<char>, fields: Seq<(Seq<char>, ValueView)> },
    Reference(Box<ValueView>),
    Heap { allocation: nat, ty: TypeView },
}

/// An integer value as a signed number.
pub open spec fn signed_integer(v: IntegerValue) -> i128 {
    match v {
        IntegerValue::Signed(x) => x,
        IntegerValue::Unsigned(x) => x as i128,
    }
}

/// An integer value as an unsigned number.
pub open spec fn unsigned_integer(v: IntegerValue) -> u128 {
    match v {
        IntegerValue::Signed(x) => x as u128,
        IntegerValue::Unsigned(x) => x,
    }
}

pub open spec fn integer_text(v: IntegerValue) -> Seq<char> {
    match v {
        IntegerValue::Signed(x) => signed_decimal(x as int),
        IntegerValue::Unsigned(x) => decimal(x as nat),
    }
}

pub open spec fn value_view(v: Value) -> ValueView
    decreases v,
{
    match v {
        Value::Integer { value, ty } => ValueView::Integer { value, ty: ty@ },
        Value::Float { bits, ty } => ValueView::Float { bits, ty: ty@ },
        Value::Bool(b) => ValueView::Bool(b),
        Value::Struct { name, fields } => ValueView::Struct {
            name: name@,
            fields: field_values_view(fields@),
        },
        Value::Pointer(PointerValue::Reference(inner)) => ValueView::Reference(
            Box::new(value_view(*inner)),
        ),
        Value::Pointer(PointerValue::Heap { allocation, ty }) => ValueView::Heap {
            allocation: allocation as nat,
            ty: ty@,
        },
    }
}

pub open spec fn field_values_view(fs: Seq<(String, Value)>) -> Seq<(Seq<char>, ValueView)>
    decreases fs,
{
    if fs.len() == 0 {
        Seq::empty()
    } else {
        seq![(fs[0].0@, value_view(fs[0].1))] + field_values_view(fs.drop_first())
    }
}

impl View for Value {
    type V = ValueView;

    open spec fn view(&self) -> ValueView {
        value_view(*self)
    }
}

pub proof fn lemma_field_values_view(fs: Seq<(String, Value)>)
    ensures
        field_values_view(fs).len() == fs.len(),
        forall|i: int|
            0 <= i < fs.len() ==> #[trigger] field_values_view(fs)[i] == (fs[i].0@, value_view(fs[i].1)),
    decreases fs.len(),
{
    if fs.len() > 0 {
        lemma_field_values_view(fs.drop_first());
    }
}

/// The type of a value.
pub open spec fn value_type(v: ValueView) -> TypeView
    decreases v,
{
    match v {
        ValueView::Integer { ty, .. } => ty,
        ValueView::Float { ty, .. } => ty,
        ValueView::Bool(_) => TypeView::Bool,
        ValueView::Struct { name, .. } => TypeView::Struct(name),
        ValueView::Reference(inner) => TypeView::Pointer(Box::new(value_type(*inner))),
        ValueView::Heap { ty, .. } => TypeView::Pointer(Box::new(ty)),
    }
}

/// Equality of values as the language's `==` sees it; floats compare through the handler.
pub open spec fn value_eq(fs: spec_fn(FloatQuery) -> FloatAnswer, a: ValueView, b: ValueView) -> bool
    decreases a,
{
    match (a, b) {
        (ValueView::Integer { value: x, ty: t }, ValueView::Integer { value: y, ty: u }) => x == y && t == u,
        (ValueView::Float { bits: x, ty: t }, ValueView::Float { bits: y, ty: u }) => float_equal(fs, x, y) && t
            == u,
        (ValueView::Bool(x), ValueView::Bool(y)) => x == y,
        (ValueView::Struct { name: n, fields: f }, ValueView::Struct { name: k, fields: g }) => n == k
            && fields_eq(fs, f, g),
        (ValueView::Reference(x), ValueView::Reference(y)) => value_eq(fs, *x, *y),
        (ValueView::Heap { allocation: x, ty: t }, ValueView::Heap { allocation: y, ty: u }) => x == y && t
            == u,
        _ => false,
    }
}

pub open spec fn fields_eq(
    fs: spec_fn(FloatQuery) -> FloatAnswer,
    f: Seq<(Seq<char>, ValueView)>,
    g: Seq<(Seq<char>, ValueView)>,
) -> bool
    decreases f,
{
    if f.len() != g.len() {
        false
    } else if f.len() == 0 {
        true
    } else {
        f[0].0 == g[0].0 && value_eq(fs, f[0].1, g[0].1) && fields_eq(fs, f.drop_first(), g.drop_first())
    }
}

/// How `println` shows a value.
pub open spec fn printable(fs: spec_fn(FloatQuery) -> FloatAnswer, v: ValueView) -> Seq<char>
    decreases v,
{
    match v {
        ValueView::Integer { value, .. } => integer_text(value),
        ValueView::Float { bits, .. } => float_text(fs, bits),
        ValueView::Bool(b) => if b {
            "true"@
        } else {
            "false"@
        },
        ValueView::Struct { name, fields } => name + " { "@ + fields_printable(fs, fields) + " }"@,
        ValueView::Reference(inner) => "&"@ + printable(fs, *inner),
        ValueView::Heap { allocation, ty } => "&"@ + ty.name() + "#"@ + decimal(allocation),
    }
}

/// `name: value` for each field, separated by `, `.
pub open spec fn fields_printable(fs: spec_fn(FloatQuery) -> FloatAnswer, fields: Seq<(Seq<char>, ValueView)>) -> Seq<
    char,
>
    decreases fields,
{
    if fields.len() == 0 {
        Seq::empty()
    } else {
        let first = fields[0].0 + ": "@ + printable(fs, fields[0].1);
        if fields.len() == 1 {
            first
        } else {
            first + ", "@ + fields_printable(fs, fields.drop_first())
        }
    }
}

// ---------------------------------------------------------------------------
// Operations on values.
// ---------------------------------------------------------------------------

pub open spec fn msg_mismatch(actual: TypeView, expected: TypeView) -> Seq<char> {
    "cannot use `"@ + actual.name() + "` value as `"@ + expected.name() + "`"@
}

/// A value where a value of type `ty` is wanted.
pub open spec fn expect_value(v: ValueView, ty: TypeView) -> Result<ValueView, Seq<char>> {
    if value_type(v) == ty {
        Ok(v)
    } else {
        Err(msg_mismatch(value_type(v), ty))
    }
}

/// An integer literal read as a value of type `ty`.
pub open spec fn integer_literal(value: u128, ty: TypeView) -> Result<ValueView, Seq<char>> {
    if !ty.is_integer() {
        Err("cannot assign integer literal to `"@ + ty.name() + "`"@)
    } else if value > ty.max_integer_value().unwrap() {
        Err("integer literal `"@ + decimal(value as nat) + "` does not fit in `"@ + ty.name() + "`"@)
    } else {
        Ok(
            ValueView::Integer {
                value: if ty.is_signed_integer() {
                    IntegerValue::Signed(value as i128)
                } else {
                    IntegerValue::Unsigned(value)
                },
                ty,
            },
        )
    }
}

/// A float literal read as a value of type `ty`, through the handler.
pub open spec fn float_literal(fs: spec_fn(FloatQuery) -> FloatAnswer, text: Seq<char>, ty: TypeView) -> Result<
    ValueView,
    Seq<char>,
> {
    if !ty.is_float() {
        Err("cannot assign float literal to `"@ + ty.name() + "`"@)
    } else {
        match float_parse(fs, text) {
            None => Err("float literal `"@ + text + "` is invalid"@),
            Some(bits) => Ok(ValueView::Float { bits, ty }),
        }
    }
}

pub open spec fn as_bool(v: ValueView) -> bool {
    match v {
        ValueView::Bool(b) => b,
        _ => false,
    }
}

pub open spec fn msg_operator(name: Seq<char>, ty: TypeView) -> Seq<char> {
    "operator `"@ + name + "` cannot be used with `"@ + ty.name() + "`"@
}

/// An integer-only operator on a type.
pub open spec fn ensure_integer_operator(name: Seq<char>, ty: TypeView) -> Result<(), Seq<char>> {
    if ty.is_integer() {
        Ok(())
    } else {
        Err(msg_operator(name, ty))
    }
}

/// A binary operator on operands of a type.
pub open spec fn ensure_operator(op: BinaryOperator, ty: TypeView) -> Result<(), Seq<char>> {
    if operator_is_bitwise(op) {
        ensure_integer_operator(operator_symbol(op), ty)
    } else if ty.is_integer() || ty.is_float() {
        Ok(())
    } else {
        Err(msg_operator(operator_symbol(op), ty))
    }
}

/// Division rounding toward zero.
pub open spec fn truncating_div(x: int, d: int) -> int {
    if x == 0 {
        0
    } else if x > 0 && d > 0 {
        x / d
    } else if x < 0 && d < 0 {
        (x * -1) / (d * -1)
    } else if x < 0 {
        ((x * -1) / d) * -1
    } else {
        (x / (d * -1)) * -1
    }
}

pub open spec fn msg_overflow(ty: TypeView) -> Seq<char> {
    "operation result does not fit in `"@ + ty.name() + "`"@
}

/// `+ - * /` on integers of a type: the exact result, if the type holds it.
pub open spec fn integer_arithmetic(op: BinaryOperator, l: IntegerValue, r: IntegerValue, ty: TypeView) -> Result<
    ValueView,
    Seq<char>,
> {
    let signed = ty.is_signed_integer();
    let x: int = if signed {
        signed_integer(l) as int
    } else {
        unsigned_integer(l) as int
    };
    let y: int = if signed {
        signed_integer(r) as int
    } else {
        unsigned_integer(r) as int
    };
    if !(op is Add || op is Subtract || op is Multiply || op is Divide) {
        Err(msg_operator(operator_symbol(op), ty))
    } else if op is Divide && y == 0 {
        Err("division by zero"@)
    } else {
        let result = match op {
            BinaryOperator::Add => x + y,
            BinaryOperator::Subtract => x - y,
            BinaryOperator::Multiply => x * y,
            _ => truncating_div(x, y),
        };
        if result < ty.min_integer_value() || result > ty.max_integer_value().unwrap() {
            Err(msg_overflow(ty))
        } else if signed {
            Ok(ValueView::Integer { value: IntegerValue::Signed(result as i128), ty })
        } else {
            Ok(ValueView::Integer { value: IntegerValue::Unsigned(result as u128), ty })
        }
    }
}

/// All ones in the low `bits` bits.
pub open spec fn low_mask(bits: u32) -> u128 {
    if bits >= 128 {
        u128::MAX
    } else {
        ((1u128 << bits) - 1) as u128
    }
}

/// The two's complement bits of a signed value in a width.
pub open spec fn to_bits(v: i128, bits: u32) -> u128 {
    (v as u128) & low_mask(bits)
}

/// The signed value of two's complement bits in a width.
pub open spec fn from_bits(x: u128, bits: u32) -> i128 {
    let v = x & low_mask(bits);
    if bits >= 128 {
        v as i128
    } else if v & (1u128 << ((bits - 1) as u32)) == 0 {
        v as i128
    } else {
        ((v as i128) - (1i128 << bits)) as i128
    }
}

/// The shift amount given by a right operand, for a type `bits` wide.
pub open spec fn shift_amount(r: int, bits: u32, ty: TypeView) -> Result<u32, Seq<char>> {
    if r < 0 {
        Err("shift amount cannot be negative"@)
    } else if r >= bits {
        Err("shift amount must be less than bit width of `"@ + ty.name() + "`"@)
    } else {
        Ok(r as u32)
    }
}

/// `& | ^ << >>` on integers of a type, in its width.
pub open spec fn integer_bitwise(op: BinaryOperator, l: IntegerValue, r: IntegerValue, ty: TypeView) -> Result<
    ValueView,
    Seq<char>,
> {
    let bits = ty.integer_bits().unwrap();
    if ty.is_signed_integer() {
        let x = signed_integer(l);
        let y = signed_integer(r);
        let shifted = if op is ShiftLeft || op is ShiftRight {
            shift_amount(y as int, bits, ty)
        } else {
            Ok(0u32)
        };
        match shifted {
            Err(m) => Err(m),
            Ok(shift) => {
                let value: i128 = match op {
                    BinaryOperator::BitAnd => from_bits(to_bits(x, bits) & to_bits(y, bits), bits),
                    BinaryOperator::BitOr => from_bits(to_bits(x, bits) | to_bits(y, bits), bits),
                    BinaryOperator::BitXor => from_bits(to_bits(x, bits) ^ to_bits(y, bits), bits),
                    BinaryOperator::ShiftLeft => from_bits(
                        ((to_bits(x, bits) << shift) & low_mask(bits)) as u128,
                        bits,
                    ),
                    _ => x >> shift,
                };
                Ok(ValueView::Integer { value: IntegerValue::Signed(value), ty })
            },
        }
    } else {
        let x = unsigned_integer(l);
        let y = unsigned_integer(r);
        let shifted = if op is ShiftLeft || op is ShiftRight {
            shift_amount(y as int, bits, ty)
        } else {
            Ok(0u32)
        };
        match shifted {
            Err(m) => Err(m),
            Ok(shift) => {
                let value: u128 = match op {
                    BinaryOperator::BitAnd => x & y,
                    BinaryOperator::BitOr => x | y,
                    BinaryOperator::BitXor => x ^ y,
                    BinaryOperator::ShiftLeft => ((x << shift) & low_mask(bits)) as u128,
                    _ => x >> shift,
                };
                Ok(ValueView::Integer { value: IntegerValue::Unsigned(value & low_mask(bits)), ty })
            },
        }
    }
}

/// `+ - * /` on doubles, through the handler.
pub open spec fn float_arithmetic(
    fs: spec_fn(FloatQuery) -> FloatAnswer,
    op: BinaryOperator,
    l: u64,
    r: u64,
    ty: TypeView,
) -> Result<ValueView, Seq<char>> {
    if op is Divide && float_equal(fs, r, 0) {
        Err("division by zero"@)
    } else {
        match op {
            BinaryOperator::Add => Ok(ValueView::Float { bits: float_bits(fs(FloatQuery::Add(l, r))), ty }),
            BinaryOperator::Subtract => Ok(
                ValueView::Float { bits: float_bits(fs(FloatQuery::Subtract(l, r))), ty },
            ),
            BinaryOperator::Multiply => Ok(
                ValueView::Float { bits: float_bits(fs(FloatQuery::Multiply(l, r))), ty },
            ),
            BinaryOperator::Divide => Ok(ValueView::Float { bits: float_bits(fs(FloatQuery::Divide(l, r))), ty }),
            _ => Err(msg_operator(operator_symbol(op), ty)),
        }
    }
}

/// A binary operator other than `&& || == !=` applied to two values.
pub open spec fn apply_binary(fs: spec_fn(FloatQuery) -> FloatAnswer, l: ValueView, op: BinaryOperator, r: ValueView) -> Result<
    ValueView,
    Seq<char>,
> {
    let ty = value_type(l);
    if value_type(r) != ty {
        Err(
            "operator `"@ + operator_symbol(op) + "` expects matching types, found `"@ + ty.name()
                + "` and `"@ + value_type(r).name() + "`"@,
        )
    } else if ty.is_integer() {
        match (l, r) {
            (ValueView::Integer { value: x, .. }, ValueView::Integer { value: y, .. }) => if operator_is_bitwise(op) {
                integer_bitwise(op, x, y, ty)
            } else {
                integer_arithmetic(op, x, y, ty)
            },
            _ => Err(msg_operator(operator_symbol(op), ty)),
        }
    } else if ty.is_float() {
        match (l, r) {
            (ValueView::Float { bits: x, .. }, ValueView::Float { bits: y, .. }) => float_arithmetic(fs, op, x, y, ty),
            _ => Err(msg_operator(operator_symbol(op), ty)),
        }
    } else {
        Err(msg_operator(operator_symbol(op), ty))
    }
}

/// `!` on a value: logical for bools, bitwise in the width for integers.
pub open spec fn apply_not(v: ValueView) -> Result<ValueView, Seq<char>> {
    let ty = value_type(v);
    if ty.is_bool() {
        Ok(ValueView::Bool(!as_bool(v)))
    } else if !ty.is_integer() {
        Err(msg_operator("!"@, ty))
    } else {
        match v {
            ValueView::Integer { value, ty } => {
                let bits = ty.integer_bits().unwrap();
                if ty.is_signed_integer() {
                    Ok(ValueView::Integer {
                        value: IntegerValue::Signed(
                            from_bits(!to_bits(signed_integer(value), bits) & low_mask(bits), bits),
                        ),
                        ty,
                    })
                } else {
                    Ok(ValueView::Integer {
                        value: IntegerValue::Unsigned(!unsigned_integer(value) & low_mask(bits)),
                        ty,
                    })
                }
            },
            _ => Err(msg_operator("!"@, ty)),
        }
    }
}

// ---------------------------------------------------------------------------
// The machine and the program's tables.
// ---------------------------------------------------------------------------

/// What a run changes besides variables: heap cells (freed ones are `None`)
/// and the text printed so far.
pub struct Machine {
    pub heap: Seq<Option<ValueView>>,
    pub output: Seq<char>,
}

/// Variables in scope, latest binding last.
pub type Vars = Seq<(Seq<char>, ValueView)>;

/// How a statement ends.
pub enum Signal {
    Normal,
    Return(ValueView),
    Break,
    Continue,
}

pub open spec fn lookup_var_in(vars: Vars, name: Seq<char>, k: nat) -> Option<ValueView>
    decreases k,
{
    if k == 0 || k > vars.len() {
        None
    } else if vars[k - 1].0 == name {
        Some(vars[k - 1].1)
    } else {
        lookup_var_in(vars, name, (k - 1) as nat)
    }
}

/// The value of the latest binding of a name.
pub open spec fn lookup_var(vars: Vars, name: Seq<char>) -> Option<ValueView> {
    lookup_var_in(vars, name, vars.len())
}

pub open spec fn find_function_from(functions: Seq<FunctionView>, name: Seq<char>, i: nat) -> Option<FunctionView>
    decreases functions.len() - i,
{
    if i >= functions.len() {
        None
    } else if functions[i as int].name == name {
        Some(functions[i as int])
    } else {
        find_function_from(functions, name, i + 1)
    }
}

/// The first function with this name.
pub open spec fn find_function(p: ProgramView, name: Seq<char>) -> Option<FunctionView> {
    find_function_from(p.functions, name, 0)
}

pub open spec fn find_struct_from(structs: Seq<StructDefView>, name: Seq<char>, i: nat) -> Option<Seq<BindingView>>
    decreases structs.len() - i,
{
    if i >= structs.len() {
        None
    } else if structs[i as int].name == name {
        Some(structs[i as int].fields)
    } else {
        find_struct_from(structs, name, i + 1)
    }
}

/// The fields of the first struct with this name.
pub open spec fn find_struct(p: ProgramView, name: Seq<char>) -> Option<Seq<BindingView>> {
    find_struct_from(p.structs, name, 0)
}

pub open spec fn find_binding_from(bindings: Seq<BindingView>, name: Seq<char>, i: nat) -> Option<TypeView>
    decreases bindings.len() - i,
{
    if i >= bindings.len() {
        None
    } else if bindings[i as int].name == name {
        Some(bindings[i as int].ty)
    } else {
        find_binding_from(bindings, name, i + 1)
    }
}

pub open spec fn find_field_value_from(fields: Seq<(Seq<char>, ValueView)>, name: Seq<char>, i: nat) -> Option<
    ValueView,
>
    decreases fields.len() - i,
{
    if i >= fields.len() {
        None
    } else if fields[i as int].0 == name {
        Some(fields[i as int].1)
    } else {
        find_field_value_from(fields, name, i + 1)
    }
}

/// A field of a struct value.
pub open spec fn field_of(v: ValueView, field: Seq<char>) -> Result<ValueView, Seq<char>> {
    match v {
        ValueView::Struct { name, fields } => match find_field_value_from(fields, field, 0) {
            Some(x) => Ok(x),
            None => Err("unknown field `"@ + field + "` in `"@ + name + "`"@),
        },
        _ => Err("cannot access field `"@ + field + "` on `"@ + value_type(v).name() + "`"@),
    }
}

/// The value a pointer points at.
pub open spec fn deref(m: Machine, v: ValueView) -> Result<ValueView, Seq<char>> {
    match v {
        ValueView::Reference(x) => Ok(*x),
        ValueView::Heap { allocation, .. } => if allocation < m.heap.len() && m.heap[allocation as int] is Some {
            Ok(m.heap[allocation as int].unwrap())
        } else {
            Err("cannot dereference freed pointer"@)
        },
        _ => Err("cannot dereference `"@ + value_type(v).name() + "`"@),
    }
}

/// `object.field`, through a pointer if the object is one.
pub open spec fn access_field(m: Machine, obj: ValueView, field: Seq<char>) -> Result<ValueView, Seq<char>> {
    match obj {
        ValueView::Struct { .. } => field_of(obj, field),
        ValueView::Reference(_) => match deref(m, obj) {
            Err(msg) => Err(msg),
            Ok(target) => field_of(target, field),
        },
        ValueView::Heap { .. } => match deref(m, obj) {
            Err(msg) => Err(msg),
            Ok(target) => field_of(target, field),
        },
        _ => Err("cannot access field `"@ + field + "` on `"@ + value_type(obj).name() + "`"@),
    }
}

/// A new heap cell holding `v`, and a pointer to it.
pub open spec fn allocate(m: Machine, v: ValueView) -> (ValueView, Machine) {
    (
        ValueView::Heap { allocation: m.heap.len(), ty: value_type(v) },
        Machine { heap: m.heap.push(Some(v)), output: m.output },
    )
}

pub open spec fn budget_message() -> Seq<char> {
    "execution budget exhausted"@
}

// ---------------------------------------------------------------------------
// Evaluation.
// ---------------------------------------------------------------------------

/// An expression's value and the machine after it.
pub type Outcome = (Result<ValueView, Seq<char>>, Machine);

pub open spec fn is_untyped(e: ExprView) -> bool {
    e is Integer || e is Float
}

pub open spec fn then_expect(o: Outcome, ty: TypeView) -> Outcome {
    match o.0 {
        Err(msg) => (Err(msg), o.1),
        Ok(v) => (expect_value(v, ty), o.1),
    }
}

/// An expression's value, as its own form decides its type.
pub open spec fn rt_eval(
    fs: spec_fn(FloatQuery) -> FloatAnswer,
    p: ProgramView,
    fuel: nat,
    m: Machine,
    vars: Vars,
    e: ExprView,
) -> Outcome
    decreases fuel, 0int, e, 10int,
{
    match e {
        ExprView::Integer(v) => (integer_literal(v, TypeView::I32), m),
        ExprView::Float(t) => (float_literal(fs, t, TypeView::F64), m),
        ExprView::Bool(b) => (Ok(ValueView::Bool(b)), m),
        ExprView::Variable(name) => (
            match lookup_var(vars, name) {
                Some(v) => Ok(v),
                None => Err("variable `"@ + name + "` not found"@),
            },
            m,
        ),
        ExprView::Call { name, arguments } => rt_call_expression(fs, p, fuel, m, vars, name, arguments),
        ExprView::StructLiteral { name, fields } => rt_struct_literal(fs, p, fuel, m, vars, name, fields),
        ExprView::FieldAccess { object, field } => {
            let (r, m1) = rt_eval(fs, p, fuel, m, vars, *object);
            match r {
                Err(msg) => (Err(msg), m1),
                Ok(obj) => (access_field(m1, obj, field), m1),
            }
        },
        ExprView::AddressOf(inner) => {
            let (r, m1) = rt_eval(fs, p, fuel, m, vars, *inner);
            match r {
                Err(msg) => (Err(msg), m1),
                Ok(v) => (Ok(ValueView::Reference(Box::new(v))), m1),
            }
        },
        ExprView::Dereference(inner) => {
            let (r, m1) = rt_eval(fs, p, fuel, m, vars, *inner);
            match r {
                Err(msg) => (Err(msg), m1),
                Ok(v) => (deref(m1, v), m1),
            }
        },
        ExprView::BitNot(inner) => {
            let (r, m1) = rt_eval(fs, p, fuel, m, vars, *inner);
            match r {
                Err(msg) => (Err(msg), m1),
                Ok(v) => (apply_not(v), m1),
            }
        },
        ExprView::Binary { .. } => rt_binary(fs, p, fuel, m, vars, e),
    }
}

/// An expression's value where a value of type `ty` is wanted.
pub open spec fn rt_eval_as(
    fs: spec_fn(FloatQuery) -> FloatAnswer,
    p: ProgramView,
    fuel: nat,
    m: Machine,
    vars: Vars,
    e: ExprView,
    ty: TypeView,
) -> Outcome
    decreases fuel, 0int, e, 11int,
{
    match e {
        ExprView::Integer(v) => (integer_literal(v, ty), m),
        ExprView::Float(t) => (float_literal(fs, t, ty), m),
        ExprView::Bool(b) => if ty.is_bool() {
            (Ok(ValueView::Bool(b)), m)
        } else {
            (Err("cannot assign bool literal to `"@ + ty.name() + "`"@), m)
        },
        ExprView::Call { name, arguments } => if name == "alloc"@ {
            rt_alloc_as(fs, p, fuel, m, vars, arguments, ty)
        } else {
            then_expect(rt_eval(fs, p, fuel, m, vars, e), ty)
        },
        ExprView::BitNot(inner) => if !ty.is_bool() && !ty.is_integer() {
            (Err(msg_operator("!"@, ty)), m)
        } else {
            let (r, m1) = rt_eval_as(fs, p, fuel, m, vars, *inner, ty);
            match r {
                Err(msg) => (Err(msg), m1),
                Ok(v) => (apply_not(v), m1),
            }
        },
        ExprView::Binary { .. } => rt_binary_as(fs, p, fuel, m, vars, e, ty),
        _ => then_expect(rt_eval(fs, p, fuel, m, vars, e), ty),
    }
}

/// A binary expression's value, as its operands decide its type.
pub open spec fn rt_binary(
    fs: spec_fn(FloatQuery) -> FloatAnswer,
    p: ProgramView,
    fuel: nat,
    m: Machine,
    vars: Vars,
    e: ExprView,
) -> Outcome
    decreases fuel, 0int, e, 9int,
{
    match e {
        ExprView::Binary { left, operator, right } => if operator is BoolAnd || operator is BoolOr {
            rt_logic(fs, p, fuel, m, vars, e)
        } else if operator is Equal || operator is NotEqual {
            rt_equality(fs, p, fuel, m, vars, e)
        } else if is_untyped(*left) && !is_untyped(*right) {
            let (rr, m1) = rt_eval(fs, p, fuel, m, vars, *right);
            match rr {
                Err(msg) => (Err(msg), m1),
                Ok(rv) => match ensure_operator(operator, value_type(rv)) {
                    Err(msg) => (Err(msg), m1),
                    Ok(_) => {
                        let (lr, m2) = rt_eval_as(fs, p, fuel, m1, vars, *left, value_type(rv));
                        match lr {
                            Err(msg) => (Err(msg), m2),
                            Ok(lv) => (apply_binary(fs, lv, operator, rv), m2),
                        }
                    },
                },
            }
        } else {
            let (lr, m1) = rt_eval(fs, p, fuel, m, vars, *left);
            match lr {
                Err(msg) => (Err(msg), m1),
                Ok(lv) => match ensure_operator(operator, value_type(lv)) {
                    Err(msg) => (Err(msg), m1),
                    Ok(_) => {
                        let (rr, m2) = rt_eval_as(fs, p, fuel, m1, vars, *right, value_type(lv));
                        match rr {
                            Err(msg) => (Err(msg), m2),
                            Ok(rv) => (apply_binary(fs, lv, operator, rv), m2),
                        }
                    },
                },
            }
        },
        _ => (Err(Seq::empty()), m),
    }
}

/// A binary expression's value where a value of type `ty` is wanted.
pub open spec fn rt_binary_as(
    fs: spec_fn(FloatQuery) -> FloatAnswer,
    p: ProgramView,
    fuel: nat,
    m: Machine,
    vars: Vars,
    e: ExprView,
    ty: TypeView,
) -> Outcome
    decreases fuel, 0int, e, 10int,
{
    match e {
        ExprView::Binary { left, operator, right } => if operator_result_is_bool(operator) {
            then_expect(rt_binary(fs, p, fuel, m, vars, e), ty)
        } else {
            match ensure_operator(operator, ty) {
                Err(msg) => (Err(msg), m),
                Ok(_) => {
                    let (lr, m1) = rt_eval_as(fs, p, fuel, m, vars, *left, ty);
                    match lr {
                        Err(msg) => (Err(msg), m1),
                        Ok(lv) => {
                            let (rr, m2) = rt_eval_as(fs, p, fuel, m1, vars, *right, ty);
                            match rr {
                                Err(msg) => (Err(msg), m2),
                                Ok(rv) => (apply_binary(fs, lv, operator, rv), m2),
                            }
                        },
                    }
                },
            }
        },
        _ => (Err(Seq::empty()), m),
    }
}

/// `&&` and `||`: the right operand only when the left does not decide.
pub open spec fn rt_logic(
    fs: spec_fn(FloatQuery) -> FloatAnswer,
    p: ProgramView,
    fuel: nat,
    m: Machine,
    vars: Vars,
    e: ExprView,
) -> Outcome
    decreases fuel, 0int, e, 8int,
{
    match e {
        ExprView::Binary { left, operator, right } => {
            let (lr, m1) = rt_eval_as(fs, p, fuel, m, vars, *left, TypeView::Bool);
            match lr {
                Err(msg) => (Err(msg), m1),
                Ok(lv) => if (operator is BoolAnd && !as_bool(lv)) || (operator is BoolOr && as_bool(lv)) {
                    (Ok(ValueView::Bool(as_bool(lv))), m1)
                } else {
                    let (rr, m2) = rt_eval_as(fs, p, fuel, m1, vars, *right, TypeView::Bool);
                    match rr {
                        Err(msg) => (Err(msg), m2),
                        Ok(rv) => (Ok(ValueView::Bool(as_bool(rv))), m2),
                    }
                },
            }
        },
        _ => (Err(Seq::empty()), m),
    }
}

/// `==` and `!=`: the untyped literal side takes the other side's type.
pub open spec fn rt_equality(
    fs: spec_fn(FloatQuery) -> FloatAnswer,
    p: ProgramView,
    fuel: nat,
    m: Machine,
    vars: Vars,
    e: ExprView,
) -> Outcome
    decreases fuel, 0int, e, 8int,
{
    match e {
        ExprView::Binary { left, operator, right } => {
            let flipped = is_untyped(*left) && !is_untyped(*right);
            let (fr, m1) = rt_eval(fs, p, fuel, m, vars, if flipped { *right } else { *left });
            match fr {
                Err(msg) => (Err(msg), m1),
                Ok(first) => {
                    let (sr, m2) = rt_eval_as(
                        fs,
                        p,
                        fuel,
                        m1,
                        vars,
                        if flipped { *left } else { *right },
                        value_type(first),
                    );
                    match sr {
                        Err(msg) => (Err(msg), m2),
                        Ok(second) => {
                            let equal = if flipped {
                                value_eq(fs, second, first)
                            } else {
                                value_eq(fs, first, second)
                            };
                            (Ok(ValueView::Bool(if operator is Equal { equal } else { !equal })), m2)
                        },
                    }
                },
            }
        },
        _ => (Err(Seq::empty()), m),
    }
}

/// A call used as a value.
pub open spec fn rt_call_expression(
    fs: spec_fn(FloatQuery) -> FloatAnswer,
    p: ProgramView,
    fuel: nat,
    m: Machine,
    vars: Vars,
    name: Seq<char>,
    arguments: Seq<ExprView>,
) -> Outcome
    decreases fuel, 0int, arguments, 9int,
{
    if name == "println"@ {
        (Err("function `println` does not return a value"@), m)
    } else if name == "dealloc"@ {
        (Err("function `dealloc` does not return a value"@), m)
    } else if name == "alloc"@ {
        rt_alloc(fs, p, fuel, m, vars, arguments)
    } else if fuel == 0 {
        (Err(budget_message()), m)
    } else {
        let (r, m1) = rt_call_function(fs, p, (fuel - 1) as nat, m, vars, name, arguments);
        match r {
            Err(msg) => (Err(msg), m1),
            Ok(Some(v)) => (Ok(v), m1),
            Ok(None) => (Err("function `"@ + name + "` does not return a value"@), m1),
        }
    }
}

/// A call in statement position.
pub open spec fn rt_call_statement(
    fs: spec_fn(FloatQuery) -> FloatAnswer,
    p: ProgramView,
    fuel: nat,
    m: Machine,
    vars: Vars,
    name: Seq<char>,
    arguments: Seq<ExprView>,
) -> (Result<(), Seq<char>>, Machine)
    decreases fuel, 0int, arguments, 9int,
{
    if name == "println"@ {
        rt_println(fs, p, fuel, m, vars, arguments)
    } else if name == "dealloc"@ {
        rt_dealloc(fs, p, fuel, m, vars, arguments)
    } else if name == "alloc"@ {
        let (r, m1) = rt_alloc(fs, p, fuel, m, vars, arguments);
        match r {
            Err(msg) => (Err(msg), m1),
            Ok(_) => (Ok(()), m1),
        }
    } else if fuel == 0 {
        (Err(budget_message()), m)
    } else {
        let (r, m1) = rt_call_function(fs, p, (fuel - 1) as nat, m, vars, name, arguments);
        match r {
            Err(msg) => (Err(msg), m1),
            Ok(_) => (Ok(()), m1),
        }
    }
}

/// `println(value)`: the value's text and a newline join the output.
pub open spec fn rt_println(
    fs: spec_fn(FloatQuery) -> FloatAnswer,
    p: ProgramView,
    fuel: nat,
    m: Machine,
    vars: Vars,
    arguments: Seq<ExprView>,
) -> (Result<(), Seq<char>>, Machine)
    decreases fuel, 0int, arguments, 8int,
{
    if arguments.len() != 1 {
        (Err("function `println` expects 1 argument"@), m)
    } else {
        let (r, m1) = rt_eval(fs, p, fuel, m, vars, arguments[0]);
        match r {
            Err(msg) => (Err(msg), m1),
            Ok(v) => (Ok(()), Machine { heap: m1.heap, output: m1.output + printable(fs, v) + "\n"@ }),
        }
    }
}

/// `alloc(value)` with the value's own type.
pub open spec fn rt_alloc(
    fs: spec_fn(FloatQuery) -> FloatAnswer,
    p: ProgramView,
    fuel: nat,
    m: Machine,
    vars: Vars,
    arguments: Seq<ExprView>,
) -> Outcome
    decreases fuel, 0int, arguments, 8int,
{
    if arguments.len() != 1 {
        (Err("function `alloc` expects 1 argument"@), m)
    } else {
        let (r, m1) = rt_eval(fs, p, fuel, m, vars, arguments[0]);
        match r {
            Err(msg) => (Err(msg), m1),
            Ok(v) => {
                let (ptr, m2) = allocate(m1, v);
                (Ok(ptr), m2)
            },
        }
    }
}

/// `alloc(value)` where a pointer of type `ty` is wanted.
pub open spec fn rt_alloc_as(
    fs: spec_fn(FloatQuery) -> FloatAnswer,
    p: ProgramView,
    fuel: nat,
    m: Machine,
    vars: Vars,
    arguments: Seq<ExprView>,
    ty: TypeView,
) -> Outcome
    decreases fuel, 0int, arguments, 8int,
{
    match ty {
        TypeView::Pointer(target) => if arguments.len() != 1 {
            (Err("function `alloc` expects 1 argument"@), m)
        } else {
            let (r, m1) = rt_eval_as(fs, p, fuel, m, vars, arguments[0], *target);
            match r {
                Err(msg) => (Err(msg), m1),
                Ok(v) => {
                    let (ptr, m2) = allocate(m1, v);
                    (Ok(ptr), m2)
                },
            }
        },
        _ => (Err("function `alloc` returns a pointer"@), m),
    }
}

/// `dealloc(pointer)`: frees a live heap cell.
pub open spec fn rt_dealloc(
    fs: spec_fn(FloatQuery) -> FloatAnswer,
    p: ProgramView,
    fuel: nat,
    m: Machine,
    vars: Vars,
    arguments: Seq<ExprView>,
) -> (Result<(), Seq<char>>, Machine)
    decreases fuel, 0int, arguments, 8int,
{
    if arguments.len() != 1 {
        (Err("function `dealloc` expects 1 argument"@), m)
    } else {
        let (r, m1) = rt_eval(fs, p, fuel, m, vars, arguments[0]);
        match r {
            Err(msg) => (Err(msg), m1),
            Ok(v) => match v {
                ValueView::Heap { allocation, .. } => if allocation < m1.heap.len()
                    && m1.heap[allocation as int] is Some {
                    (Ok(()), Machine { heap: m1.heap.update(allocation as int, None), output: m1.output })
                } else {
                    (Err("allocation is already freed"@), m1)
                },
                ValueView::Reference(_) => (
                    Err("function `dealloc` expects pointer returned by `alloc`"@),
                    m1,
                ),
                _ => (
                    Err("function `dealloc` expects pointer, found `"@ + value_type(v).name() + "`"@),
                    m1,
                ),
            },
        }
    }
}

/// A struct literal: each given field once and known, then all fields in
/// declaration order.
pub open spec fn rt_struct_literal(
    fs: spec_fn(FloatQuery) -> FloatAnswer,
    p: ProgramView,
    fuel: nat,
    m: Machine,
    vars: Vars,
    name: Seq<char>,
    fields: Seq<FieldInitView>,
) -> Outcome
    decreases fuel, 0int, fields, 9int,
{
    match find_struct(p, name) {
        None => (Err("unknown struct `"@ + name + "`"@), m),
        Some(definition) => {
            let (r, m1) = rt_field_inits(fs, p, fuel, m, vars, name, definition, fields, Seq::empty());
            match r {
                Err(msg) => (Err(msg), m1),
                Ok(given) => match order_fields(name, definition, given, 0, Seq::empty()) {
                    Err(msg) => (Err(msg), m1),
                    Ok(ordered) => (Ok(ValueView::Struct { name, fields: ordered }), m1),
                },
            }
        },
    }
}

/// The given fields of a struct literal, evaluated in the order written.
pub open spec fn rt_field_inits(
    fs: spec_fn(FloatQuery) -> FloatAnswer,
    p: ProgramView,
    fuel: nat,
    m: Machine,
    vars: Vars,
    literal: Seq<char>,
    definition: Seq<BindingView>,
    fields: Seq<FieldInitView>,
    given: Seq<(Seq<char>, ValueView)>,
) -> (Result<Seq<(Seq<char>, ValueView)>, Seq<char>>, Machine)
    decreases fuel, 0int, fields, 8int,
{
    if fields.len() == 0 {
        (Ok(given), m)
    } else {
        let field = fields[0];
        if find_field_value_from(given, field.name, 0) is Some {
            (Err("field `"@ + field.name + "` is already initialized in `"@ + literal + "`"@), m)
        } else {
            match find_binding_from(definition, field.name, 0) {
                None => (Err("unknown field `"@ + field.name + "` in `"@ + literal + "`"@), m),
                Some(ty) => {
                    let (r, m1) = rt_eval_as(fs, p, fuel, m, vars, field.value, ty);
                    match r {
                        Err(msg) => (Err(msg), m1),
                        Ok(v) => rt_field_inits(
                            fs,
                            p,
                            fuel,
                            m1,
                            vars,
                            literal,
                            definition,
                            fields.drop_first(),
                            given.push((field.name, v)),
                        ),
                    }
                },
            }
        }
    }
}

/// The given field values in declaration order, from index `i` on.
pub open spec fn order_fields(
    literal: Seq<char>,
    definition: Seq<BindingView>,
    given: Seq<(Seq<char>, ValueView)>,
    i: nat,
    acc: Seq<(Seq<char>, ValueView)>,
) -> Result<Seq<(Seq<char>, ValueView)>, Seq<char>>
    decreases definition.len() - i,
{
    if i >= definition.len() {
        Ok(acc)
    } else {
        let name = definition[i as int].name;
        match find_field_value_from(given, name, 0) {
            None => Err("missing field `"@ + name + "` in `"@ + literal + "`"@),
            Some(v) => order_fields(literal, definition, given, i + 1, acc.push((name, v))),
        }
    }
}

// ---------------------------------------------------------------------------
// Calls and statements.
// ---------------------------------------------------------------------------

pub open spec fn msg_argument_count(name: Seq<char>, count: nat) -> Seq<char> {
    "function `"@ + name + "` expects "@ + decimal(count) + " argument(s)"@
}

/// A call of a function of the program: the arguments are evaluated in the
/// caller's variables, then the body runs on the parameters.
pub open spec fn rt_call_function(
    fs: spec_fn(FloatQuery) -> FloatAnswer,
    p: ProgramView,
    fuel: nat,
    m: Machine,
    caller: Vars,
    name: Seq<char>,
    arguments: Seq<ExprView>,
) -> (Result<Option<ValueView>, Seq<char>>, Machine)
    decreases fuel, 2int, arguments, 0int,
{
    match find_function(p, name) {
        None => (Err("unknown function `"@ + name + "`"@), m),
        Some(f) => if f.parameters.len() != arguments.len() {
            (Err(msg_argument_count(name, f.parameters.len())), m)
        } else {
            let (r, m1) = rt_arguments(fs, p, fuel, m, caller, f.parameters, arguments, Seq::empty());
            match r {
                Err(msg) => (Err(msg), m1),
                Ok(vars) => {
                    let (b, m2) = rt_statements(fs, p, fuel, m1, vars, f.body, f.return_type);
                    match b {
                        Err(msg) => (Err(msg), m2),
                        Ok(signal) => (function_result(name, f.return_type, signal), m2),
                    }
                },
            }
        },
    }
}

/// What a call returns, once its body ended with `signal`.
pub open spec fn function_result(name: Seq<char>, return_type: Option<TypeView>, signal: Signal) -> Result<
    Option<ValueView>,
    Seq<char>,
> {
    match signal {
        Signal::Break => Err("cannot `break` outside loop"@),
        Signal::Continue => Err("cannot `continue` outside loop"@),
        Signal::Normal => match return_type {
            Some(ty) => Err("function `"@ + name + "` must return `"@ + ty.name() + "`"@),
            None => Ok(None),
        },
        Signal::Return(v) => match return_type {
            Some(_) => Ok(Some(v)),
            None => Err("function `"@ + name + "` cannot return a value"@),
        },
    }
}

/// The arguments of a call, each as its parameter's type, bound to the parameters' names.
pub open spec fn rt_arguments(
    fs: spec_fn(FloatQuery) -> FloatAnswer,
    p: ProgramView,
    fuel: nat,
    m: Machine,
    caller: Vars,
    parameters: Seq<BindingView>,
    arguments: Seq<ExprView>,
    bound: Vars,
) -> (Result<Vars, Seq<char>>, Machine)
    decreases fuel, 0int, arguments, 7int,
{
    if arguments.len() == 0 || parameters.len() == 0 {
        (Ok(bound), m)
    } else {
        let (r, m1) = rt_eval_as(fs, p, fuel, m, caller, arguments[0], parameters[0].ty);
        match r {
            Err(msg) => (Err(msg), m1),
            Ok(v) => rt_arguments(
                fs,
                p,
                fuel,
                m1,
                caller,
                parameters.drop_first(),
                arguments.drop_first(),
                bound.push((parameters[0].name, v)),
            ),
        }
    }
}

/// Statements in order until one ends otherwise than normally.
pub open spec fn rt_statements(
    fs: spec_fn(FloatQuery) -> FloatAnswer,
    p: ProgramView,
    fuel: nat,
    m: Machine,
    vars: Vars,
    statements: Seq<StmtView>,
    return_type: Option<TypeView>,
) -> (Result<Signal, Seq<char>>, Machine)
    decreases fuel, 1int, statements, 0int,
{
    if statements.len() == 0 {
        (Ok(Signal::Normal), m)
    } else {
        let (r, m1) = rt_statement(fs, p, fuel, m, vars, statements[0], return_type);
        match r {
            Err(msg) => (Err(msg), m1),
            Ok((signal, next)) => if signal is Normal {
                rt_statements(fs, p, fuel, m1, next, statements.drop_first(), return_type)
            } else {
                (Ok(signal), m1)
            },
        }
    }
}

/// One statement: how it ends and the variables after it.
pub open spec fn rt_statement(
    fs: spec_fn(FloatQuery) -> FloatAnswer,
    p: ProgramView,
    fuel: nat,
    m: Machine,
    vars: Vars,
    s: StmtView,
    return_type: Option<TypeView>,
) -> (Result<(Signal, Vars), Seq<char>>, Machine)
    decreases fuel, 1int, s, 1int,
{
    match s {
        StmtView::Let { name, ty, value } => {
            let (r, m1) = rt_eval_as(fs, p, fuel, m, vars, value, ty);
            match r {
                Err(msg) => (Err(msg), m1),
                Ok(v) => (Ok((Signal::Normal, vars.push((name, v)))), m1),
            }
        },
        StmtView::Call { name, arguments } => {
            let (r, m1) = rt_call_statement(fs, p, fuel, m, vars, name, arguments);
            match r {
                Err(msg) => (Err(msg), m1),
                Ok(_) => (Ok((Signal::Normal, vars)), m1),
            }
        },
        StmtView::Return(value) => match return_type {
            None => (Err("cannot return a value from function without return type"@), m),
            Some(ty) => {
                let (r, m1) = rt_eval_as(fs, p, fuel, m, vars, value, ty);
                match r {
                    Err(msg) => (Err(msg), m1),
                    Ok(v) => (Ok((Signal::Return(v), vars)), m1),
                }
            },
        },
        StmtView::If { condition, then_block, else_block } => {
            let (r, m1) = rt_eval_as(fs, p, fuel, m, vars, condition, TypeView::Bool);
            match r {
                Err(msg) => (Err(msg), m1),
                Ok(c) => if as_bool(c) {
                    let (b, m2) = rt_statements(fs, p, fuel, m1, vars, then_block, return_type);
                    match b {
                        Err(msg) => (Err(msg), m2),
                        Ok(signal) => (Ok((signal, vars)), m2),
                    }
                } else {
                    match else_block {
                        None => (Ok((Signal::Normal, vars)), m1),
                        Some(block) => {
                            let (b, m2) = rt_statements(fs, p, fuel, m1, vars, block, return_type);
                            match b {
                                Err(msg) => (Err(msg), m2),
                                Ok(signal) => (Ok((signal, vars)), m2),
                            }
                        },
                    }
                },
            }
        },
        StmtView::Loop(body) => {
            let (r, m1) = rt_loop(fs, p, fuel, m, vars, body, return_type);
            match r {
                Err(msg) => (Err(msg), m1),
                Ok(signal) => (Ok((signal, vars)), m1),
            }
        },
        StmtView::While { condition, body } => {
            let (r, m1) = rt_while(fs, p, fuel, m, vars, condition, body, return_type);
            match r {
                Err(msg) => (Err(msg), m1),
                Ok(signal) => (Ok((signal, vars)), m1),
            }
        },
        StmtView::Break => (Ok((Signal::Break, vars)), m),
        StmtView::Continue => (Ok((Signal::Continue, vars)), m),
    }
}

/// `loop { body }`: each iteration takes one unit of the budget.
pub open spec fn rt_loop(
    fs: spec_fn(FloatQuery) -> FloatAnswer,
    p: ProgramView,
    fuel: nat,
    m: Machine,
    vars: Vars,
    body: Seq<StmtView>,
    return_type: Option<TypeView>,
) -> (Result<Signal, Seq<char>>, Machine)
    decreases fuel, 1int, body, 2int,
{
    if fuel == 0 {
        (Err(budget_message()), m)
    } else {
        let (r, m1) = rt_statements(fs, p, (fuel - 1) as nat, m, vars, body, return_type);
        match r {
            Err(msg) => (Err(msg), m1),
            Ok(Signal::Break) => (Ok(Signal::Normal), m1),
            Ok(Signal::Return(v)) => (Ok(Signal::Return(v)), m1),
            Ok(_) => rt_loop(fs, p, (fuel - 1) as nat, m1, vars, body, return_type),
        }
    }
}

/// `while condition { body }`: each iteration takes one unit of the budget.
pub open spec fn rt_while(
    fs: spec_fn(FloatQuery) -> FloatAnswer,
    p: ProgramView,
    fuel: nat,
    m: Machine,
    vars: Vars,
    condition: ExprView,
    body: Seq<StmtView>,
    return_type: Option<TypeView>,
) -> (Result<Signal, Seq<char>>, Machine)
    decreases fuel, 1int, body, 2int,
{
    if fuel == 0 {
        (Err(budget_message()), m)
    } else {
        let (c, m1) = rt_eval_as(fs, p, (fuel - 1) as nat, m, vars, condition, TypeView::Bool);
        match c {
            Err(msg) => (Err(msg), m1),
            Ok(cv) => if !as_bool(cv) {
                (Ok(Signal::Normal), m1)
            } else {
                let (r, m2) = rt_statements(fs, p, (fuel - 1) as nat, m1, vars, body, return_type);
                match r {
                    Err(msg) => (Err(msg), m2),
                    Ok(Signal::Break) => (Ok(Signal::Normal), m2),
                    Ok(Signal::Return(v)) => (Ok(Signal::Return(v)), m2),
                    Ok(_) => rt_while(fs, p, (fuel - 1) as nat, m2, vars, condition, body, return_type),
                }
            },
        }
    }
}

// ---------------------------------------------------------------------------
// Checks before a run, and the run.
// ---------------------------------------------------------------------------

/// The declared types of `let` statements, nested blocks included.
pub open spec fn rt_validate_statement(env: CheckedProgramView, s: StmtView) -> Result<(), Seq<char>>
    decreases s, 1int,
{
    match s {
        StmtView::Let { ty, .. } => tc_declared(env, ty),
        StmtView::If { then_block, else_block, .. } => match rt_validate_statements(env, then_block) {
            Err(msg) => Err(msg),
            Ok(_) => match else_block {
                Some(block) => rt_validate_statements(env, block),
                None => Ok(()),
            },
        },
        StmtView::Loop(body) => rt_validate_statements(env, body),
        StmtView::While { body, .. } => rt_validate_statements(env, body),
        _ => Ok(()),
    }
}

pub open spec fn rt_validate_statements(env: CheckedProgramView, statements: Seq<StmtView>) -> Result<(), Seq<char>>
    decreases statements, 0int,
{
    if statements.len() == 0 {
        Ok(())
    } else {
        match rt_validate_statement(env, statements[0]) {
            Err(msg) => Err(msg),
            Ok(_) => rt_validate_statements(env, statements.drop_first()),
        }
    }
}

/// The declared types of a function: parameters from index `i` on, the
/// return type, and its statements.
pub open spec fn rt_validate_function(env: CheckedProgramView, f: FunctionView, i: nat) -> Result<(), Seq<char>>
    decreases f.parameters.len() - i,
{
    if i < f.parameters.len() {
        match tc_declared(env, f.parameters[i as int].ty) {
            Err(msg) => Err(msg),
            Ok(_) => rt_validate_function(env, f, i + 1),
        }
    } else {
        let declared = match f.return_type {
            Some(ty) => tc_declared(env, ty),
            None => Ok(()),
        };
        match declared {
            Err(msg) => Err(msg),
            Ok(_) => rt_validate_statements(env, f.body),
        }
    }
}

pub open spec fn rt_validate_functions(env: CheckedProgramView, functions: Seq<FunctionView>, i: nat) -> Result<
    (),
    Seq<char>,
>
    decreases functions.len() - i,
{
    if i >= functions.len() {
        Ok(())
    } else {
        match rt_validate_function(env, functions[i as int], 0) {
            Err(msg) => Err(msg),
            Ok(_) => rt_validate_functions(env, functions, i + 1),
        }
    }
}

/// The checks made before a run: names of structs and functions, and every
/// declared type.
pub open spec fn rt_prepare(p: ProgramView) -> Result<(), Seq<char>> {
    match tc_collect_structs(p.structs, 0, Seq::empty()) {
        Err(msg) => Err(msg),
        Ok(structs) => match tc_collect_functions(p.functions, 0, Seq::empty()) {
            Err(msg) => Err(msg),
            Ok(functions) => {
                let env = CheckedProgramView { structs, functions };
                match tc_struct_field_types(env, p.structs, 0, 0) {
                    Err(msg) => Err(msg),
                    Ok(_) => rt_validate_functions(env, p.functions, 0),
                }
            },
        },
    }
}

/// What running `main` prints, or the error that stopped it.
pub open spec fn spec_run_main(fs: spec_fn(FloatQuery) -> FloatAnswer, p: ProgramView, budget: nat) -> Result<
    Seq<char>,
    Seq<char>,
> {
    match rt_prepare(p) {
        Err(msg) => Err(msg),
        Ok(_) => if find_function(p, "main"@) is None {
            Err("function `main` not found"@)
        } else {
            let (r, m) = rt_call_function(
                fs,
                p,
                budget,
                Machine { heap: Seq::empty(), output: Seq::empty() },
                Seq::empty(),
                "main"@,
                Seq::empty(),
            );
            match r {
                Err(msg) => Err(msg),
                Ok(_) => Ok(m.output),
            }
        },
    }
}


// ---------------------------------------------------------------------------
// The interpreter.
// ---------------------------------------------------------------------------

pub open spec fn vars_view(vars: Seq<(String, Value)>) -> Vars {
    vars.map_values(|e: (String, Value)| (e.0@, e.1@))
}

pub proof fn lemma_field_values_map(fs: Seq<(String, Value)>)
    ensures
        field_values_view(fs) == vars_view(fs),
{
    lemma_field_values_view(fs);
    assert(field_values_view(fs) =~= vars_view(fs));
}

pub open spec fn cell_view(c: Option<Value>) -> Option<ValueView> {
    match c {
        Some(v) => Some(v@),
        None => None,
    }
}

/// The mutable part of a run: heap cells and printed text.
pub struct Runtime {
    pub heap: Vec<Option<Value>>,
    pub output: String,
}

impl View for Runtime {
    type V = Machine;

    open spec fn view(&self) -> Machine {
        Machine { heap: self.heap@.map_values(|c: Option<Value>| cell_view(c)), output: self.output@ }
    }
}

/// How a statement ended.
#[derive(Debug, PartialEq, Eq)]
pub enum ExecutionSignal {
    Normal,
    Return(Value),
    Break,
    Continue,
}

impl View for ExecutionSignal {
    type V = Signal;

    open spec fn view(&self) -> Signal {
        match self {
            ExecutionSignal::Normal => Signal::Normal,
            ExecutionSignal::Return(v) => Signal::Return(v@),
            ExecutionSignal::Break => Signal::Break,
            ExecutionSignal::Continue => Signal::Continue,
        }
    }
}

pub open spec fn value_result(r: Result<Value, RuntimeError>) -> Result<ValueView, Seq<char>> {
    match r {
        Ok(v) => Ok(v@),
        Err(e) => Err(e@),
    }
}

pub open spec fn unit_result(r: Result<(), RuntimeError>) -> Result<(), Seq<char>> {
    match r {
        Ok(_) => Ok(()),
        Err(e) => Err(e@),
    }
}

pub open spec fn signal_result(r: Result<ExecutionSignal, RuntimeError>) -> Result<Signal, Seq<char>> {
    match r {
        Ok(s) => Ok(s@),
        Err(e) => Err(e@),
    }
}

pub open spec fn returned_result(r: Result<Option<Value>, RuntimeError>) -> Result<Option<ValueView>, Seq<char>> {
    match r {
        Ok(Some(v)) => Ok(Some(v@)),
        Ok(None) => Ok(None),
        Err(e) => Err(e@),
    }
}

pub open spec fn optional_type_view(t: Option<&Type>) -> Option<TypeView> {
    match t {
        Some(t) => Some(t@),
        None => None,
    }
}

fn runtime_error(message: String) -> (e: RuntimeError)
    ensures
        e@ == message@,
{
    RuntimeError { message }
}

fn error_str(message: &str) -> (e: RuntimeError)
    ensures
        e@ == message@,
{
    RuntimeError { message: String::from_str(message) }
}

/// Puts a question to the float handler.
pub(crate) fn ask_floats<F: Fn(FloatRequest) -> FloatReply>(floats: &F, request: FloatRequest) -> (r: FloatReply)
    requires
        float_handler(*floats),
    ensures
        r@ == float_semantics(*floats)(request@),
{
    let ghost q = request@;
    let ghost asked = request;
    let r = floats(request);
    proof {
        assert(call_ensures(*floats, (asked,), r));
        assert(answers(*floats, q, r@));
        let a = float_answer(*floats, q);
        assert(answers(*floats, q, a));
        let (w, x) = choose|w: FloatRequest, x: FloatReply| w@ == q && x@ == a && #[trigger] call_ensures(*floats, (w,), x);
        assert(call_ensures(*floats, (w,), x));
    }
    r
}

fn parse_float<F: Fn(FloatRequest) -> FloatReply>(floats: &F, text: &String) -> (r: Option<u64>)
    requires
        float_handler(*floats),
    ensures
        r == float_parse(float_semantics(*floats), text@),
{
    match ask_floats(floats, FloatRequest::Parse(text.clone())) {
        FloatReply::Bits(b) => Some(b),
        _ => None,
    }
}

fn float_bits_of(reply: FloatReply) -> (b: u64)
    ensures
        b == float_bits(reply@),
{
    match reply {
        FloatReply::Bits(b) => b,
        _ => 0,
    }
}

fn floats_equal<F: Fn(FloatRequest) -> FloatReply>(floats: &F, x: u64, y: u64) -> (r: bool)
    requires
        float_handler(*floats),
    ensures
        r == float_equal(float_semantics(*floats), x, y),
{
    match ask_floats(floats, FloatRequest::Equal(x, y)) {
        FloatReply::Truth(t) => t,
        _ => false,
    }
}

fn float_to_text<F: Fn(FloatRequest) -> FloatReply>(floats: &F, x: u64) -> (r: String)
    requires
        float_handler(*floats),
    ensures
        r@ == float_text(float_semantics(*floats), x),
{
    match ask_floats(floats, FloatRequest::Print(x)) {
        FloatReply::Text(t) => t,
        _ => String::new(),
    }
}

/// The type of a value.
fn type_of(v: &Value) -> (t: Type)
    ensures
        t@ == value_type(v@),
    decreases v,
{
    match v {
        Value::Integer { ty, .. } => ty.duplicate(),
        Value::Float { ty, .. } => ty.duplicate(),
        Value::Bool(_) => Type::Bool,
        Value::Struct { name, .. } => Type::Struct(name.clone()),
        Value::Pointer(PointerValue::Reference(inner)) => Type::Pointer(Box::new(type_of(inner))),
        Value::Pointer(PointerValue::Heap { ty, .. }) => Type::Pointer(Box::new(ty.duplicate())),
    }
}

/// A copy of a value with the same model.
#[verifier::loop_isolation(false)]
fn copy_value(v: &Value) -> (r: Value)
    ensures
        r@ == v@,
    decreases v,
{
    match v {
        Value::Integer { value, ty } => Value::Integer { value: *value, ty: ty.duplicate() },
        Value::Float { bits, ty } => Value::Float { bits: *bits, ty: ty.duplicate() },
        Value::Bool(b) => Value::Bool(*b),
        Value::Struct { name, fields } => {
            let mut copied: Vec<(String, Value)> = Vec::new();
            let mut i: usize = 0;
            while i < fields.len()
                invariant
                    i <= fields@.len(),
                    copied@.len() == i,
                    forall|k: int| 0 <= k < i ==> #[trigger] copied@[k].0@ == fields@[k].0@ && copied@[k].1@
                        == fields@[k].1@,
                decreases fields@.len() - i,
            {
                proof {
                    assert(decreases_to!(*v => *fields));
                    assert(decreases_to!(*fields => fields@));
                    assert(decreases_to!(fields@ => fields@[i as int]));
                    assert(decreases_to!(fields@[i as int] => fields@[i as int].1));
                }
                let c = copy_value(&fields[i].1);
                copied.push((fields[i].0.clone(), c));
                i = i + 1;
            }
            proof {
                lemma_field_values_map(copied@);
                lemma_field_values_map(fields@);
                assert(vars_view(copied@) =~= vars_view(fields@));
            }
            Value::Struct { name: name.clone(), fields: copied }
        },
        Value::Pointer(PointerValue::Reference(inner)) => Value::Pointer(
            PointerValue::Reference(Box::new(copy_value(inner))),
        ),
        Value::Pointer(PointerValue::Heap { allocation, ty }) => Value::Pointer(
            PointerValue::Heap { allocation: *allocation, ty: ty.duplicate() },
        ),
    }
}

/// The language's `==` on two values.
#[verifier::loop_isolation(false)]
fn values_equal<F: Fn(FloatRequest) -> FloatReply>(floats: &F, a: &Value, b: &Value) -> (r: bool)
    requires
        float_handler(*floats),
    ensures
        r == value_eq(float_semantics(*floats), a@, b@),
    decreases a,
{
    match (a, b) {
        (Value::Integer { value: x, ty: t }, Value::Integer { value: y, ty: u }) => *x == *y && type_eq(t, u),
        (Value::Float { bits: x, ty: t }, Value::Float { bits: y, ty: u }) => {
            let same = floats_equal(floats, *x, *y);
            same && type_eq(t, u)
        },
        (Value::Bool(x), Value::Bool(y)) => *x == *y,
        (Value::Struct { name: n, fields: f }, Value::Struct { name: k, fields: g }) => {
            if *n != *k {
                return false;
            }
            let ghost fs = float_semantics(*floats);
            let ghost fv = vars_view(f@);
            let ghost gv = vars_view(g@);
            proof {
                lemma_field_values_map(f@);
                lemma_field_values_map(g@);
            }
            if f.len() != g.len() {
                assert(a@ == ValueView::Struct { name: n@, fields: field_values_view(f@) });
                assert(b@ == ValueView::Struct { name: k@, fields: field_values_view(g@) });
                assert(fv.len() != gv.len());
                assert(!fields_eq(fs, fv, gv));
                return false;
            }
            proof {
                assert(fv.skip(0) =~= fv);
                assert(gv.skip(0) =~= gv);
            }
            let mut i: usize = 0;
            while i < f.len()
                invariant
                    i <= f@.len() == g@.len(),
                    float_handler(*floats),
                    fs == float_semantics(*floats),
                    fv == vars_view(f@),
                    gv == vars_view(g@),
                    fields_eq(fs, fv, gv) == fields_eq(fs, fv.skip(i as int), gv.skip(i as int)),
                decreases f@.len() - i,
            {
                proof {
                    assert(fv.skip(i as int)[0] == fv[i as int]);
                    assert(gv.skip(i as int)[0] == gv[i as int]);
                    assert(fv.skip(i as int).drop_first() =~= fv.skip(i + 1));
                    assert(gv.skip(i as int).drop_first() =~= gv.skip(i + 1));
                    assert(decreases_to!(*a => *f));
                    assert(decreases_to!(*f => f@));
                    assert(decreases_to!(f@ => f@[i as int]));
                    assert(decreases_to!(f@[i as int] => f@[i as int].1));
                }
                if f[i].0 != g[i].0 {
                    return false;
                }
                if !values_equal(floats, &f[i].1, &g[i].1) {
                    return false;
                }
                i = i + 1;
            }
            proof {
                assert(fv.skip(i as int) =~= Seq::<(Seq<char>, ValueView)>::empty());
                assert(gv.skip(i as int) =~= Seq::<(Seq<char>, ValueView)>::empty());
            }
            true
        },
        (Value::Pointer(PointerValue::Reference(x)), Value::Pointer(PointerValue::Reference(y))) => values_equal(
            floats,
            x,
            y,
        ),
        (
            Value::Pointer(PointerValue::Heap { allocation: x, ty: t }),
            Value::Pointer(PointerValue::Heap { allocation: y, ty: u }),
        ) => *x == *y && type_eq(t, u),
        _ => false,
    }
}

fn integer_to_text(v: &IntegerValue) -> (r: String)
    ensures
        r@ == integer_text(*v),
{
    match v {
        IntegerValue::Signed(x) => i128_to_string(*x),
        IntegerValue::Unsigned(x) => u128_to_string(*x),
    }
}

/// How `println` shows a value.
#[verifier::loop_isolation(false)]
fn printable_text<F: Fn(FloatRequest) -> FloatReply>(floats: &F, v: &Value) -> (r: String)
    requires
        float_handler(*floats),
    ensures
        r@ == printable(float_semantics(*floats), v@),
    decreases v,
{
    match v {
        Value::Integer { value, .. } => integer_to_text(value),
        Value::Float { bits, .. } => float_to_text(floats, *bits),
        Value::Bool(b) => {
            if *b {
                String::from_str("true")
            } else {
                String::from_str("false")
            }
        },
        Value::Struct { name, fields } => {
            let ghost fs = float_semantics(*floats);
            let ghost fv = vars_view(fields@);
            proof {
                lemma_field_values_map(fields@);
            }
            let mut joined = String::new();
            let mut i: usize = fields.len();
            proof {
                assert(fv.skip(i as int) =~= Seq::<(Seq<char>, ValueView)>::empty());
            }
            while i > 0
                invariant
                    i <= fields@.len(),
                    float_handler(*floats),
                    fs == float_semantics(*floats),
                    fv == vars_view(fields@),
                    joined@ == fields_printable(fs, fv.skip(i as int)),
                decreases i,
            {
                let k = i - 1;
                proof {
                    assert(decreases_to!(*v => *fields));
                    assert(decreases_to!(*fields => fields@));
                    assert(decreases_to!(fields@ => fields@[k as int]));
                    assert(decreases_to!(fields@[k as int] => fields@[k as int].1));
                }
                let text = printable_text(floats, &fields[k].1);
                let mut piece = concat3(fields[k].0.as_str(), ": ", text.as_str());
                proof {
                    assert(fv.skip(k as int)[0] == fv[k as int]);
                    assert(fv.skip(k as int).drop_first() =~= fv.skip(i as int));
                }
                if i < fields.len() {
                    piece.append(", ");
                    piece.append(joined.as_str());
                }
                joined = piece;
                i = k;
            }
            proof {
                assert(fv.skip(0) =~= fv);
            }
            let mut text = concat3(name.as_str(), " { ", joined.as_str());
            text.append(" }");
            text
        },
        Value::Pointer(PointerValue::Reference(inner)) => {
            let text = printable_text(floats, inner);
            concat("&", text.as_str())
        },
        Value::Pointer(PointerValue::Heap { allocation, ty }) => {
            let n = ty.name();
            let a = usize_to_string(*allocation);
            let mut text = concat3("&", n.as_str(), "#");
            text.append(a.as_str());
            text
        },
    }
}

fn expect_value_type(v: Value, ty: &Type) -> (r: Result<Value, RuntimeError>)
    ensures
        value_result(r) == expect_value(v@, ty@),
{
    let actual = type_of(&v);
    if type_eq(&actual, ty) {
        Ok(v)
    } else {
        let a = actual.name();
        let b = ty.name();
        Err(runtime_error(concat5("cannot use `", a.as_str(), "` value as `", b.as_str(), "`")))
    }
}

fn integer_literal_value(value: u128, ty: &Type) -> (r: Result<Value, RuntimeError>)
    ensures
        value_result(r) == integer_literal(value, ty@),
{
    let name = ty.name();
    if !ty.is_integer() {
        return Err(runtime_error(concat3("cannot assign integer literal to `", name.as_str(), "`")));
    }
    let max = match ty.max_integer_value() {
        Some(m) => m,
        None => u128::MAX,
    };
    if value > max {
        let digits = u128_to_string(value);
        return Err(
            runtime_error(
                concat5("integer literal `", digits.as_str(), "` does not fit in `", name.as_str(), "`"),
            ),
        );
    }
    let v = if ty.is_signed_integer() {
        IntegerValue::Signed(value as i128)
    } else {
        IntegerValue::Unsigned(value)
    };
    Ok(Value::Integer { value: v, ty: ty.duplicate() })
}

fn float_literal_value<F: Fn(FloatRequest) -> FloatReply>(floats: &F, text: &String, ty: &Type) -> (r: Result<
    Value,
    RuntimeError,
>)
    requires
        float_handler(*floats),
    ensures
        value_result(r) == float_literal(float_semantics(*floats), text@, ty@),
{
    if !ty.is_float() {
        let name = ty.name();
        return Err(runtime_error(concat3("cannot assign float literal to `", name.as_str(), "`")));
    }
    match parse_float(floats, text) {
        None => Err(runtime_error(concat3("float literal `", text.as_str(), "` is invalid"))),
        Some(bits) => Ok(Value::Float { bits, ty: ty.duplicate() }),
    }
}

fn bool_of(v: &Value) -> (b: bool)
    ensures
        b == as_bool(v@),
{
    match v {
        Value::Bool(b) => *b,
        _ => false,
    }
}

fn operator_message(name: &str, ty: &Type) -> (e: RuntimeError)
    ensures
        e@ == msg_operator(name@, ty@),
{
    let n = ty.name();
    runtime_error(concat5("operator `", name, "` cannot be used with `", n.as_str(), "`"))
}

fn ensure_integer_operator_on(name: &str, ty: &Type) -> (r: Result<(), RuntimeError>)
    ensures
        unit_result(r) == ensure_integer_operator(name@, ty@),
{
    if ty.is_integer() {
        Ok(())
    } else {
        Err(operator_message(name, ty))
    }
}

fn ensure_binary_operator(op: BinaryOperator, ty: &Type) -> (r: Result<(), RuntimeError>)
    ensures
        unit_result(r) == ensure_operator(op, ty@),
{
    let symbol = op.symbol();
    if op.is_bitwise() {
        return ensure_integer_operator_on(symbol.as_str(), ty);
    }
    if ty.is_integer() || ty.is_float() {
        Ok(())
    } else {
        Err(operator_message(symbol.as_str(), ty))
    }
}

fn overflow_error(ty: &Type) -> (e: RuntimeError)
    ensures
        e@ == msg_overflow(ty@),
{
    let n = ty.name();
    runtime_error(concat3("operation result does not fit in `", n.as_str(), "`"))
}

fn signed_of(v: &IntegerValue) -> (x: i128)
    ensures
        x == signed_integer(*v),
{
    match v {
        IntegerValue::Signed(x) => *x,
        IntegerValue::Unsigned(x) => *x as i128,
    }
}

fn unsigned_of(v: &IntegerValue) -> (x: u128)
    ensures
        x == unsigned_integer(*v),
{
    match v {
        IntegerValue::Signed(x) => *x as u128,
        IntegerValue::Unsigned(x) => *x,
    }
}

fn integer_arithmetic_value(op: BinaryOperator, l: &IntegerValue, r: &IntegerValue, ty: &Type) -> (res: Result<
    Value,
    RuntimeError,
>)
    requires
        ty@.is_integer(),
    ensures
        value_result(res) == integer_arithmetic(op, *l, *r, ty@),
{
    let max = match ty.max_integer_value() {
        Some(m) => m,
        None => 0,
    };
    let min = ty.min_integer_value();
    if !(op == BinaryOperator::Add || op == BinaryOperator::Subtract || op == BinaryOperator::Multiply
        || op == BinaryOperator::Divide) {
        let symbol = op.symbol();
        return Err(operator_message(symbol.as_str(), ty));
    }
    if ty.is_signed_integer() {
        let x = signed_of(l);
        let y = signed_of(r);
        if op == BinaryOperator::Divide && y == 0 {
            return Err(error_str("division by zero"));
        }
        let result = match op {
            BinaryOperator::Add => x.checked_add(y),
            BinaryOperator::Subtract => x.checked_sub(y),
            BinaryOperator::Multiply => x.checked_mul(y),
            _ => x.checked_div(y),
        };
        match result {
            None => Err(overflow_error(ty)),
            Some(v) => {
                if v < min || (v >= 0 && v as u128 > max) {
                    Err(overflow_error(ty))
                } else {
                    Ok(Value::Integer { value: IntegerValue::Signed(v), ty: ty.duplicate() })
                }
            },
        }
    } else {
        let x = unsigned_of(l);
        let y = unsigned_of(r);
        if op == BinaryOperator::Divide && y == 0 {
            return Err(error_str("division by zero"));
        }
        let result = match op {
            BinaryOperator::Add => x.checked_add(y),
            BinaryOperator::Subtract => x.checked_sub(y),
            BinaryOperator::Multiply => x.checked_mul(y),
            _ => x.checked_div(y),
        };
        match result {
            None => Err(overflow_error(ty)),
            Some(v) => {
                if v > max {
                    Err(overflow_error(ty))
                } else {
                    Ok(Value::Integer { value: IntegerValue::Unsigned(v), ty: ty.duplicate() })
                }
            },
        }
    }
}

fn low_mask_of(bits: u32) -> (m: u128)
    requires
        bits <= 128,
    ensures
        m == low_mask(bits),
{
    if bits >= 128 {
        u128::MAX
    } else {
        assert(1u128 << bits >= 1) by (bit_vector)
            requires
                bits < 128,
        ;
        (1u128 << bits) - 1
    }
}

fn to_bits_of(v: i128, bits: u32) -> (r: u128)
    requires
        bits <= 128,
    ensures
        r == to_bits(v, bits),
{
    (v as u128) & low_mask_of(bits)
}

pub open spec fn supported_width(bits: u32) -> bool {
    bits == 8 || bits == 16 || bits == 32 || bits == 64 || bits == 128
}

fn from_bits_of(x: u128, bits: u32) -> (r: i128)
    requires
        supported_width(bits),
    ensures
        r == from_bits(x, bits),
{
    let m = low_mask_of(bits);
    let v = x & m;
    if bits >= 128 {
        return v as i128;
    }
    let sign = 1u128 << (bits - 1);
    if v & sign == 0 {
        v as i128
    } else {
        assert(m == ((1u128 << bits) - 1) as u128);
        assert(v < (1u128 << bits) && (1u128 << bits) <= 0x1_0000_0000_0000_0000u128) by (bit_vector)
            requires
                v == x & m,
                m == ((1u128 << bits) - 1) as u128,
                bits <= 64,
        ;
        assert((1i128 << bits) == (1u128 << bits) as i128) by (bit_vector)
            requires
                bits <= 64,
        ;
        (v as i128) - (1i128 << bits)
    }
}

fn signed_shift(y: i128, bits: u32, ty: &Type) -> (r: Result<u32, RuntimeError>)
    requires
        bits <= 128,
    ensures
        match r {
            Ok(s) => shift_amount(y as int, bits, ty@) == Ok::<u32, Seq<char>>(s) && s < bits,
            Err(e) => shift_amount(y as int, bits, ty@) == Err::<u32, Seq<char>>(e@),
        },
{
    if y < 0 {
        return Err(error_str("shift amount cannot be negative"));
    }
    unsigned_shift(y as u128, bits, ty)
}

fn unsigned_shift(y: u128, bits: u32, ty: &Type) -> (r: Result<u32, RuntimeError>)
    requires
        bits <= 128,
    ensures
        match r {
            Ok(s) => shift_amount(y as int, bits, ty@) == Ok::<u32, Seq<char>>(s) && s < bits,
            Err(e) => shift_amount(y as int, bits, ty@) == Err::<u32, Seq<char>>(e@),
        },
{
    if y >= bits as u128 {
        let n = ty.name();
        return Err(runtime_error(concat3("shift amount must be less than bit width of `", n.as_str(), "`")));
    }
    Ok(y as u32)
}

fn width_of(ty: &Type) -> (bits: u32)
    requires
        ty@.is_integer(),
    ensures
        Some(bits) == ty@.integer_bits(),
        supported_width(bits),
{
    match ty.integer_bits() {
        Some(b) => b,
        None => 128,
    }
}

fn integer_bitwise_value(op: BinaryOperator, l: &IntegerValue, r: &IntegerValue, ty: &Type) -> (res: Result<
    Value,
    RuntimeError,
>)
    requires
        ty@.is_integer(),
    ensures
        value_result(res) == integer_bitwise(op, *l, *r, ty@),
{
    let bits = width_of(ty);
    let shifting = op == BinaryOperator::ShiftLeft || op == BinaryOperator::ShiftRight;
    if ty.is_signed_integer() {
        let x = signed_of(l);
        let y = signed_of(r);
        let shift = if shifting {
            signed_shift(y, bits, ty)?
        } else {
            0
        };
        let value: i128 = match op {
            BinaryOperator::BitAnd => from_bits_of(to_bits_of(x, bits) & to_bits_of(y, bits), bits),
            BinaryOperator::BitOr => from_bits_of(to_bits_of(x, bits) | to_bits_of(y, bits), bits),
            BinaryOperator::BitXor => from_bits_of(to_bits_of(x, bits) ^ to_bits_of(y, bits), bits),
            BinaryOperator::ShiftLeft => from_bits_of((to_bits_of(x, bits) << shift) & low_mask_of(bits), bits),
            _ => x >> shift,
        };
        Ok(Value::Integer { value: IntegerValue::Signed(value), ty: ty.duplicate() })
    } else {
        let x = unsigned_of(l);
        let y = unsigned_of(r);
        let shift = if shifting {
            unsigned_shift(y, bits, ty)?
        } else {
            0
        };
        let value: u128 = match op {
            BinaryOperator::BitAnd => x & y,
            BinaryOperator::BitOr => x | y,
            BinaryOperator::BitXor => x ^ y,
            BinaryOperator::ShiftLeft => (x << shift) & low_mask_of(bits),
            _ => x >> shift,
        };
        Ok(Value::Integer { value: IntegerValue::Unsigned(value & low_mask_of(bits)), ty: ty.duplicate() })
    }
}

fn float_arithmetic_value<F: Fn(FloatRequest) -> FloatReply>(
    floats: &F,
    op: BinaryOperator,
    l: u64,
    r: u64,
    ty: &Type,
) -> (res: Result<Value, RuntimeError>)
    requires
        float_handler(*floats),
    ensures
        value_result(res) == float_arithmetic(float_semantics(*floats), op, l, r, ty@),
{
    if op == BinaryOperator::Divide && floats_equal(floats, r, 0) {
        return Err(error_str("division by zero"));
    }
    let request = match op {
        BinaryOperator::Add => FloatRequest::Add(l, r),
        BinaryOperator::Subtract => FloatRequest::Subtract(l, r),
        BinaryOperator::Multiply => FloatRequest::Multiply(l, r),
        BinaryOperator::Divide => FloatRequest::Divide(l, r),
        _ => {
            let symbol = op.symbol();
            return Err(operator_message(symbol.as_str(), ty));
        },
    };
    let bits = float_bits_of(ask_floats(floats, request));
    Ok(Value::Float { bits, ty: ty.duplicate() })
}

/// A binary operator other than `&& || == !=` on two values.
fn apply_binary_value<F: Fn(FloatRequest) -> FloatReply>(
    floats: &F,
    l: Value,
    op: BinaryOperator,
    r: Value,
) -> (res: Result<Value, RuntimeError>)
    requires
        float_handler(*floats),
    ensures
        value_result(res) == apply_binary(float_semantics(*floats), l@, op, r@),
{
    let ty = type_of(&l);
    let other = type_of(&r);
    let symbol = op.symbol();
    if !type_eq(&other, &ty) {
        let a = ty.name();
        let b = other.name();
        let mut message = concat5("operator `", symbol.as_str(), "` expects matching types, found `", a.as_str(), "` and `");
        message.append(b.as_str());
        message.append("`");
        return Err(runtime_error(message));
    }
    if ty.is_integer() {
        match (&l, &r) {
            (Value::Integer { value: x, .. }, Value::Integer { value: y, .. }) => {
                if op.is_bitwise() {
                    integer_bitwise_value(op, x, y, &ty)
                } else {
                    integer_arithmetic_value(op, x, y, &ty)
                }
            },
            _ => Err(operator_message(symbol.as_str(), &ty)),
        }
    } else if ty.is_float() {
        match (&l, &r) {
            (Value::Float { bits: x, .. }, Value::Float { bits: y, .. }) => float_arithmetic_value(floats, op, *x, *y, &ty),
            _ => Err(operator_message(symbol.as_str(), &ty)),
        }
    } else {
        Err(operator_message(symbol.as_str(), &ty))
    }
}

/// `!` on a value.
fn apply_not_value(v: Value) -> (res: Result<Value, RuntimeError>)
    ensures
        value_result(res) == apply_not(v@),
{
    let ty = type_of(&v);
    if ty.is_bool() {
        return Ok(Value::Bool(!bool_of(&v)));
    }
    if !ty.is_integer() {
        return Err(operator_message("!", &ty));
    }
    match &v {
        Value::Integer { value, ty: t } => {
            let bits = width_of(t);
            if t.is_signed_integer() {
                let x = signed_of(value);
                let flipped = from_bits_of(!to_bits_of(x, bits) & low_mask_of(bits), bits);
                Ok(Value::Integer { value: IntegerValue::Signed(flipped), ty: t.duplicate() })
            } else {
                let x = unsigned_of(value);
                Ok(Value::Integer { value: IntegerValue::Unsigned(!x & low_mask_of(bits)), ty: t.duplicate() })
            }
        },
        _ => Err(operator_message("!", &ty)),
    }
}

/// The value of the latest binding of a name.
fn lookup_variable(vars: &Vec<(String, Value)>, name: &String) -> (r: Result<Value, RuntimeError>)
    ensures
        value_result(r) == match lookup_var(vars_view(vars@), name@) {
            Some(v) => Ok(v),
            None => Err("variable `"@ + name@ + "` not found"@),
        },
{
    let mut k: usize = vars.len();
    while k > 0
        invariant
            k <= vars@.len(),
            lookup_var(vars_view(vars@), name@) == lookup_var_in(vars_view(vars@), name@, k as nat),
        decreases k,
    {
        if vars[k - 1].0 == *name {
            return Ok(copy_value(&vars[k - 1].1));
        }
        k = k - 1;
    }
    Err(runtime_error(concat3("variable `", name.as_str(), "` not found")))
}

pub(crate) fn function_named<'a>(program: &'a Program, name: &String) -> (r: Option<&'a Function>)
    ensures
        match r {
            Some(f) => find_function(program@, name@) == Some(f@),
            None => find_function(program@, name@) is None,
        },
{
    let mut i: usize = 0;
    while i < program.functions.len()
        invariant
            i <= program.functions@.len(),
            find_function(program@, name@) == find_function_from(program@.functions, name@, i as nat),
        decreases program.functions@.len() - i,
    {
        if program.functions[i].name == *name {
            return Some(&program.functions[i]);
        }
        i = i + 1;
    }
    None
}

fn struct_fields_named<'a>(program: &'a Program, name: &String) -> (r: Option<&'a Vec<StructField>>)
    ensures
        match r {
            Some(fields) => find_struct(program@, name@) == Some(fields@.map_values(|f: StructField| f@)),
            None => find_struct(program@, name@) is None,
        },
{
    let mut i: usize = 0;
    while i < program.structs.len()
        invariant
            i <= program.structs@.len(),
            find_struct(program@, name@) == find_struct_from(program@.structs, name@, i as nat),
        decreases program.structs@.len() - i,
    {
        if program.structs[i].name == *name {
            return Some(&program.structs[i].fields);
        }
        i = i + 1;
    }
    None
}

fn find_field_index(fields: &Vec<(String, Value)>, name: &String) -> (r: Option<usize>)
    ensures
        match r {
            Some(i) => i < fields@.len() && find_field_value_from(vars_view(fields@), name@, 0) == Some(
                fields@[i as int].1@,
            ),
            None => find_field_value_from(vars_view(fields@), name@, 0) is None,
        },
{
    let mut i: usize = 0;
    while i < fields.len()
        invariant
            i <= fields@.len(),
            find_field_value_from(vars_view(fields@), name@, 0) == find_field_value_from(
                vars_view(fields@),
                name@,
                i as nat,
            ),
        decreases fields@.len() - i,
    {
        if fields[i].0 == *name {
            return Some(i);
        }
        i = i + 1;
    }
    None
}

fn find_field_type<'a>(definition: &'a Vec<StructField>, name: &String) -> (r: Option<&'a Type>)
    ensures
        match r {
            Some(t) => find_binding_from(definition@.map_values(|f: StructField| f@), name@, 0) == Some(t@),
            None => find_binding_from(definition@.map_values(|f: StructField| f@), name@, 0) is None,
        },
{
    let ghost defs = definition@.map_values(|f: StructField| f@);
    let mut i: usize = 0;
    while i < definition.len()
        invariant
            i <= definition@.len(),
            defs == definition@.map_values(|f: StructField| f@),
            find_binding_from(defs, name@, 0) == find_binding_from(defs, name@, i as nat),
        decreases definition@.len() - i,
    {
        if definition[i].name == *name {
            return Some(&definition[i].ty);
        }
        i = i + 1;
    }
    None
}

/// A field of a struct value.
fn field_of_value(v: &Value, field: &String) -> (r: Result<Value, RuntimeError>)
    ensures
        value_result(r) == field_of(v@, field@),
{
    match v {
        Value::Struct { name, fields } => {
            proof {
                lemma_field_values_map(fields@);
            }
            match find_field_index(fields, field) {
                Some(i) => Ok(copy_value(&fields[i].1)),
                None => Err(runtime_error(concat5("unknown field `", field.as_str(), "` in `", name.as_str(), "`"))),
            }
        },
        _ => {
            let t = type_of(v);
            let n = t.name();
            Err(runtime_error(concat5("cannot access field `", field.as_str(), "` on `", n.as_str(), "`")))
        },
    }
}

fn is_untyped_expression(e: &Expression) -> (r: bool)
    ensures
        r == is_untyped(e@),
{
    match e {
        Expression::Integer(_) | Expression::Float(_) => true,
        _ => false,
    }
}

/// The given field values in declaration order.
fn order_field_values(literal: &String, definition: &Vec<StructField>, given: &Vec<(String, Value)>) -> (r: Result<
    Vec<(String, Value)>,
    RuntimeError,
>)
    ensures
        match r {
            Ok(ordered) => order_fields(
                literal@,
                definition@.map_values(|f: StructField| f@),
                vars_view(given@),
                0,
                Seq::empty(),
            ) == Ok::<Vars, Seq<char>>(vars_view(ordered@)),
            Err(e) => order_fields(
                literal@,
                definition@.map_values(|f: StructField| f@),
                vars_view(given@),
                0,
                Seq::empty(),
            ) == Err::<Vars, Seq<char>>(e@),
        },
{
    let ghost defs = definition@.map_values(|f: StructField| f@);
    let mut ordered: Vec<(String, Value)> = Vec::new();
    proof {
        assert(vars_view(ordered@) =~= Seq::<(Seq<char>, ValueView)>::empty());
    }
    let mut i: usize = 0;
    while i < definition.len()
        invariant
            i <= definition@.len(),
            defs == definition@.map_values(|f: StructField| f@),
            order_fields(literal@, defs, vars_view(given@), 0, Seq::empty()) == order_fields(
                literal@,
                defs,
                vars_view(given@),
                i as nat,
                vars_view(ordered@),
            ),
        decreases definition@.len() - i,
    {
        let name = &definition[i].name;
        match find_field_index(given, name) {
            None => {
                return Err(runtime_error(concat5("missing field `", name.as_str(), "` in `", literal.as_str(), "`")));
            },
            Some(k) => {
                let ghost before = ordered@;
                ordered.push((name.clone(), copy_value(&given[k].1)));
                proof {
                    assert(vars_view(ordered@) =~= vars_view(before).push((name@, given@[k as int].1@)));
                }
            },
        }
        i = i + 1;
    }
    Ok(ordered)
}

fn function_result_value(name: &String, return_type: Option<&Type>, signal: ExecutionSignal) -> (r: Result<
    Option<Value>,
    RuntimeError,
>)
    ensures
        returned_result(r) == function_result(name@, optional_type_view(return_type), signal@),
{
    match signal {
        ExecutionSignal::Break => Err(error_str("cannot `break` outside loop")),
        ExecutionSignal::Continue => Err(error_str("cannot `continue` outside loop")),
        ExecutionSignal::Normal => match return_type {
            Some(ty) => {
                let n = ty.name();
                Err(runtime_error(concat5("function `", name.as_str(), "` must return `", n.as_str(), "`")))
            },
            None => Ok(None),
        },
        ExecutionSignal::Return(v) => match return_type {
            Some(_) => Ok(Some(v)),
            None => Err(runtime_error(concat3("function `", name.as_str(), "` cannot return a value"))),
        },
    }
}

pub open spec fn outcome(r: Result<Value, RuntimeError>, m: Machine) -> Outcome {
    (value_result(r), m)
}

pub open spec fn unit_outcome(r: Result<(), RuntimeError>, m: Machine) -> (Result<(), Seq<char>>, Machine) {
    (unit_result(r), m)
}

pub open spec fn statement_outcome(r: Result<ExecutionSignal, RuntimeError>, m: Machine, vars: Seq<(String, Value)>) -> (
    Result<(Signal, Vars), Seq<char>>,
    Machine,
) {
    (
        match r {
            Ok(s) => Ok((s@, vars_view(vars))),
            Err(e) => Err(e@),
        },
        m,
    )
}

pub open spec fn extends(after: Seq<(String, Value)>, before: Seq<(String, Value)>) -> bool {
    after.len() >= before.len() && forall|k: int| 0 <= k < before.len() ==> #[trigger] after[k] == before[k]
}

impl Runtime {
    fn deref_value(&self, v: Value) -> (r: Result<Value, RuntimeError>)
        ensures
            value_result(r) == deref(self@, v@),
    {
        match v {
            Value::Pointer(PointerValue::Reference(inner)) => Ok(*inner),
            Value::Pointer(PointerValue::Heap { allocation, .. }) => {
                if allocation < self.heap.len() {
                    match &self.heap[allocation] {
                        Some(x) => {
                            return Ok(copy_value(x));
                        },
                        None => {},
                    }
                }
                Err(error_str("cannot dereference freed pointer"))
            },
            _ => {
                let t = type_of(&v);
                let n = t.name();
                Err(runtime_error(concat3("cannot dereference `", n.as_str(), "`")))
            },
        }
    }

    fn access_field_value(&self, object: Value, field: &String) -> (r: Result<Value, RuntimeError>)
        ensures
            value_result(r) == access_field(self@, object@, field@),
    {
        match &object {
            Value::Struct { .. } => {
                return field_of_value(&object, field);
            },
            Value::Pointer(_) => {},
            _ => {
                let t = type_of(&object);
                let n = t.name();
                return Err(runtime_error(concat5("cannot access field `", field.as_str(), "` on `", n.as_str(), "`")));
            },
        }
        let target = self.deref_value(object)?;
        field_of_value(&target, field)
    }

    fn allocate_value(&mut self, v: Value) -> (r: Value)
        ensures
            (r@, final(self)@) == allocate(old(self)@, v@),
    {
        let ty = type_of(&v);
        let allocation = self.heap.len();
        let ghost before = self.heap@;
        self.heap.push(Some(v));
        proof {
            assert(self.heap@.map_values(|c: Option<Value>| cell_view(c)) =~= before.map_values(
                |c: Option<Value>| cell_view(c),
            ).push(Some(v@)));
        }
        Value::Pointer(PointerValue::Heap { allocation, ty })
    }

    fn evaluate<F: Fn(FloatRequest) -> FloatReply>(
        &mut self,
        program: &Program,
        floats: &F,
        fuel: u64,
        vars: &Vec<(String, Value)>,
        expression: &Expression,
    ) -> (r: Result<Value, RuntimeError>)
        requires
            float_handler(*floats),
        ensures
            outcome(r, final(self)@) == rt_eval(
                float_semantics(*floats),
                program@,
                fuel as nat,
                old(self)@,
                vars_view(vars@),
                expression@,
            ),
        decreases fuel, 0int, expression@, 10int,
    {
        match expression {
            Expression::Integer(v) => integer_literal_value(*v, &Type::I32),
            Expression::Float(t) => float_literal_value(floats, t, &Type::F64),
            Expression::Bool(b) => Ok(Value::Bool(*b)),
            Expression::Variable(name) => lookup_variable(vars, name),
            Expression::Call(call) => {
                proof {
                    let e = expression@;
                    assert(decreases_to!(e => e->arguments));
                }
                self.evaluate_call_expression(program, floats, fuel, vars, &call.name, &call.arguments)
            },
            Expression::StructLiteral(literal) => {
                proof {
                    let e = expression@;
                    assert(decreases_to!(e => e->fields));
                }
                self.evaluate_struct_literal(program, floats, fuel, vars, &literal.name, &literal.fields)
            },
            Expression::FieldAccess(access) => {
                proof {
                    let e = expression@;
                    assert(decreases_to!(e => e->object));
                }
                let object = self.evaluate(program, floats, fuel, vars, &access.object)?;
                self.access_field_value(object, &access.field)
            },
            Expression::AddressOf(inner) => {
                let v = self.evaluate(program, floats, fuel, vars, inner)?;
                Ok(Value::Pointer(PointerValue::Reference(Box::new(v))))
            },
            Expression::Dereference(inner) => {
                let v = self.evaluate(program, floats, fuel, vars, inner)?;
                self.deref_value(v)
            },
            Expression::BitNot(inner) => {
                let v = self.evaluate(program, floats, fuel, vars, inner)?;
                apply_not_value(v)
            },
            Expression::Binary(binary) => self.evaluate_binary(program, floats, fuel, vars, binary),
        }
    }

    fn evaluate_as<F: Fn(FloatRequest) -> FloatReply>(
        &mut self,
        program: &Program,
        floats: &F,
        fuel: u64,
        vars: &Vec<(String, Value)>,
        expression: &Expression,
        ty: &Type,
    ) -> (r: Result<Value, RuntimeError>)
        requires
            float_handler(*floats),
        ensures
            outcome(r, final(self)@) == rt_eval_as(
                float_semantics(*floats),
                program@,
                fuel as nat,
                old(self)@,
                vars_view(vars@),
                expression@,
                ty@,
            ),
        decreases fuel, 0int, expression@, 11int,
    {
        match expression {
            Expression::Integer(v) => integer_literal_value(*v, ty),
            Expression::Float(t) => float_literal_value(floats, t, ty),
            Expression::Bool(b) => {
                if ty.is_bool() {
                    Ok(Value::Bool(*b))
                } else {
                    let n = ty.name();
                    Err(runtime_error(concat3("cannot assign bool literal to `", n.as_str(), "`")))
                }
            },
            Expression::Call(call) => {
                if str_eq(call.name.as_str(), "alloc") {
                    proof {
                        let e = expression@;
                        assert(decreases_to!(e => e->arguments));
                    }
                    self.evaluate_alloc_as(program, floats, fuel, vars, &call.arguments, ty)
                } else {
                    let v = self.evaluate(program, floats, fuel, vars, expression)?;
                    expect_value_type(v, ty)
                }
            },
            Expression::BitNot(inner) => {
                if !ty.is_bool() && !ty.is_integer() {
                    return Err(operator_message("!", ty));
                }
                let v = self.evaluate_as(program, floats, fuel, vars, inner, ty)?;
                apply_not_value(v)
            },
            Expression::Binary(binary) => self.evaluate_binary_as(program, floats, fuel, vars, binary, ty),
            _ => {
                let v = self.evaluate(program, floats, fuel, vars, expression)?;
                expect_value_type(v, ty)
            },
        }
    }

    fn evaluate_binary<F: Fn(FloatRequest) -> FloatReply>(
        &mut self,
        program: &Program,
        floats: &F,
        fuel: u64,
        vars: &Vec<(String, Value)>,
        binary: &BinaryExpression,
    ) -> (r: Result<Value, RuntimeError>)
        requires
            float_handler(*floats),
        ensures
            outcome(r, final(self)@) == rt_binary(
                float_semantics(*floats),
                program@,
                fuel as nat,
                old(self)@,
                vars_view(vars@),
                binary_view(*binary),
            ),
        decreases fuel, 0int, binary_view(*binary), 9int,
    {
        let op = binary.operator;
        if op == BinaryOperator::BoolAnd || op == BinaryOperator::BoolOr {
            return self.evaluate_logic(program, floats, fuel, vars, binary);
        }
        if op == BinaryOperator::Equal || op == BinaryOperator::NotEqual {
            return self.evaluate_equality(program, floats, fuel, vars, binary);
        }
        proof {
            let e = binary_view(*binary);
            assert(decreases_to!(e => e->left));
            assert(decreases_to!(e => e->right));
        }
        if is_untyped_expression(&binary.left) && !is_untyped_expression(&binary.right) {
            let right = self.evaluate(program, floats, fuel, vars, &binary.right)?;
            let ty = type_of(&right);
            ensure_binary_operator(op, &ty)?;
            let left = self.evaluate_as(program, floats, fuel, vars, &binary.left, &ty)?;
            apply_binary_value(floats, left, op, right)
        } else {
            let left = self.evaluate(program, floats, fuel, vars, &binary.left)?;
            let ty = type_of(&left);
            ensure_binary_operator(op, &ty)?;
            let right = self.evaluate_as(program, floats, fuel, vars, &binary.right, &ty)?;
            apply_binary_value(floats, left, op, right)
        }
    }

    fn evaluate_binary_as<F: Fn(FloatRequest) -> FloatReply>(
        &mut self,
        program: &Program,
        floats: &F,
        fuel: u64,
        vars: &Vec<(String, Value)>,
        binary: &BinaryExpression,
        ty: &Type,
    ) -> (r: Result<Value, RuntimeError>)
        requires
            float_handler(*floats),
        ensures
            outcome(r, final(self)@) == rt_binary_as(
                float_semantics(*floats),
                program@,
                fuel as nat,
                old(self)@,
                vars_view(vars@),
                binary_view(*binary),
                ty@,
            ),
        decreases fuel, 0int, binary_view(*binary), 10int,
    {
        let op = binary.operator;
        if op.result_is_bool() {
            let v = self.evaluate_binary(program, floats, fuel, vars, binary)?;
            return expect_value_type(v, ty);
        }
        ensure_binary_operator(op, ty)?;
        let left = self.evaluate_as(program, floats, fuel, vars, &binary.left, ty)?;
        let right = self.evaluate_as(program, floats, fuel, vars, &binary.right, ty)?;
        apply_binary_value(floats, left, op, right)
    }

    fn evaluate_logic<F: Fn(FloatRequest) -> FloatReply>(
        &mut self,
        program: &Program,
        floats: &F,
        fuel: u64,
        vars: &Vec<(String, Value)>,
        binary: &BinaryExpression,
    ) -> (r: Result<Value, RuntimeError>)
        requires
            float_handler(*floats),
        ensures
            outcome(r, final(self)@) == rt_logic(
                float_semantics(*floats),
                program@,
                fuel as nat,
                old(self)@,
                vars_view(vars@),
                binary_view(*binary),
            ),
        decreases fuel, 0int, binary_view(*binary), 8int,
    {
        let op = binary.operator;
        proof {
            let e = binary_view(*binary);
            assert(decreases_to!(e => e->left));
            assert(decreases_to!(e => e->right));
        }
        let left = self.evaluate_as(program, floats, fuel, vars, &binary.left, &Type::Bool)?;
        let l = bool_of(&left);
        if (op == BinaryOperator::BoolAnd && !l) || (op == BinaryOperator::BoolOr && l) {
            return Ok(Value::Bool(l));
        }
        let right = self.evaluate_as(program, floats, fuel, vars, &binary.right, &Type::Bool)?;
        Ok(Value::Bool(bool_of(&right)))
    }

    fn evaluate_equality<F: Fn(FloatRequest) -> FloatReply>(
        &mut self,
        program: &Program,
        floats: &F,
        fuel: u64,
        vars: &Vec<(String, Value)>,
        binary: &BinaryExpression,
    ) -> (r: Result<Value, RuntimeError>)
        requires
            float_handler(*floats),
        ensures
            outcome(r, final(self)@) == rt_equality(
                float_semantics(*floats),
                program@,
                fuel as nat,
                old(self)@,
                vars_view(vars@),
                binary_view(*binary),
            ),
        decreases fuel, 0int, binary_view(*binary), 8int,
    {
        proof {
            let e = binary_view(*binary);
            assert(decreases_to!(e => e->left));
            assert(decreases_to!(e => e->right));
        }
        let flipped = is_untyped_expression(&binary.left) && !is_untyped_expression(&binary.right);
        let equal = if flipped {
            let right = self.evaluate(program, floats, fuel, vars, &binary.right)?;
            let ty = type_of(&right);
            let left = self.evaluate_as(program, floats, fuel, vars, &binary.left, &ty)?;
            values_equal(floats, &left, &right)
        } else {
            let left = self.evaluate(program, floats, fuel, vars, &binary.left)?;
            let ty = type_of(&left);
            let right = self.evaluate_as(program, floats, fuel, vars, &binary.right, &ty)?;
            values_equal(floats, &left, &right)
        };
        if binary.operator == BinaryOperator::Equal {
            Ok(Value::Bool(equal))
        } else {
            Ok(Value::Bool(!equal))
        }
    }

    fn evaluate_call_expression<F: Fn(FloatRequest) -> FloatReply>(
        &mut self,
        program: &Program,
        floats: &F,
        fuel: u64,
        vars: &Vec<(String, Value)>,
        name: &String,
        arguments: &Vec<Expression>,
    ) -> (r: Result<Value, RuntimeError>)
        requires
            float_handler(*floats),
        ensures
            outcome(r, final(self)@) == rt_call_expression(
                float_semantics(*floats),
                program@,
                fuel as nat,
                old(self)@,
                vars_view(vars@),
                name@,
                exprs_view(arguments@),
            ),
        decreases fuel, 0int, exprs_view(arguments@), 9int,
    {
        if str_eq(name.as_str(), "println") {
            return Err(error_str("function `println` does not return a value"));
        }
        if str_eq(name.as_str(), "dealloc") {
            return Err(error_str("function `dealloc` does not return a value"));
        }
        if str_eq(name.as_str(), "alloc") {
            return self.evaluate_alloc(program, floats, fuel, vars, arguments);
        }
        if fuel == 0 {
            return Err(error_str("execution budget exhausted"));
        }
        match self.call_function(program, floats, fuel - 1, vars, name, arguments)? {
            Some(v) => Ok(v),
            None => Err(runtime_error(concat3("function `", name.as_str(), "` does not return a value"))),
        }
    }

    fn evaluate_call_statement<F: Fn(FloatRequest) -> FloatReply>(
        &mut self,
        program: &Program,
        floats: &F,
        fuel: u64,
        vars: &Vec<(String, Value)>,
        name: &String,
        arguments: &Vec<Expression>,
    ) -> (r: Result<(), RuntimeError>)
        requires
            float_handler(*floats),
        ensures
            unit_outcome(r, final(self)@) == rt_call_statement(
                float_semantics(*floats),
                program@,
                fuel as nat,
                old(self)@,
                vars_view(vars@),
                name@,
                exprs_view(arguments@),
            ),
        decreases fuel, 0int, exprs_view(arguments@), 9int,
    {
        if str_eq(name.as_str(), "println") {
            return self.evaluate_println(program, floats, fuel, vars, arguments);
        }
        if str_eq(name.as_str(), "dealloc") {
            return self.evaluate_dealloc(program, floats, fuel, vars, arguments);
        }
        if str_eq(name.as_str(), "alloc") {
            self.evaluate_alloc(program, floats, fuel, vars, arguments)?;
            return Ok(());
        }
        if fuel == 0 {
            return Err(error_str("execution budget exhausted"));
        }
        self.call_function(program, floats, fuel - 1, vars, name, arguments)?;
        Ok(())
    }

    fn evaluate_println<F: Fn(FloatRequest) -> FloatReply>(
        &mut self,
        program: &Program,
        floats: &F,
        fuel: u64,
        vars: &Vec<(String, Value)>,
        arguments: &Vec<Expression>,
    ) -> (r: Result<(), RuntimeError>)
        requires
            float_handler(*floats),
        ensures
            unit_outcome(r, final(self)@) == rt_println(
                float_semantics(*floats),
                program@,
                fuel as nat,
                old(self)@,
                vars_view(vars@),
                exprs_view(arguments@),
            ),
        decreases fuel, 0int, exprs_view(arguments@), 8int,
    {
        proof {
            lemma_exprs_view(arguments@);
        }
        if arguments.len() != 1 {
            return Err(error_str("function `println` expects 1 argument"));
        }
        proof {
            assert(decreases_to!(exprs_view(arguments@) => exprs_view(arguments@)[0]));
        }
        let v = self.evaluate(program, floats, fuel, vars, &arguments[0])?;
        let text = printable_text(floats, &v);
        self.output.append(text.as_str());
        self.output.append("\n");
        Ok(())
    }

    fn evaluate_alloc<F: Fn(FloatRequest) -> FloatReply>(
        &mut self,
        program: &Program,
        floats: &F,
        fuel: u64,
        vars: &Vec<(String, Value)>,
        arguments: &Vec<Expression>,
    ) -> (r: Result<Value, RuntimeError>)
        requires
            float_handler(*floats),
        ensures
            outcome(r, final(self)@) == rt_alloc(
                float_semantics(*floats),
                program@,
                fuel as nat,
                old(self)@,
                vars_view(vars@),
                exprs_view(arguments@),
            ),
        decreases fuel, 0int, exprs_view(arguments@), 8int,
    {
        proof {
            lemma_exprs_view(arguments@);
        }
        if arguments.len() != 1 {
            return Err(error_str("function `alloc` expects 1 argument"));
        }
        proof {
            assert(decreases_to!(exprs_view(arguments@) => exprs_view(arguments@)[0]));
        }
        let v = self.evaluate(program, floats, fuel, vars, &arguments[0])?;
        Ok(self.allocate_value(v))
    }

    fn evaluate_alloc_as<F: Fn(FloatRequest) -> FloatReply>(
        &mut self,
        program: &Program,
        floats: &F,
        fuel: u64,
        vars: &Vec<(String, Value)>,
        arguments: &Vec<Expression>,
        ty: &Type,
    ) -> (r: Result<Value, RuntimeError>)
        requires
            float_handler(*floats),
        ensures
            outcome(r, final(self)@) == rt_alloc_as(
                float_semantics(*floats),
                program@,
                fuel as nat,
                old(self)@,
                vars_view(vars@),
                exprs_view(arguments@),
                ty@,
            ),
        decreases fuel, 0int, exprs_view(arguments@), 8int,
    {
        proof {
            lemma_exprs_view(arguments@);
        }
        match ty {
            Type::Pointer(target) => {
                if arguments.len() != 1 {
                    return Err(error_str("function `alloc` expects 1 argument"));
                }
                proof {
                    assert(decreases_to!(exprs_view(arguments@) => exprs_view(arguments@)[0]));
                }
                let v = self.evaluate_as(program, floats, fuel, vars, &arguments[0], target)?;
                Ok(self.allocate_value(v))
            },
            _ => Err(error_str("function `alloc` returns a pointer")),
        }
    }

    fn evaluate_dealloc<F: Fn(FloatRequest) -> FloatReply>(
        &mut self,
        program: &Program,
        floats: &F,
        fuel: u64,
        vars: &Vec<(String, Value)>,
        arguments: &Vec<Expression>,
    ) -> (r: Result<(), RuntimeError>)
        requires
            float_handler(*floats),
        ensures
            unit_outcome(r, final(self)@) == rt_dealloc(
                float_semantics(*floats),
                program@,
                fuel as nat,
                old(self)@,
                vars_view(vars@),
                exprs_view(arguments@),
            ),
        decreases fuel, 0int, exprs_view(arguments@), 8int,
    {
        proof {
            lemma_exprs_view(arguments@);
        }
        if arguments.len() != 1 {
            return Err(error_str("function `dealloc` expects 1 argument"));
        }
        proof {
            assert(decreases_to!(exprs_view(arguments@) => exprs_view(arguments@)[0]));
        }
        let v = self.evaluate(program, floats, fuel, vars, &arguments[0])?;
        match &v {
            Value::Pointer(PointerValue::Heap { allocation, .. }) => {
                let a = *allocation;
                if a < self.heap.len() && self.heap[a].is_some() {
                    let ghost before = self.heap@;
                    self.heap.set(a, None);
                    proof {
                        assert(self.heap@.map_values(|c: Option<Value>| cell_view(c)) =~= before.map_values(
                            |c: Option<Value>| cell_view(c),
                        ).update(a as int, None));
                    }
                    Ok(())
                } else {
                    Err(error_str("allocation is already freed"))
                }
            },
            Value::Pointer(PointerValue::Reference(_)) => Err(
                error_str("function `dealloc` expects pointer returned by `alloc`"),
            ),
            _ => {
                let t = type_of(&v);
                let n = t.name();
                Err(runtime_error(concat3("function `dealloc` expects pointer, found `", n.as_str(), "`")))
            },
        }
    }

    fn evaluate_struct_literal<F: Fn(FloatRequest) -> FloatReply>(
        &mut self,
        program: &Program,
        floats: &F,
        fuel: u64,
        vars: &Vec<(String, Value)>,
        name: &String,
        fields: &Vec<StructLiteralField>,
    ) -> (r: Result<Value, RuntimeError>)
        requires
            float_handler(*floats),
        ensures
            outcome(r, final(self)@) == rt_struct_literal(
                float_semantics(*floats),
                program@,
                fuel as nat,
                old(self)@,
                vars_view(vars@),
                name@,
                field_inits_view(fields@),
            ),
        decreases fuel, 0int, field_inits_view(fields@), 9int,
    {
        let definition = match struct_fields_named(program, name) {
            Some(d) => d,
            None => {
                return Err(runtime_error(concat3("unknown struct `", name.as_str(), "`")));
            },
        };
        let given = self.evaluate_field_inits(program, floats, fuel, vars, name, definition, fields)?;
        let ordered = order_field_values(name, definition, &given)?;
        proof {
            lemma_field_values_map(ordered@);
        }
        Ok(Value::Struct { name: name.clone(), fields: ordered })
    }

    fn evaluate_field_inits<F: Fn(FloatRequest) -> FloatReply>(
        &mut self,
        program: &Program,
        floats: &F,
        fuel: u64,
        vars: &Vec<(String, Value)>,
        literal: &String,
        definition: &Vec<StructField>,
        fields: &Vec<StructLiteralField>,
    ) -> (r: Result<Vec<(String, Value)>, RuntimeError>)
        requires
            float_handler(*floats),
        ensures
            ({
                let (expected, m) = rt_field_inits(
                    float_semantics(*floats),
                    program@,
                    fuel as nat,
                    old(self)@,
                    vars_view(vars@),
                    literal@,
                    definition@.map_values(|f: StructField| f@),
                    field_inits_view(fields@),
                    Seq::empty(),
                );
                &&& m == final(self)@
                &&& match r {
                    Ok(given) => expected == Ok::<Vars, Seq<char>>(vars_view(given@)),
                    Err(e) => expected == Err::<Vars, Seq<char>>(e@),
                }
            }),
        decreases fuel, 0int, field_inits_view(fields@), 8int,
    {
        let ghost fs = float_semantics(*floats);
        let ghost inits = field_inits_view(fields@);
        let ghost defs = definition@.map_values(|f: StructField| f@);
        let ghost start = self@;
        proof {
            lemma_field_inits_view(fields@);
            assert(inits.skip(0) =~= inits);
            assert(vars_view(Seq::<(String, Value)>::empty()) =~= Seq::<(Seq<char>, ValueView)>::empty());
        }
        let mut given: Vec<(String, Value)> = Vec::new();
        let mut i: usize = 0;
        while i < fields.len()
            invariant
                i <= fields@.len(),
                float_handler(*floats),
                fs == float_semantics(*floats),
                inits == field_inits_view(fields@),
                defs == definition@.map_values(|f: StructField| f@),
                start == old(self)@,
                inits.len() == fields@.len(),
                forall|k: int|
                    0 <= k < fields@.len() ==> #[trigger] inits[k] == (FieldInitView {
                        name: fields@[k].name@,
                        value: expr_view(fields@[k].value),
                    }),
                rt_field_inits(fs, program@, fuel as nat, start, vars_view(vars@), literal@, defs, inits, Seq::empty())
                    == rt_field_inits(
                    fs,
                    program@,
                    fuel as nat,
                    self@,
                    vars_view(vars@),
                    literal@,
                    defs,
                    inits.skip(i as int),
                    vars_view(given@),
                ),
            decreases fields@.len() - i,
        {
            proof {
                assert(inits.skip(i as int)[0] == inits[i as int]);
                assert(inits.skip(i as int).drop_first() =~= inits.skip(i + 1));
                assert(decreases_to!(inits => inits[i as int]));
                assert(decreases_to!(inits[i as int] => inits[i as int].value));
            }
            let field = &fields[i];
            if find_field_index(&given, &field.name).is_some() {
                return Err(
                    runtime_error(
                        concat5("field `", field.name.as_str(), "` is already initialized in `", literal.as_str(), "`"),
                    ),
                );
            }
            let field_ty = match find_field_type(definition, &field.name) {
                Some(t) => t,
                None => {
                    return Err(
                        runtime_error(concat5("unknown field `", field.name.as_str(), "` in `", literal.as_str(), "`")),
                    );
                },
            };
            let v = self.evaluate_as(program, floats, fuel, vars, &field.value, field_ty)?;
            let ghost before = given@;
            given.push((field.name.clone(), v));
            proof {
                assert(vars_view(given@) =~= vars_view(before).push((field.name@, v@)));
            }
            i = i + 1;
        }
        proof {
            assert(inits.skip(i as int) =~= Seq::<FieldInitView>::empty());
        }
        Ok(given)
    }

    fn call_function<F: Fn(FloatRequest) -> FloatReply>(
        &mut self,
        program: &Program,
        floats: &F,
        fuel: u64,
        caller: &Vec<(String, Value)>,
        name: &String,
        arguments: &Vec<Expression>,
    ) -> (r: Result<Option<Value>, RuntimeError>)
        requires
            float_handler(*floats),
        ensures
            (returned_result(r), final(self)@) == rt_call_function(
                float_semantics(*floats),
                program@,
                fuel as nat,
                old(self)@,
                vars_view(caller@),
                name@,
                exprs_view(arguments@),
            ),
        decreases fuel, 2int, exprs_view(arguments@), 0int,
    {
        let function = match function_named(program, name) {
            Some(f) => f,
            None => {
                return Err(runtime_error(concat3("unknown function `", name.as_str(), "`")));
            },
        };
        proof {
            lemma_exprs_view(arguments@);
        }
        if function.parameters.len() != arguments.len() {
            let count = usize_to_string(function.parameters.len());
            return Err(
                runtime_error(concat5("function `", name.as_str(), "` expects ", count.as_str(), " argument(s)")),
            );
        }
        let mut vars = self.bind_arguments(program, floats, fuel, caller, &function.parameters, arguments)?;
        let return_type = function.return_type.as_ref();
        let signal = self.run_statements(program, floats, fuel, &mut vars, &function.body.statements, return_type)?;
        function_result_value(name, return_type, signal)
    }

    fn bind_arguments<F: Fn(FloatRequest) -> FloatReply>(
        &mut self,
        program: &Program,
        floats: &F,
        fuel: u64,
        caller: &Vec<(String, Value)>,
        parameters: &Vec<FunctionParameter>,
        arguments: &Vec<Expression>,
    ) -> (r: Result<Vec<(String, Value)>, RuntimeError>)
        requires
            float_handler(*floats),
            parameters@.len() == arguments@.len(),
        ensures
            ({
                let (expected, m) = rt_arguments(
                    float_semantics(*floats),
                    program@,
                    fuel as nat,
                    old(self)@,
                    vars_view(caller@),
                    parameters@.map_values(|p: FunctionParameter| p@),
                    exprs_view(arguments@),
                    Seq::empty(),
                );
                &&& m == final(self)@
                &&& match r {
                    Ok(bound) => expected == Ok::<Vars, Seq<char>>(vars_view(bound@)),
                    Err(e) => expected == Err::<Vars, Seq<char>>(e@),
                }
            }),
        decreases fuel, 0int, exprs_view(arguments@), 7int,
    {
        let ghost fs = float_semantics(*floats);
        let ghost args = exprs_view(arguments@);
        let ghost params = parameters@.map_values(|p: FunctionParameter| p@);
        let ghost start = self@;
        proof {
            lemma_exprs_view(arguments@);
            assert(args.skip(0) =~= args);
            assert(params.skip(0) =~= params);
            assert(vars_view(Seq::<(String, Value)>::empty()) =~= Seq::<(Seq<char>, ValueView)>::empty());
        }
        let mut bound: Vec<(String, Value)> = Vec::new();
        let mut i: usize = 0;
        while i < arguments.len()
            invariant
                i <= arguments@.len() == parameters@.len(),
                float_handler(*floats),
                fs == float_semantics(*floats),
                args == exprs_view(arguments@),
                params == parameters@.map_values(|p: FunctionParameter| p@),
                start == old(self)@,
                args.len() == arguments@.len(),
                forall|k: int| 0 <= k < arguments@.len() ==> #[trigger] args[k] == expr_view(arguments@[k]),
                rt_arguments(fs, program@, fuel as nat, start, vars_view(caller@), params, args, Seq::empty())
                    == rt_arguments(
                    fs,
                    program@,
                    fuel as nat,
                    self@,
                    vars_view(caller@),
                    params.skip(i as int),
                    args.skip(i as int),
                    vars_view(bound@),
                ),
            decreases arguments@.len() - i,
        {
            proof {
                assert(args.skip(i as int)[0] == args[i as int]);
                assert(params.skip(i as int)[0] == params[i as int]);
                assert(args.skip(i as int).drop_first() =~= args.skip(i + 1));
                assert(params.skip(i as int).drop_first() =~= params.skip(i + 1));
                assert(decreases_to!(args => args[i as int]));
            }
            let parameter = &parameters[i];
            let v = self.evaluate_as(program, floats, fuel, caller, &arguments[i], &parameter.ty)?;
            let ghost before = bound@;
            bound.push((parameter.name.clone(), v));
            proof {
                assert(vars_view(bound@) =~= vars_view(before).push((parameter.name@, v@)));
            }
            i = i + 1;
        }
        proof {
            assert(args.skip(i as int) =~= Seq::<ExprView>::empty());
        }
        Ok(bound)
    }

    fn run_statements<F: Fn(FloatRequest) -> FloatReply>(
        &mut self,
        program: &Program,
        floats: &F,
        fuel: u64,
        vars: &mut Vec<(String, Value)>,
        statements: &Vec<Statement>,
        return_type: Option<&Type>,
    ) -> (r: Result<ExecutionSignal, RuntimeError>)
        requires
            float_handler(*floats),
        ensures
            (signal_result(r), final(self)@) == rt_statements(
                float_semantics(*floats),
                program@,
                fuel as nat,
                old(self)@,
                vars_view(old(vars)@),
                stmts_view(statements@),
                optional_type_view(return_type),
            ),
            extends(final(vars)@, old(vars)@),
        decreases fuel, 1int, stmts_view(statements@), 0int,
    {
        let ghost fs = float_semantics(*floats);
        let ghost all = stmts_view(statements@);
        let ghost start = self@;
        let ghost vars_start = vars@;
        proof {
            lemma_stmts_view(statements@);
            assert(all.skip(0) =~= all);
        }
        let mut i: usize = 0;
        while i < statements.len()
            invariant
                i <= statements@.len(),
                float_handler(*floats),
                fs == float_semantics(*floats),
                all == stmts_view(statements@),
                all.len() == statements@.len(),
                forall|k: int| 0 <= k < statements@.len() ==> #[trigger] all[k] == stmt_view(statements@[k]),
                vars_start == old(vars)@,
                start == old(self)@,
                extends(vars@, vars_start),
                rt_statements(fs, program@, fuel as nat, start, vars_view(vars_start), all, optional_type_view(return_type))
                    == rt_statements(
                    fs,
                    program@,
                    fuel as nat,
                    self@,
                    vars_view(vars@),
                    all.skip(i as int),
                    optional_type_view(return_type),
                ),
            decreases statements@.len() - i,
        {
            proof {
                assert(all.skip(i as int)[0] == all[i as int]);
                assert(all.skip(i as int).drop_first() =~= all.skip(i + 1));
                assert(decreases_to!(all => all[i as int]));
            }
            let ghost here = vars@;
            let signal = self.run_statement(program, floats, fuel, vars, &statements[i], return_type)?;
            proof {
                assert forall|k: int| 0 <= k < vars_start.len() implies #[trigger] vars@[k] == vars_start[k] by {
                    assert(vars@[k] == here[k]);
                }
            }
            match signal {
                ExecutionSignal::Normal => {},
                _ => {
                    return Ok(signal);
                },
            }
            i = i + 1;
        }
        proof {
            assert(all.skip(i as int) =~= Seq::<StmtView>::empty());
        }
        Ok(ExecutionSignal::Normal)
    }

    /// Statements run in a block of their own: the variables they add are dropped after.
    fn run_block<F: Fn(FloatRequest) -> FloatReply>(
        &mut self,
        program: &Program,
        floats: &F,
        fuel: u64,
        vars: &mut Vec<(String, Value)>,
        statements: &Vec<Statement>,
        return_type: Option<&Type>,
    ) -> (r: Result<ExecutionSignal, RuntimeError>)
        requires
            float_handler(*floats),
        ensures
            (signal_result(r), final(self)@) == rt_statements(
                float_semantics(*floats),
                program@,
                fuel as nat,
                old(self)@,
                vars_view(old(vars)@),
                stmts_view(statements@),
                optional_type_view(return_type),
            ),
            final(vars)@ == old(vars)@,
        decreases fuel, 1int, stmts_view(statements@), 1int,
    {
        let ghost before = vars@;
        let mark = vars.len();
        let r = self.run_statements(program, floats, fuel, vars, statements, return_type);
        vars.truncate(mark);
        proof {
            assert(vars@ =~= before);
        }
        r
    }

    fn run_statement<F: Fn(FloatRequest) -> FloatReply>(
        &mut self,
        program: &Program,
        floats: &F,
        fuel: u64,
        vars: &mut Vec<(String, Value)>,
        statement: &Statement,
        return_type: Option<&Type>,
    ) -> (r: Result<ExecutionSignal, RuntimeError>)
        requires
            float_handler(*floats),
        ensures
            statement_outcome(r, final(self)@, final(vars)@) == rt_statement(
                float_semantics(*floats),
                program@,
                fuel as nat,
                old(self)@,
                vars_view(old(vars)@),
                statement@,
                optional_type_view(return_type),
            ),
            extends(final(vars)@, old(vars)@),
            r is Err ==> final(vars)@ == old(vars)@,
            !(statement is Let) ==> final(vars)@ == old(vars)@,
            statement is Let ==> final(vars)@.len() <= old(vars)@.len() + 1,
        decreases fuel, 1int, statement@, 1int,
    {
        match statement {
            Statement::Let(l) => {
                let v = self.evaluate_as(program, floats, fuel, vars, &l.value, &l.ty)?;
                let ghost before = vars@;
                vars.push((l.name.clone(), v));
                proof {
                    assert(vars_view(vars@) =~= vars_view(before).push((l.name@, v@)));
                }
                Ok(ExecutionSignal::Normal)
            },
            Statement::Call(c) => {
                self.evaluate_call_statement(program, floats, fuel, vars, &c.name, &c.arguments)?;
                Ok(ExecutionSignal::Normal)
            },
            Statement::Return(ret) => match return_type {
                None => Err(error_str("cannot return a value from function without return type")),
                Some(ty) => {
                    let v = self.evaluate_as(program, floats, fuel, vars, &ret.value, ty)?;
                    Ok(ExecutionSignal::Return(v))
                },
            },
            Statement::If(i) => {
                let c = self.evaluate_as(program, floats, fuel, vars, &i.condition, &Type::Bool)?;
                if bool_of(&c) {
                    self.run_block(program, floats, fuel, vars, &i.then_block.statements, return_type)
                } else {
                    match &i.else_block {
                        None => Ok(ExecutionSignal::Normal),
                        Some(b) => {
                            proof {
                                let v = statement@;
                                assert(decreases_to!(v => v->else_block));
                                assert(decreases_to!(v->else_block => v->else_block->0));
                            }
                            self.run_block(program, floats, fuel, vars, &b.statements, return_type)
                        },
                    }
                }
            },
            Statement::Loop(l) => self.run_loop(program, floats, fuel, vars, &l.body.statements, return_type),
            Statement::While(w) => self.run_while(
                program,
                floats,
                fuel,
                vars,
                &w.condition,
                &w.body.statements,
                return_type,
            ),
            Statement::Break => Ok(ExecutionSignal::Break),
            Statement::Continue => Ok(ExecutionSignal::Continue),
        }
    }

    fn run_loop<F: Fn(FloatRequest) -> FloatReply>(
        &mut self,
        program: &Program,
        floats: &F,
        fuel: u64,
        vars: &mut Vec<(String, Value)>,
        body: &Vec<Statement>,
        return_type: Option<&Type>,
    ) -> (r: Result<ExecutionSignal, RuntimeError>)
        requires
            float_handler(*floats),
        ensures
            (signal_result(r), final(self)@) == rt_loop(
                float_semantics(*floats),
                program@,
                fuel as nat,
                old(self)@,
                vars_view(old(vars)@),
                stmts_view(body@),
                optional_type_view(return_type),
            ),
            final(vars)@ == old(vars)@,
        decreases fuel, 1int, stmts_view(body@), 2int,
    {
        if fuel == 0 {
            return Err(error_str("execution budget exhausted"));
        }
        let signal = self.run_block(program, floats, fuel - 1, vars, body, return_type)?;
        match signal {
            ExecutionSignal::Break => Ok(ExecutionSignal::Normal),
            ExecutionSignal::Return(v) => Ok(ExecutionSignal::Return(v)),
            _ => self.run_loop(program, floats, fuel - 1, vars, body, return_type),
        }
    }

    fn run_while<F: Fn(FloatRequest) -> FloatReply>(
        &mut self,
        program: &Program,
        floats: &F,
        fuel: u64,
        vars: &mut Vec<(String, Value)>,
        condition: &Expression,
        body: &Vec<Statement>,
        return_type: Option<&Type>,
    ) -> (r: Result<ExecutionSignal, RuntimeError>)
        requires
            float_handler(*floats),
        ensures
            (signal_result(r), final(self)@) == rt_while(
                float_semantics(*floats),
                program@,
                fuel as nat,
                old(self)@,
                vars_view(old(vars)@),
                condition@,
                stmts_view(body@),
                optional_type_view(return_type),
            ),
            final(vars)@ == old(vars)@,
        decreases fuel, 1int, stmts_view(body@), 2int,
    {
        if fuel == 0 {
            return Err(error_str("execution budget exhausted"));
        }
        let c = self.evaluate_as(program, floats, fuel - 1, vars, condition, &Type::Bool)?;
        if !bool_of(&c) {
            return Ok(ExecutionSignal::Normal);
        }
        let signal = self.run_block(program, floats, fuel - 1, vars, body, return_type)?;
        match signal {
            ExecutionSignal::Break => Ok(ExecutionSignal::Normal),
            ExecutionSignal::Return(v) => Ok(ExecutionSignal::Return(v)),
            _ => self.run_while(program, floats, fuel - 1, vars, condition, body, return_type),
        }
    }
}

fn type_error_to_runtime(e: TypeError) -> (r: RuntimeError)
    ensures
        r@ == e@,
{
    RuntimeError { message: e.message }
}

fn validate_declared(env: &CheckedProgram, ty: &Type) -> (r: Result<(), RuntimeError>)
    ensures
        unit_result(r) == tc_declared(env@, ty@),
{
    match check_declared_type(env, ty) {
        Ok(()) => Ok(()),
        Err(e) => Err(type_error_to_runtime(e)),
    }
}

fn validate_statement(env: &CheckedProgram, statement: &Statement) -> (r: Result<(), RuntimeError>)
    ensures
        unit_result(r) == rt_validate_statement(env@, statement@),
    decreases statement@, 1int,
{
    match statement {
        Statement::Let(l) => validate_declared(env, &l.ty),
        Statement::If(i) => {
            validate_statements(env, &i.then_block.statements)?;
            match &i.else_block {
                Some(b) => {
                    proof {
                        let v = statement@;
                        assert(decreases_to!(v => v->else_block));
                        assert(decreases_to!(v->else_block => v->else_block->0));
                    }
                    validate_statements(env, &b.statements)
                },
                None => Ok(()),
            }
        },
        Statement::Loop(l) => validate_statements(env, &l.body.statements),
        Statement::While(w) => validate_statements(env, &w.body.statements),
        _ => Ok(()),
    }
}

fn validate_statements(env: &CheckedProgram, statements: &Vec<Statement>) -> (r: Result<(), RuntimeError>)
    ensures
        unit_result(r) == rt_validate_statements(env@, stmts_view(statements@)),
    decreases stmts_view(statements@), 0int,
{
    let ghost all = stmts_view(statements@);
    proof {
        lemma_stmts_view(statements@);
        assert(all.skip(0) =~= all);
    }
    let mut i: usize = 0;
    while i < statements.len()
        invariant
            i <= statements@.len(),
            all == stmts_view(statements@),
            all.len() == statements@.len(),
            forall|k: int| 0 <= k < statements@.len() ==> #[trigger] all[k] == stmt_view(statements@[k]),
            rt_validate_statements(env@, all) == rt_validate_statements(env@, all.skip(i as int)),
        decreases statements@.len() - i,
    {
        proof {
            assert(all.skip(i as int)[0] == all[i as int]);
            assert(all.skip(i as int).drop_first() =~= all.skip(i + 1));
            assert(decreases_to!(all => all[i as int]));
        }
        validate_statement(env, &statements[i])?;
        i = i + 1;
    }
    proof {
        assert(all.skip(i as int) =~= Seq::<StmtView>::empty());
    }
    Ok(())
}

fn validate_function(env: &CheckedProgram, function: &Function) -> (r: Result<(), RuntimeError>)
    ensures
        unit_result(r) == rt_validate_function(env@, function@, 0),
{
    let mut i: usize = 0;
    while i < function.parameters.len()
        invariant
            i <= function.parameters@.len(),
            rt_validate_function(env@, function@, 0) == rt_validate_function(env@, function@, i as nat),
        decreases function.parameters@.len() - i,
    {
        validate_declared(env, &function.parameters[i].ty)?;
        i = i + 1;
    }
    if let Some(ty) = &function.return_type {
        validate_declared(env, ty)?;
    }
    validate_statements(env, &function.body.statements)
}

/// The checks made before a run.
fn prepare(program: &Program) -> (r: Result<(), RuntimeError>)
    ensures
        unit_result(r) == rt_prepare(program@),
{
    let env = match declarations(program) {
        Ok(env) => env,
        Err(e) => {
            return Err(type_error_to_runtime(e));
        },
    };
    match check_struct_field_types(&env, program) {
        Ok(()) => {},
        Err(e) => {
            return Err(type_error_to_runtime(e));
        },
    }
    assert(rt_prepare(program@) == rt_validate_functions(env@, program@.functions, 0));
    let mut i: usize = 0;
    while i < program.functions.len()
        invariant
            i <= program.functions@.len(),
            rt_prepare(program@) == rt_validate_functions(env@, program@.functions, 0),
            rt_validate_functions(env@, program@.functions, 0) == rt_validate_functions(
                env@,
                program@.functions,
                i as nat,
            ),
        decreases program.functions@.len() - i,
    {
        validate_function(&env, &program.functions[i])?;
        i = i + 1;
    }
    Ok(())
}

pub open spec fn text_result(r: Result<String, RuntimeError>) -> Result<Seq<char>, Seq<char>> {
    match r {
        Ok(s) => Ok(s@),
        Err(e) => Err(e@),
    }
}

/// Runs `main` with a budget of calls and loop iterations, and returns what it printed.
pub fn run_main_with_budget<F: Fn(FloatRequest) -> FloatReply>(program: &Program, floats: &F, budget: u64) -> (r: Result<
    String,
    RuntimeError,
>)
    requires
        float_handler(*floats),
    ensures
        text_result(r) == spec_run_main(float_semantics(*floats), program@, budget as nat),
{
    prepare(program)?;
    let main_name = String::from_str("main");
    proof {
        reveal_strlit("main");
    }
    if function_named(program, &main_name).is_none() {
        return Err(error_str("function `main` not found"));
    }
    let mut runtime = Runtime { heap: Vec::new(), output: String::new() };
    let caller: Vec<(String, Value)> = Vec::new();
    let arguments: Vec<Expression> = Vec::new();
    proof {
        assert(runtime@.heap =~= Seq::<Option<ValueView>>::empty());
        assert(vars_view(caller@) =~= Seq::<(Seq<char>, ValueView)>::empty());
        assert(exprs_view(arguments@) =~= Seq::<ExprView>::empty());
    }
    runtime.call_function(program, floats, budget, &caller, &main_name, &arguments)?;
    Ok(runtime.output)
}

/// Runs `main` and returns what it printed.
pub fn run_main<F: Fn(FloatRequest) -> FloatReply>(program: &Program, floats: &F) -> (r: Result<String, RuntimeError>)
    requires
        float_handler(*floats),
    ensures
        text_result(r) == spec_run_main(float_semantics(*floats), program@, u64::MAX as nat),
{
    run_main_with_budget(program, floats, u64::MAX)
}

} // verus!
