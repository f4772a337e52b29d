//! The syntax tree of the language, together with its mathematical model.
//!
//! Every executable node has a view (`@`) built from `Seq<char>` names and
//! sequences of sub-views; contracts elsewhere in the crate speak of views.
use vstd::prelude::*;
use vstd::string::StringExecFns;

verus! {

/// A type of the language: a primitive, a named struct, or a pointer.
#[derive(Debug, PartialEq, Eq)]
pub enum Type {
    I8,
    I16,
    I32,
    I64,
    I128,
    Isize,
    U8,
    U16,
    U32,
    U64,
    U128,
    Usize,
    F16,
    F32,
    F64,
    Bool,
    Struct(String),
    Pointer(Box<Type>),
}

/// The model of a [`Type`].
pub enum TypeView {
    I8,
    I16,
    I32,
    I64,
    I128,
    Isize,
    U8,
    U16,
    U32,
    U64,
    U128,
    Usize,
    F16,
    F32,
    F64,
    Bool,
    Struct(Seq<char>),
    Pointer(Box<TypeView>),
}

impl View for Type {
    type V = TypeView;

    open spec fn view(&self) -> TypeView
        decreases self,
    {
        match self {
            Type::I8 => TypeView::I8,
            Type::I16 => TypeView::I16,
            Type::I32 => TypeView::I32,
            Type::I64 => TypeView::I64,
            Type::I128 => TypeView::I128,
            Type::Isize => TypeView::Isize,
            Type::U8 => TypeView::U8,
            Type::U16 => TypeView::U16,
            Type::U32 => TypeView::U32,
            Type::U64 => TypeView::U64,
            Type::U128 => TypeView::U128,
            Type::Usize => TypeView::Usize,
            Type::F16 => TypeView::F16,
            Type::F32 => TypeView::F32,
            Type::F64 => TypeView::F64,
            Type::Bool => TypeView::Bool,
            Type::Struct(name) => TypeView::Struct(name@),
            Type::Pointer(inner) => TypeView::Pointer(Box::new((**inner).view())),
        }
    }
}

impl TypeView {
    /// The name of a type as the language writes it.
    pub open spec fn name(self) -> Seq<char>
        decreases self,
    {
        match self {
            TypeView::I8 => "i8"@,
            TypeView::I16 => "i16"@,
            TypeView::I32 => "i32"@,
            TypeView::I64 => "i64"@,
            TypeView::I128 => "i128"@,
            TypeView::Isize => "isize"@,
            TypeView::U8 => "u8"@,
            TypeView::U16 => "u16"@,
            TypeView::U32 => "u32"@,
            TypeView::U64 => "u64"@,
            TypeView::U128 => "u128"@,
            TypeView::Usize => "usize"@,
            TypeView::F16 => "f16"@,
            TypeView::F32 => "f32"@,
            TypeView::F64 => "f64"@,
            TypeView::Bool => "bool"@,
            TypeView::Struct(name) => name,
            TypeView::Pointer(inner) => "&"@ + (*inner).name(),
        }
    }

    pub open spec fn is_signed_integer(self) -> bool {
        self is I8 || self is I16 || self is I32 || self is I64 || self is I128 || self is Isize
    }

    pub open spec fn is_unsigned_integer(self) -> bool {
        self is U8 || self is U16 || self is U32 || self is U64 || self is U128 || self is Usize
    }

    pub open spec fn is_integer(self) -> bool {
        self.is_signed_integer() || self.is_unsigned_integer()
    }

    pub open spec fn is_float(self) -> bool {
        self is F16 || self is F32 || self is F64
    }

    pub open spec fn is_bool(self) -> bool {
        self is Bool
    }

    /// Width in bits of an integer type (`isize` and `usize` are 64 bits wide).
    pub open spec fn integer_bits(self) -> Option<u32> {
        match self {
            TypeView::I8 | TypeView::U8 => Some(8u32),
            TypeView::I16 | TypeView::U16 => Some(16u32),
            TypeView::I32 | TypeView::U32 => Some(32u32),
            TypeView::I64 | TypeView::U64 | TypeView::Isize | TypeView::Usize => Some(64u32),
            TypeView::I128 | TypeView::U128 => Some(128u32),
            _ => None,
        }
    }

    /// Largest value of an integer type.
    pub open spec fn max_integer_value(self) -> Option<u128> {
        match self {
            TypeView::I8 => Some(0x7fu128),
            TypeView::I16 => Some(0x7fffu128),
            TypeView::I32 => Some(0x7fff_ffffu128),
            TypeView::I64 | TypeView::Isize => Some(0x7fff_ffff_ffff_ffffu128),
            TypeView::I128 => Some(0x7fff_ffff_ffff_ffff_ffff_ffff_ffff_ffffu128),
            TypeView::U8 => Some(0xffu128),
            TypeView::U16 => Some(0xffffu128),
            TypeView::U32 => Some(0xffff_ffffu128),
            TypeView::U64 | TypeView::Usize => Some(0xffff_ffff_ffff_ffffu128),
            TypeView::U128 => Some(u128::MAX),
            _ => None,
        }
    }

    /// Smallest value of an integer type.
    pub open spec fn min_integer_value(self) -> int {
        match self {
            TypeView::I8 => -0x80,
            TypeView::I16 => -0x8000,
            TypeView::I32 => -0x8000_0000,
            TypeView::I64 | TypeView::Isize => -0x8000_0000_0000_0000,
            TypeView::I128 => -0x8000_0000_0000_0000_0000_0000_0000_0000,
            _ => 0,
        }
    }
}

/// The primitive type a name denotes, if any.
pub open spec fn type_from_name(name: Seq<char>) -> Option<TypeView> {
    if name == "i8"@ {
        Some(TypeView::I8)
    } else if name == "i16"@ {
        Some(TypeView::I16)
    } else if name == "i32"@ {
        Some(TypeView::I32)
    } else if name == "i64"@ {
        Some(TypeView::I64)
    } else if name == "i128"@ {
        Some(TypeView::I128)
    } else if name == "isize"@ {
        Some(TypeView::Isize)
    } else if name == "u8"@ {
        Some(TypeView::U8)
    } else if name == "u16"@ {
        Some(TypeView::U16)
    } else if name == "u32"@ {
        Some(TypeView::U32)
    } else if name == "u64"@ {
        Some(TypeView::U64)
    } else if name == "u128"@ {
        Some(TypeView::U128)
    } else if name == "usize"@ {
        Some(TypeView::Usize)
    } else if name == "f16"@ {
        Some(TypeView::F16)
    } else if name == "f32"@ {
        Some(TypeView::F32)
    } else if name == "f64"@ {
        Some(TypeView::F64)
    } else if name == "bool"@ {
        Some(TypeView::Bool)
    } else {
        None
    }
}

/// Whether two string slices hold the same characters.
pub fn str_eq(a: &str, b: &str) -> (r: bool)
    ensures
        r == (a@ == b@),
{
    let x = String::from_str(a);
    let y = String::from_str(b);
    x == y
}

impl Type {
    /// All primitive types, in a fixed order.
    pub fn all_primitives() -> (r: Vec<Type>)
        ensures
            r@.len() == 16,
            forall|i: int| 0 <= i < r@.len() ==> !(r@[i]@ is Struct) && !(r@[i]@ is Pointer),
    {
        vec![
            Type::I8,
            Type::I16,
            Type::I32,
            Type::I64,
            Type::I128,
            Type::Isize,
            Type::U8,
            Type::U16,
            Type::U32,
            Type::U64,
            Type::U128,
            Type::Usize,
            Type::F16,
            Type::F32,
            Type::F64,
            Type::Bool,
        ]
    }

    /// The primitive type a name denotes.
    pub fn from_name(name: &str) -> (r: Option<Type>)
        ensures
            r matches Some(t) ==> type_from_name(name@) == Some(t@),
            r is None ==> type_from_name(name@) is None,
    {
        if str_eq(name, "i8") {
            Some(Type::I8)
        } else if str_eq(name, "i16") {
            Some(Type::I16)
        } else if str_eq(name, "i32") {
            Some(Type::I32)
        } else if str_eq(name, "i64") {
            Some(Type::I64)
        } else if str_eq(name, "i128") {
            Some(Type::I128)
        } else if str_eq(name, "isize") {
            Some(Type::Isize)
        } else if str_eq(name, "u8") {
            Some(Type::U8)
        } else if str_eq(name, "u16") {
            Some(Type::U16)
        } else if str_eq(name, "u32") {
            Some(Type::U32)
        } else if str_eq(name, "u64") {
            Some(Type::U64)
        } else if str_eq(name, "u128") {
            Some(Type::U128)
        } else if str_eq(name, "usize") {
            Some(Type::Usize)
        } else if str_eq(name, "f16") {
            Some(Type::F16)
        } else if str_eq(name, "f32") {
            Some(Type::F32)
        } else if str_eq(name, "f64") {
            Some(Type::F64)
        } else if str_eq(name, "bool") {
            Some(Type::Bool)
        } else {
            None
        }
    }

    /// The name of the type as the language writes it.
    pub fn name(&self) -> (r: String)
        ensures
            r@ == self@.name(),
        decreases self,
    {
        match self {
            Type::I8 => String::from_str("i8"),
            Type::I16 => String::from_str("i16"),
            Type::I32 => String::from_str("i32"),
            Type::I64 => String::from_str("i64"),
            Type::I128 => String::from_str("i128"),
            Type::Isize => String::from_str("isize"),
            Type::U8 => String::from_str("u8"),
            Type::U16 => String::from_str("u16"),
            Type::U32 => String::from_str("u32"),
            Type::U64 => String::from_str("u64"),
            Type::U128 => String::from_str("u128"),
            Type::Usize => String::from_str("usize"),
            Type::F16 => String::from_str("f16"),
            Type::F32 => String::from_str("f32"),
            Type::F64 => String::from_str("f64"),
            Type::Bool => String::from_str("bool"),
            Type::Struct(name) => name.clone(),
            Type::Pointer(inner) => {
                let mut s = String::from_str("&");
                let n = inner.name();
                s.append(n.as_str());
                s
            },
        }
    }

    /// A copy of the type with the same model.
    pub fn duplicate(&self) -> (r: Type)
        ensures
            r@ == self@,
        decreases self,
    {
        match self {
            Type::I8 => Type::I8,
            Type::I16 => Type::I16,
            Type::I32 => Type::I32,
            Type::I64 => Type::I64,
            Type::I128 => Type::I128,
            Type::Isize => Type::Isize,
            Type::U8 => Type::U8,
            Type::U16 => Type::U16,
            Type::U32 => Type::U32,
            Type::U64 => Type::U64,
            Type::U128 => Type::U128,
            Type::Usize => Type::Usize,
            Type::F16 => Type::F16,
            Type::F32 => Type::F32,
            Type::F64 => Type::F64,
            Type::Bool => Type::Bool,
            Type::Struct(name) => Type::Struct(name.clone()),
            Type::Pointer(inner) => Type::Pointer(Box::new(inner.duplicate())),
        }
    }

    pub fn is_signed_integer(&self) -> (r: bool)
        ensures
            r == self@.is_signed_integer(),
    {
        match self {
            Type::I8 | Type::I16 | Type::I32 | Type::I64 | Type::I128 | Type::Isize => true,
            _ => false,
        }
    }

    pub fn is_integer(&self) -> (r: bool)
        ensures
            r == self@.is_integer(),
    {
        match self {
            Type::I8 | Type::I16 | Type::I32 | Type::I64 | Type::I128 | Type::Isize => true,
            Type::U8 | Type::U16 | Type::U32 | Type::U64 | Type::U128 | Type::Usize => true,
            _ => false,
        }
    }

    pub fn is_float(&self) -> (r: bool)
        ensures
            r == self@.is_float(),
    {
        match self {
            Type::F16 | Type::F32 | Type::F64 => true,
            _ => false,
        }
    }

    pub fn is_bool(&self) -> (r: bool)
        ensures
            r == self@.is_bool(),
    {
        match self {
            Type::Bool => true,
            _ => false,
        }
    }

    pub fn is_struct(&self) -> (r: bool)
        ensures
            r == (self@ is Struct),
    {
        match self {
            Type::Struct(_) => true,
            _ => false,
        }
    }

    pub fn is_pointer(&self) -> (r: bool)
        ensures
            r == (self@ is Pointer),
    {
        match self {
            Type::Pointer(_) => true,
            _ => false,
        }
    }

    /// Width in bits of an integer type.
    pub fn integer_bits(&self) -> (r: Option<u32>)
        ensures
            r == self@.integer_bits(),
    {
        match self {
            Type::I8 | Type::U8 => Some(8),
            Type::I16 | Type::U16 => Some(16),
            Type::I32 | Type::U32 => Some(32),
            Type::I64 | Type::U64 | Type::Isize | Type::Usize => Some(64),
            Type::I128 | Type::U128 => Some(128),
            _ => None,
        }
    }

    /// Largest value of an integer type.
    pub fn max_integer_value(&self) -> (r: Option<u128>)
        ensures
            r == self@.max_integer_value(),
    {
        match self {
            Type::I8 => Some(0x7f),
            Type::I16 => Some(0x7fff),
            Type::I32 => Some(0x7fff_ffff),
            Type::I64 | Type::Isize => Some(0x7fff_ffff_ffff_ffff),
            Type::I128 => Some(0x7fff_ffff_ffff_ffff_ffff_ffff_ffff_ffff),
            Type::U8 => Some(0xff),
            Type::U16 => Some(0xffff),
            Type::U32 => Some(0xffff_ffff),
            Type::U64 | Type::Usize => Some(0xffff_ffff_ffff_ffff),
            Type::U128 => Some(u128::MAX),
            _ => None,
        }
    }

    /// Smallest value of an integer type (zero for the unsigned ones).
    pub fn min_integer_value(&self) -> (r: i128)
        ensures
            r == self@.min_integer_value(),
    {
        match self {
            Type::I8 => -0x80,
            Type::I16 => -0x8000,
            Type::I32 => -0x8000_0000,
            Type::I64 | Type::Isize => -0x8000_0000_0000_0000,
            Type::I128 => i128::MIN,
            _ => 0,
        }
    }
}

/// Whether two types are the same type.
pub fn type_eq(a: &Type, b: &Type) -> (r: bool)
    ensures
        r == (a@ == b@),
    decreases a,
{
    match (a, b) {
        (Type::I8, Type::I8) => true,
        (Type::I16, Type::I16) => true,
        (Type::I32, Type::I32) => true,
        (Type::I64, Type::I64) => true,
        (Type::I128, Type::I128) => true,
        (Type::Isize, Type::Isize) => true,
        (Type::U8, Type::U8) => true,
        (Type::U16, Type::U16) => true,
        (Type::U32, Type::U32) => true,
        (Type::U64, Type::U64) => true,
        (Type::U128, Type::U128) => true,
        (Type::Usize, Type::Usize) => true,
        (Type::F16, Type::F16) => true,
        (Type::F32, Type::F32) => true,
        (Type::F64, Type::F64) => true,
        (Type::Bool, Type::Bool) => true,
        (Type::Struct(x), Type::Struct(y)) => *x == *y,
        (Type::Pointer(x), Type::Pointer(y)) => type_eq(x, y),
        _ => false,
    }
}

/// A binary operator; they are listed from the loosest binding to the tightest.
#[derive(Debug, Clone, Copy, PartialEq, Eq, Structural)]
pub enum BinaryOperator {
    BoolOr,
    BoolAnd,
    Equal,
    NotEqual,
    BitOr,
    BitXor,
    BitAnd,
    ShiftLeft,
    ShiftRight,
    Add,
    Subtract,
    Multiply,
    Divide,
}

/// The symbol that writes an operator.
pub open spec fn operator_symbol(op: BinaryOperator) -> Seq<char> {
    match op {
        BinaryOperator::BoolOr => "||"@,
        BinaryOperator::BoolAnd => "&&"@,
        BinaryOperator::Equal => "=="@,
        BinaryOperator::NotEqual => "!="@,
        BinaryOperator::BitOr => "|"@,
        BinaryOperator::BitXor => "^"@,
        BinaryOperator::BitAnd => "&"@,
        BinaryOperator::ShiftLeft => "<<"@,
        BinaryOperator::ShiftRight => ">>"@,
        BinaryOperator::Add => "+"@,
        BinaryOperator::Subtract => "-"@,
        BinaryOperator::Multiply => "*"@,
        BinaryOperator::Divide => "/"@,
    }
}

pub open spec fn operator_result_is_bool(op: BinaryOperator) -> bool {
    op is BoolOr || op is BoolAnd || op is Equal || op is NotEqual
}

pub open spec fn operator_is_bitwise(op: BinaryOperator) -> bool {
    op is BitOr || op is BitXor || op is BitAnd || op is ShiftLeft || op is ShiftRight
}

impl BinaryOperator {
    pub fn symbol(&self) -> (r: String)
        ensures
            r@ == operator_symbol(*self),
    {
        match self {
            BinaryOperator::BoolOr => String::from_str("||"),
            BinaryOperator::BoolAnd => String::from_str("&&"),
            BinaryOperator::Equal => String::from_str("=="),
            BinaryOperator::NotEqual => String::from_str("!="),
            BinaryOperator::BitOr => String::from_str("|"),
            BinaryOperator::BitXor => String::from_str("^"),
            BinaryOperator::BitAnd => String::from_str("&"),
            BinaryOperator::ShiftLeft => String::from_str("<<"),
            BinaryOperator::ShiftRight => String::from_str(">>"),
            BinaryOperator::Add => String::from_str("+"),
            BinaryOperator::Subtract => String::from_str("-"),
            BinaryOperator::Multiply => String::from_str("*"),
            BinaryOperator::Divide => String::from_str("/"),
        }
    }

    pub fn result_is_bool(&self) -> (r: bool)
        ensures
            r == operator_result_is_bool(*self),
    {
        match self {
            BinaryOperator::BoolOr | BinaryOperator::BoolAnd | BinaryOperator::Equal
            | BinaryOperator::NotEqual => true,
            _ => false,
        }
    }

    pub fn is_bitwise(&self) -> (r: bool)
        ensures
            r == operator_is_bitwise(*self),
    {
        match self {
            BinaryOperator::BitOr | BinaryOperator::BitXor | BinaryOperator::BitAnd
            | BinaryOperator::ShiftLeft | BinaryOperator::ShiftRight => true,
            _ => false,
        }
    }
}

/// A call `name(arguments...)`.
#[derive(Debug, PartialEq, Eq)]
pub struct CallExpression {
    pub name: String,
    pub arguments: Vec<Expression>,
}

/// One `name: value` entry of a struct literal.
#[derive(Debug, PartialEq, Eq)]
pub struct StructLiteralField {
    pub name: String,
    pub value: Expression,
}

/// A struct literal `Name { field: value, ... }`.
#[derive(Debug, PartialEq, Eq)]
pub struct StructLiteral {
    pub name: String,
    pub fields: Vec<StructLiteralField>,
}

/// A field read `object.field`.
#[derive(Debug, PartialEq, Eq)]
pub struct FieldAccess {
    pub object: Box<Expression>,
    pub field: String,
}

/// A binary operation.
#[derive(Debug, PartialEq, Eq)]
pub struct BinaryExpression {
    pub left: Box<Expression>,
    pub operator: BinaryOperator,
    pub right: Box<Expression>,
}

/// An expression.
#[derive(Debug, PartialEq, Eq)]
pub enum Expression {
    Integer(u128),
    Float(String),
    Bool(bool),
    Variable(String),
    Call(CallExpression),
    StructLiteral(StructLiteral),
    FieldAccess(FieldAccess),
    AddressOf(Box<Expression>),
    Dereference(Box<Expression>),
    BitNot(Box<Expression>),
    Binary(BinaryExpression),
}

/// The model of an [`Expression`].
pub enum ExprView {
    Integer(u128),
    Float(Seq<char>),
    Bool(bool),
    Variable(Seq<char>),
    Call { name: Seq<char>, arguments: Seq<ExprView> },
    StructLiteral { name: Seq<char>, fields: Seq<FieldInitView> },
    FieldAccess { object: Box<ExprView>, field: Seq<char> },
    AddressOf(Box<ExprView>),
    Dereference(Box<ExprView>),
    BitNot(Box<ExprView>),
    Binary { left: Box<ExprView>, operator: BinaryOperator, right: Box<ExprView> },
}

/// The model of a [`StructLiteralField`].
pub struct FieldInitView {
    pub name: Seq<char>,
    pub value: ExprView,
}

pub open spec fn exprs_view(es: Seq<Expression>) -> Seq<ExprView>
    decreases es,
{
    if es.len() == 0 {
        Seq::empty()
    } else {
        seq![expr_view(es[0])] + exprs_view(es.drop_first())
    }
}

pub open spec fn field_inits_view(fs: Seq<StructLiteralField>) -> Seq<FieldInitView>
    decreases fs,
{
    if fs.len() == 0 {
        Seq::empty()
    } else {
        seq![FieldInitView { name: fs[0].name@, value: expr_view(fs[0].value) }]
            + field_inits_view(fs.drop_first())
    }
}

pub open spec fn expr_view(e: Expression) -> ExprView
    decreases e,
{
    match e {
        Expression::Integer(v) => ExprView::Integer(v),
        Expression::Float(t) => ExprView::Float(t@),
        Expression::Bool(b) => ExprView::Bool(b),
        Expression::Variable(n) => ExprView::Variable(n@),
        Expression::Call(c) => ExprView::Call { name: c.name@, arguments: exprs_view(c.arguments@) },
        Expression::StructLiteral(l) => ExprView::StructLiteral {
            name: l.name@,
            fields: field_inits_view(l.fields@),
        },
        Expression::FieldAccess(a) => ExprView::FieldAccess {
            object: Box::new(expr_view(*a.object)),
            field: a.field@,
        },
        Expression::AddressOf(inner) => ExprView::AddressOf(Box::new(expr_view(*inner))),
        Expression::Dereference(inner) => ExprView::Dereference(Box::new(expr_view(*inner))),
        Expression::BitNot(inner) => ExprView::BitNot(Box::new(expr_view(*inner))),
        Expression::Binary(b) => ExprView::Binary {
            left: Box::new(expr_view(*b.left)),
            operator: b.operator,
            right: Box::new(expr_view(*b.right)),
        },
    }
}

impl View for Expression {
    type V = ExprView;

    open spec fn view(&self) -> ExprView {
        expr_view(*self)
    }
}

pub proof fn lemma_exprs_view(es: Seq<Expression>)
    ensures
        exprs_view(es).len() == es.len(),
        forall|i: int| 0 <= i < es.len() ==> #[trigger] exprs_view(es)[i] == expr_view(es[i]),
    decreases es.len(),
{
    if es.len() > 0 {
        lemma_exprs_view(es.drop_first());
    }
}

pub proof fn lemma_field_inits_view(fs: Seq<StructLiteralField>)
    ensures
        field_inits_view(fs).len() == fs.len(),
        forall|i: int|
            0 <= i < fs.len() ==> #[trigger] field_inits_view(fs)[i] == (FieldInitView {
                name: fs[i].name@,
                value: expr_view(fs[i].value),
            }),
    decreases fs.len(),
{
    if fs.len() > 0 {
        lemma_field_inits_view(fs.drop_first());
    }
}

pub proof fn lemma_exprs_view_push(es: Seq<Expression>, e: Expression)
    ensures
        exprs_view(es.push(e)) == exprs_view(es).push(expr_view(e)),
    decreases es.len(),
{
    if es.len() == 0 {
        assert(es.push(e).drop_first() =~= Seq::<Expression>::empty());
        assert(exprs_view(Seq::<Expression>::empty()) == Seq::<ExprView>::empty());
        assert(es.push(e)[0] == e);
        assert(exprs_view(es.push(e)) =~= exprs_view(es).push(expr_view(e)));
    } else {
        assert(es.push(e).drop_first() =~= es.drop_first().push(e));
        lemma_exprs_view_push(es.drop_first(), e);
        assert(exprs_view(es.push(e)) =~= exprs_view(es).push(expr_view(e)));
    }
}

pub proof fn lemma_field_inits_view_push(fs: Seq<StructLiteralField>, f: StructLiteralField)
    ensures
        field_inits_view(fs.push(f)) == field_inits_view(fs).push(
            FieldInitView { name: f.name@, value: expr_view(f.value) },
        ),
    decreases fs.len(),
{
    let v = FieldInitView { name: f.name@, value: expr_view(f.value) };
    if fs.len() == 0 {
        assert(fs.push(f).drop_first() =~= Seq::<StructLiteralField>::empty());
        assert(field_inits_view(Seq::<StructLiteralField>::empty()) == Seq::<FieldInitView>::empty());
        assert(fs.push(f)[0] == f);
        assert(field_inits_view(fs.push(f)) =~= field_inits_view(fs).push(v));
    } else {
        assert(fs.push(f).drop_first() =~= fs.drop_first().push(f));
        lemma_field_inits_view_push(fs.drop_first(), f);
        assert(field_inits_view(fs.push(f)) =~= field_inits_view(fs).push(v));
    }
}

/// A struct field declaration `name: type`.
#[derive(Debug, PartialEq, Eq)]
pub struct StructField {
    pub name: String,
    pub ty: Type,
}

/// A struct declaration.
#[derive(Debug, PartialEq, Eq)]
pub struct StructDefinition {
    pub name: String,
    pub fields: Vec<StructField>,
}

/// A function parameter `name: type`.
#[derive(Debug, PartialEq, Eq)]
pub struct FunctionParameter {
    pub name: String,
    pub ty: Type,
}

/// `let name: ty = value`.
#[derive(Debug, PartialEq, Eq)]
pub struct LetStatement {
    pub name: String,
    pub ty: Type,
    pub value: Expression,
}

/// A call in statement position.
#[derive(Debug, PartialEq, Eq)]
pub struct CallStatement {
    pub name: String,
    pub arguments: Vec<Expression>,
}

/// `return value`.
#[derive(Debug, PartialEq, Eq)]
pub struct ReturnStatement {
    pub value: Expression,
}

/// `if condition { ... } else { ... }`.
#[derive(Debug, PartialEq, Eq)]
pub struct IfStatement {
    pub condition: Expression,
    pub then_block: Block,
    pub else_block: Option<Block>,
}

/// `loop { ... }`.
#[derive(Debug, PartialEq, Eq)]
pub struct LoopStatement {
    pub body: Block,
}

/// `while condition { ... }`.
#[derive(Debug, PartialEq, Eq)]
pub struct WhileStatement {
    pub condition: Expression,
    pub body: Block,
}

/// A statement.
#[derive(Debug, PartialEq, Eq)]
pub enum Statement {
    Let(LetStatement),
    Call(CallStatement),
    Return(ReturnStatement),
    If(IfStatement),
    Loop(LoopStatement),
    While(WhileStatement),
    Break,
    Continue,
}

/// A sequence of statements between braces.
#[derive(Debug, PartialEq, Eq)]
pub struct Block {
    pub statements: Vec<Statement>,
}

/// A function declaration.
#[derive(Debug, PartialEq, Eq)]
pub struct Function {
    pub name: String,
    pub parameters: Vec<FunctionParameter>,
    pub return_type: Option<Type>,
    pub body: Block,
}

/// A whole source file.
#[derive(Debug, PartialEq, Eq)]
pub struct Program {
    pub structs: Vec<StructDefinition>,
    pub functions: Vec<Function>,
}

/// The model of a [`Statement`].
pub enum StmtView {
    Let { name: Seq<char>, ty: TypeView, value: ExprView },
    Call { name: Seq<char>, arguments: Seq<ExprView> },
    Return(ExprView),
    If { condition: ExprView, then_block: Seq<StmtView>, else_block: Option<Seq<StmtView>> },
    Loop(Seq<StmtView>),
    While { condition: ExprView, body: Seq<StmtView> },
    Break,
    Continue,
}

pub open spec fn stmts_view(ss: Seq<Statement>) -> Seq<StmtView>
    decreases ss,
{
    if ss.len() == 0 {
        Seq::empty()
    } else {
        seq![stmt_view(ss[0])] + stmts_view(ss.drop_first())
    }
}

pub open spec fn stmt_view(s: Statement) -> StmtView
    decreases s,
{
    match s {
        Statement::Let(l) => StmtView::Let { name: l.name@, ty: l.ty@, value: expr_view(l.value) },
        Statement::Call(c) => StmtView::Call { name: c.name@, arguments: exprs_view(c.arguments@) },
        Statement::Return(r) => StmtView::Return(expr_view(r.value)),
        Statement::If(i) => StmtView::If {
            condition: expr_view(i.condition),
            then_block: stmts_view(i.then_block.statements@),
            else_block: match i.else_block {
                Some(b) => Some(stmts_view(b.statements@)),
                None => None,
            },
        },
        Statement::Loop(l) => StmtView::Loop(stmts_view(l.body.statements@)),
        Statement::While(w) => StmtView::While {
            condition: expr_view(w.condition),
            body: stmts_view(w.body.statements@),
        },
        Statement::Break => StmtView::Break,
        Statement::Continue => StmtView::Continue,
    }
}

impl View for Statement {
    type V = StmtView;

    open spec fn view(&self) -> StmtView {
        stmt_view(*self)
    }
}

impl View for Block {
    type V = Seq<StmtView>;

    open spec fn view(&self) -> Seq<StmtView> {
        stmts_view(self.statements@)
    }
}

pub proof fn lemma_stmts_view(ss: Seq<Statement>)
    ensures
        stmts_view(ss).len() == ss.len(),
        forall|i: int| 0 <= i < ss.len() ==> #[trigger] stmts_view(ss)[i] == stmt_view(ss[i]),
    decreases ss.len(),
{
    if ss.len() > 0 {
        lemma_stmts_view(ss.drop_first());
    }
}

pub proof fn lemma_stmts_view_push(ss: Seq<Statement>, s: Statement)
    ensures
        stmts_view(ss.push(s)) == stmts_view(ss).push(stmt_view(s)),
    decreases ss.len(),
{
    if ss.len() == 0 {
        assert(ss.push(s).drop_first() =~= Seq::<Statement>::empty());
        assert(stmts_view(Seq::<Statement>::empty()) == Seq::<StmtView>::empty());
        assert(ss.push(s)[0] == s);
        assert(stmts_view(ss.push(s)) =~= stmts_view(ss).push(stmt_view(s)));
    } else {
        assert(ss.push(s).drop_first() =~= ss.drop_first().push(s));
        lemma_stmts_view_push(ss.drop_first(), s);
        assert(stmts_view(ss.push(s)) =~= stmts_view(ss).push(stmt_view(s)));
    }
}

/// The model of a name paired with a type (a field or a parameter).
pub struct BindingView {
    pub name: Seq<char>,
    pub ty: TypeView,
}

impl View for StructField {
    type V = BindingView;

    open spec fn view(&self) -> BindingView {
        BindingView { name: self.name@, ty: self.ty@ }
    }
}

impl View for FunctionParameter {
    type V = BindingView;

    open spec fn view(&self) -> BindingView {
        BindingView { name: self.name@, ty: self.ty@ }
    }
}

/// The model of a [`StructDefinition`].
pub struct StructDefView {
    pub name: Seq<char>,
    pub fields: Seq<BindingView>,
}

impl View for StructDefinition {
    type V = StructDefView;

    open spec fn view(&self) -> StructDefView {
        StructDefView { name: self.name@, fields: self.fields@.map_values(|f: StructField| f@) }
    }
}

/// The model of a [`Function`].
pub struct FunctionView {
    pub name: Seq<char>,
    pub parameters: Seq<BindingView>,
    pub return_type: Option<TypeView>,
    pub body: Seq<StmtView>,
}

pub open spec fn option_type_view(t: Option<Type>) -> Option<TypeView> {
    match t {
        Some(t) => Some(t@),
        None => None,
    }
}

impl View for Function {
    type V = FunctionView;

    open spec fn view(&self) -> FunctionView {
        FunctionView {
            name: self.name@,
            parameters: self.parameters@.map_values(|p: FunctionParameter| p@),
            return_type: option_type_view(self.return_type),
            body: self.body@,
        }
    }
}

/// The model of a [`Program`].
pub struct ProgramView {
    pub structs: Seq<StructDefView>,
    pub functions: Seq<FunctionView>,
}

impl View for Program {
    type V = ProgramView;

    open spec fn view(&self) -> ProgramView {
        ProgramView {
            structs: self.structs@.map_values(|s: StructDefinition| s@),
            functions: self.functions@.map_values(|f: Function| f@),
        }
    }
}

} // verus!
