//! Static checks of a parsed program: declarations, types of expressions,
//! statements in their places, and that functions with a return type return.
//!
//! The model is a set of `tc_*` spec functions that follow the checks in the
//! order the checker makes them, so that the first error found is the error
//! reported.
use vstd::prelude::*;
use vstd::string::StringExecFns;
use crate::ast::{
    expr_view, exprs_view, field_inits_view, lemma_exprs_view, lemma_field_inits_view,
    lemma_stmts_view, operator_is_bitwise, operator_result_is_bool, operator_symbol,
    option_type_view, stmt_view, stmts_view, str_eq, type_eq, type_from_name, BinaryExpression,
    BinaryOperator, BindingView, ExprView, Expression, FieldInitView, Function, FunctionParameter,
    FunctionView, Program, ProgramView, Statement, StmtView, StructDefView, StructField,
    LetStatement, StructLiteralField, Type, TypeView,
};
use crate::text::{concat3, concat5, decimal, u128_to_string, usize_to_string};

verus! {

/// A program that the checker refused, with the reason.
#[derive(Debug, Clone, PartialEq, Eq)]
pub struct TypeError {
    pub message: String,
}

impl View for TypeError {
    type V = Seq<char>;

    open spec fn view(&self) -> Seq<char> {
        self.message@
    }
}

/// A declared struct: its fields in declaration order.
#[derive(Debug, PartialEq, Eq)]
pub struct CheckedStruct {
    pub fields: Vec<StructField>,
}

impl View for CheckedStruct {
    type V = Seq<BindingView>;

    open spec fn view(&self) -> Seq<BindingView> {
        self.fields@.map_values(|f: StructField| f@)
    }
}

/// The parameter types and the return type of a declared function.
#[derive(Debug, PartialEq, Eq)]
pub struct FunctionSignature {
    pub parameters: Vec<Type>,
    pub return_type: Option<Type>,
}

/// The model of a [`FunctionSignature`].
pub struct SignatureView {
    pub parameters: Seq<TypeView>,
    pub return_type: Option<TypeView>,
}

impl View for FunctionSignature {
    type V = SignatureView;

    open spec fn view(&self) -> SignatureView {
        SignatureView {
            parameters: self.parameters@.map_values(|t: Type| t@),
            return_type: option_type_view(self.return_type),
        }
    }
}

/// What checking learned of a program: its structs and its functions, each
/// under its name, in declaration order (names are distinct).
#[derive(Debug, PartialEq, Eq)]
pub struct CheckedProgram {
    pub structs: Vec<(String, CheckedStruct)>,
    pub functions: Vec<(String, FunctionSignature)>,
}

/// The model of a [`CheckedProgram`].
pub struct CheckedProgramView {
    pub structs: Seq<(Seq<char>, Seq<BindingView>)>,
    pub functions: Seq<(Seq<char>, SignatureView)>,
}

impl View for CheckedProgram {
    type V = CheckedProgramView;

    open spec fn view(&self) -> CheckedProgramView {
        CheckedProgramView { structs: structs_view(self.structs@), functions: functions_view(self.functions@) }
    }
}

pub open spec fn structs_view(structs: Seq<(String, CheckedStruct)>) -> Seq<(Seq<char>, Seq<BindingView>)> {
    structs.map_values(|e: (String, CheckedStruct)| (e.0@, e.1@))
}

pub open spec fn functions_view(functions: Seq<(String, FunctionSignature)>) -> Seq<(Seq<char>, SignatureView)> {
    functions.map_values(|e: (String, FunctionSignature)| (e.0@, e.1@))
}

/// Variables in scope: one list of bindings per block, innermost last.
pub type Scopes = Seq<Seq<BindingView>>;

pub open spec fn lookup_struct_from(structs: Seq<(Seq<char>, Seq<BindingView>)>, name: Seq<char>, i: nat) -> Option<
    Seq<BindingView>,
>
    decreases structs.len() - i,
{
    if i >= structs.len() {
        None
    } else if structs[i as int].0 == name {
        Some(structs[i as int].1)
    } else {
        lookup_struct_from(structs, name, i + 1)
    }
}

/// The fields of the first struct with this name.
pub open spec fn lookup_struct(structs: Seq<(Seq<char>, Seq<BindingView>)>, name: Seq<char>) -> Option<
    Seq<BindingView>,
> {
    lookup_struct_from(structs, name, 0)
}

pub open spec fn lookup_signature_from(functions: Seq<(Seq<char>, SignatureView)>, name: Seq<char>, i: nat) -> Option<
    SignatureView,
>
    decreases functions.len() - i,
{
    if i >= functions.len() {
        None
    } else if functions[i as int].0 == name {
        Some(functions[i as int].1)
    } else {
        lookup_signature_from(functions, name, i + 1)
    }
}

/// The signature of the first function with this name.
pub open spec fn lookup_signature(functions: Seq<(Seq<char>, SignatureView)>, name: Seq<char>) -> Option<
    SignatureView,
> {
    lookup_signature_from(functions, name, 0)
}

pub open spec fn lookup_binding_from(bindings: Seq<BindingView>, name: Seq<char>, i: nat) -> Option<TypeView>
    decreases bindings.len() - i,
{
    if i >= bindings.len() {
        None
    } else if bindings[i as int].name == name {
        Some(bindings[i as int].ty)
    } else {
        lookup_binding_from(bindings, name, i + 1)
    }
}

/// The type of the first binding with this name.
pub open spec fn lookup_binding(bindings: Seq<BindingView>, name: Seq<char>) -> Option<TypeView> {
    lookup_binding_from(bindings, name, 0)
}

/// The type of a variable, searched from the innermost scope `k - 1` outwards.
pub open spec fn lookup_variable_in(scopes: Scopes, name: Seq<char>, k: nat) -> Option<TypeView>
    decreases k,
{
    if k == 0 || k > scopes.len() {
        None
    } else {
        match lookup_binding(scopes[k - 1], name) {
            Some(t) => Some(t),
            None => lookup_variable_in(scopes, name, (k - 1) as nat),
        }
    }
}

pub open spec fn lookup_variable(scopes: Scopes, name: Seq<char>) -> Option<TypeView> {
    lookup_variable_in(scopes, name, scopes.len())
}

pub open spec fn msg_cannot_use(actual: TypeView, expected: TypeView) -> Seq<char> {
    "cannot use `"@ + actual.name() + "` value as `"@ + expected.name() + "`"@
}

pub open spec fn tc_expect(actual: TypeView, expected: TypeView) -> Result<TypeView, Seq<char>> {
    if actual == expected {
        Ok(actual)
    } else {
        Err(msg_cannot_use(actual, expected))
    }
}

pub open spec fn tc_expect_optional(actual: TypeView, expected: Option<TypeView>) -> Result<
    TypeView,
    Seq<char>,
> {
    match expected {
        Some(e) => tc_expect(actual, e),
        None => Ok(actual),
    }
}

/// A struct type must be declared; pointers are checked through.
pub open spec fn tc_declared(env: CheckedProgramView, ty: TypeView) -> Result<(), Seq<char>>
    decreases ty,
{
    match ty {
        TypeView::Struct(name) => if lookup_struct(env.structs, name) is None {
            Err("unknown type `"@ + name + "`"@)
        } else {
            Ok(())
        },
        TypeView::Pointer(inner) => tc_declared(env, *inner),
        _ => Ok(()),
    }
}

pub open spec fn tc_integer_literal(value: u128, ty: TypeView) -> Result<(), Seq<char>> {
    if !ty.is_integer() {
        Err("cannot assign integer literal to `"@ + ty.name() + "`"@)
    } else if value > ty.max_integer_value().unwrap() {
        Err("integer literal `"@ + decimal(value as nat) + "` does not fit in `"@ + ty.name() + "`"@)
    } else {
        Ok(())
    }
}

pub open spec fn is_untyped_literal(e: ExprView) -> bool {
    e is Integer || e is Float
}

pub open spec fn is_builtin_name(name: Seq<char>) -> bool {
    name == "println"@ || name == "alloc"@ || name == "dealloc"@
}

/// The type of an expression, against an optional expected type.
pub open spec fn tc_expr(env: CheckedProgramView, scopes: Scopes, e: ExprView, expected: Option<TypeView>) -> Result<
    TypeView,
    Seq<char>,
>
    decreases e, 10int,
{
    match e {
        ExprView::Integer(v) => {
            let ty = match expected {
                Some(t) => t,
                None => TypeView::I32,
            };
            match tc_integer_literal(v, ty) {
                Err(m) => Err(m),
                Ok(_) => Ok(ty),
            }
        },
        ExprView::Float(_) => {
            let ty = match expected {
                Some(t) => t,
                None => TypeView::F64,
            };
            if ty.is_float() {
                Ok(ty)
            } else {
                Err("cannot assign float literal to `"@ + ty.name() + "`"@)
            }
        },
        ExprView::Bool(_) => {
            let ty = match expected {
                Some(t) => t,
                None => TypeView::Bool,
            };
            tc_expect(TypeView::Bool, ty)
        },
        ExprView::Variable(name) => match lookup_variable(scopes, name) {
            None => Err("variable `"@ + name + "` not found"@),
            Some(ty) => tc_expect_optional(ty, expected),
        },
        ExprView::Call { name, arguments } => tc_call(env, scopes, name, arguments, expected),
        ExprView::StructLiteral { name, fields } => tc_struct_literal(env, scopes, name, fields, expected),
        ExprView::FieldAccess { object, field } => match tc_expr(env, scopes, *object, None) {
            Err(m) => Err(m),
            Ok(object_ty) => match tc_struct_of(object_ty, field) {
                Err(m) => Err(m),
                Ok(struct_name) => match tc_field_type(env, struct_name, field) {
                    Err(m) => Err(m),
                    Ok(ty) => tc_expect_optional(ty, expected),
                },
            },
        },
        ExprView::AddressOf(inner) => match expected {
            Some(TypeView::Pointer(target)) => match tc_expr_as(env, scopes, *inner, *target) {
                Err(m) => Err(m),
                Ok(_) => Ok(TypeView::Pointer(target)),
            },
            _ => match tc_expr(env, scopes, *inner, None) {
                Err(m) => Err(m),
                Ok(ty) => Ok(TypeView::Pointer(Box::new(ty))),
            },
        },
        ExprView::Dereference(inner) => match tc_expr(env, scopes, *inner, None) {
            Err(m) => Err(m),
            Ok(ty) => match ty {
                TypeView::Pointer(target) => tc_expect_optional(*target, expected),
                _ => Err("cannot dereference `"@ + ty.name() + "`"@),
            },
        },
        ExprView::BitNot(inner) => {
            let operand = match expected {
                Some(t) => if t.is_bool() || t.is_integer() {
                    tc_expr_as(env, scopes, *inner, t)
                } else {
                    Err("operator `!` cannot be used with `"@ + t.name() + "`"@)
                },
                None => tc_expr(env, scopes, *inner, None),
            };
            match operand {
                Err(m) => Err(m),
                Ok(ty) => if ty.is_bool() || ty.is_integer() {
                    Ok(ty)
                } else {
                    Err("operator `!` cannot be used with `"@ + ty.name() + "`"@)
                },
            }
        },
        ExprView::Binary { .. } => tc_binary(env, scopes, e, expected),
    }
}

/// The struct whose field an object of this type gives access to.
pub open spec fn tc_struct_of(object_ty: TypeView, field: Seq<char>) -> Result<Seq<char>, Seq<char>> {
    match object_ty {
        TypeView::Struct(name) => Ok(name),
        TypeView::Pointer(inner) => match *inner {
            TypeView::Struct(name) => Ok(name),
            t => Err("cannot access field `"@ + field + "` on `&"@ + t.name() + "`"@),
        },
        t => Err("cannot access field `"@ + field + "` on `"@ + t.name() + "`"@),
    }
}

/// The declared type of a field of a struct.
pub open spec fn tc_field_type(env: CheckedProgramView, struct_name: Seq<char>, field: Seq<char>) -> Result<
    TypeView,
    Seq<char>,
> {
    match lookup_struct(env.structs, struct_name) {
        Some(fields) => match lookup_binding(fields, field) {
            Some(t) => Ok(t),
            None => Err("unknown field `"@ + field + "` in `"@ + struct_name + "`"@),
        },
        None => Err("unknown field `"@ + field + "` in `"@ + struct_name + "`"@),
    }
}

/// The type of an expression that must have the given type.
pub open spec fn tc_expr_as(env: CheckedProgramView, scopes: Scopes, e: ExprView, expected: TypeView) -> Result<
    TypeView,
    Seq<char>,
>
    decreases e, 11int,
{
    match tc_expr(env, scopes, e, Some(expected)) {
        Err(m) => Err(m),
        Ok(actual) => tc_expect(actual, expected),
    }
}

pub open spec fn msg_operator_misuse(operator: BinaryOperator, ty: TypeView) -> Seq<char> {
    "operator `"@ + operator_symbol(operator) + "` cannot be used with `"@ + ty.name() + "`"@
}

/// The type of a binary expression.
pub open spec fn tc_binary(env: CheckedProgramView, scopes: Scopes, e: ExprView, expected: Option<TypeView>) -> Result<
    TypeView,
    Seq<char>,
>
    decreases e, 9int,
{
    match e {
        ExprView::Binary { left, operator, right } => if operator is BoolAnd || operator is BoolOr {
            match tc_expr_as(env, scopes, *left, TypeView::Bool) {
                Err(m) => Err(m),
                Ok(_) => match tc_expr_as(env, scopes, *right, TypeView::Bool) {
                    Err(m) => Err(m),
                    Ok(_) => tc_expect_optional(TypeView::Bool, expected),
                },
            }
        } else {
            let target = if operator is Equal || operator is NotEqual {
                tc_infer(env, scopes, e, None)
            } else {
                tc_infer(env, scopes, e, expected)
            };
            match target {
                Err(m) => Err(m),
                Ok(target) => {
                    let allowed = if operator is Equal || operator is NotEqual {
                        true
                    } else if operator_is_bitwise(operator) {
                        target.is_integer()
                    } else {
                        target.is_integer() || target.is_float()
                    };
                    if !allowed {
                        Err(msg_operator_misuse(operator, target))
                    } else {
                        match tc_expr_as(env, scopes, *left, target) {
                            Err(m) => Err(m),
                            Ok(_) => match tc_expr_as(env, scopes, *right, target) {
                                Err(m) => Err(m),
                                Ok(_) => if operator is Equal || operator is NotEqual {
                                    tc_expect_optional(TypeView::Bool, expected)
                                } else {
                                    Ok(target)
                                },
                            },
                        }
                    }
                },
            }
        },
        _ => Err(Seq::empty()),
    }
}

/// The operand type of a binary expression: the expected type for operators
/// whose result is not a bool, else the type of the first operand that is
/// not an untyped literal.
pub open spec fn tc_infer(env: CheckedProgramView, scopes: Scopes, e: ExprView, expected: Option<TypeView>) -> Result<
    TypeView,
    Seq<char>,
>
    decreases e, 8int,
{
    match e {
        ExprView::Binary { left, operator, right } => if expected is Some
            && !operator_result_is_bool(operator) {
            Ok(expected.unwrap())
        } else if is_untyped_literal(*left) && !is_untyped_literal(*right) {
            tc_expr(env, scopes, *right, None)
        } else {
            tc_expr(env, scopes, *left, None)
        },
        _ => Err(Seq::empty()),
    }
}

/// The type of a call used as a value.
pub open spec fn tc_call(
    env: CheckedProgramView,
    scopes: Scopes,
    name: Seq<char>,
    arguments: Seq<ExprView>,
    expected: Option<TypeView>,
) -> Result<TypeView, Seq<char>>
    decreases arguments, 9int,
{
    if name == "println"@ {
        Err("function `println` does not return a value"@)
    } else if name == "dealloc"@ {
        Err("function `dealloc` does not return a value"@)
    } else if name == "alloc"@ {
        tc_alloc(env, scopes, arguments, expected)
    } else {
        match tc_user_call(env, scopes, name, arguments) {
            Err(m) => Err(m),
            Ok(signature) => match signature.return_type {
                None => Err("function `"@ + name + "` does not return a value"@),
                Some(rt) => tc_expect_optional(rt, expected),
            },
        }
    }
}

pub open spec fn msg_argument_count(name: Seq<char>, count: nat) -> Seq<char> {
    "function `"@ + name + "` expects "@ + decimal(count) + " argument(s)"@
}

/// A call of a declared function: its signature, once the arguments check.
pub open spec fn tc_user_call(env: CheckedProgramView, scopes: Scopes, name: Seq<char>, arguments: Seq<ExprView>) -> Result<
    SignatureView,
    Seq<char>,
>
    decreases arguments, 8int,
{
    match lookup_signature(env.functions, name) {
        None => Err("unknown function `"@ + name + "`"@),
        Some(signature) => if signature.parameters.len() != arguments.len() {
            Err(msg_argument_count(name, signature.parameters.len()))
        } else {
            match tc_arguments(env, scopes, arguments, signature.parameters) {
                Err(m) => Err(m),
                Ok(_) => Ok(signature),
            }
        },
    }
}

/// Each argument against its parameter type, in order.
pub open spec fn tc_arguments(env: CheckedProgramView, scopes: Scopes, arguments: Seq<ExprView>, parameters: Seq<TypeView>) -> Result<
    (),
    Seq<char>,
>
    decreases arguments, 7int,
{
    if arguments.len() == 0 || parameters.len() == 0 {
        Ok(())
    } else {
        match tc_expr_as(env, scopes, arguments[0], parameters[0]) {
            Err(m) => Err(m),
            Ok(_) => tc_arguments(env, scopes, arguments.drop_first(), parameters.drop_first()),
        }
    }
}

/// `alloc(value)`: a pointer to the value's type.
pub open spec fn tc_alloc(env: CheckedProgramView, scopes: Scopes, arguments: Seq<ExprView>, expected: Option<TypeView>) -> Result<
    TypeView,
    Seq<char>,
>
    decreases arguments, 8int,
{
    if arguments.len() != 1 {
        Err("function `alloc` expects 1 argument"@)
    } else {
        match expected {
            Some(TypeView::Pointer(target)) => match tc_expr_as(env, scopes, arguments[0], *target) {
                Err(m) => Err(m),
                Ok(_) => Ok(TypeView::Pointer(target)),
            },
            Some(_) => Err("function `alloc` returns a pointer"@),
            None => match tc_expr(env, scopes, arguments[0], None) {
                Err(m) => Err(m),
                Ok(ty) => Ok(TypeView::Pointer(Box::new(ty))),
            },
        }
    }
}

/// The name of the first declared field not among the initialized names.
pub open spec fn first_missing_field(fields: Seq<BindingView>, initialized: Seq<Seq<char>>, i: nat) -> Option<
    Seq<char>,
>
    decreases fields.len() - i,
{
    if i >= fields.len() {
        None
    } else if !initialized.contains(fields[i as int].name) {
        Some(fields[i as int].name)
    } else {
        first_missing_field(fields, initialized, i + 1)
    }
}

/// A struct literal: the declared struct, each given field once, all fields given.
pub open spec fn tc_struct_literal(
    env: CheckedProgramView,
    scopes: Scopes,
    name: Seq<char>,
    fields: Seq<FieldInitView>,
    expected: Option<TypeView>,
) -> Result<TypeView, Seq<char>>
    decreases fields, 9int,
{
    let ty = match expected {
        Some(TypeView::Struct(expected_name)) => if expected_name != name {
            Err("cannot use `"@ + name + "` value as `"@ + expected_name + "`"@)
        } else {
            Ok(TypeView::Struct(expected_name))
        },
        Some(other) => Err("cannot use `"@ + name + "` value as `"@ + other.name() + "`"@),
        None => Ok(TypeView::Struct(name)),
    };
    match ty {
        Err(m) => Err(m),
        Ok(ty) => match lookup_struct(env.structs, name) {
            None => Err("unknown struct `"@ + name + "`"@),
            Some(definition) => match tc_field_inits(env, scopes, name, definition, fields, Seq::empty()) {
                Err(m) => Err(m),
                Ok(initialized) => match first_missing_field(definition, initialized, 0) {
                    Some(missing) => Err("missing field `"@ + missing + "` in `"@ + name + "`"@),
                    None => Ok(ty),
                },
            },
        },
    }
}

/// The given fields of a struct literal, in order, after the names `initialized`.
pub open spec fn tc_field_inits(
    env: CheckedProgramView,
    scopes: Scopes,
    literal: Seq<char>,
    definition: Seq<BindingView>,
    fields: Seq<FieldInitView>,
    initialized: Seq<Seq<char>>,
) -> Result<Seq<Seq<char>>, Seq<char>>
    decreases fields, 7int,
{
    if fields.len() == 0 {
        Ok(initialized)
    } else {
        let field = fields[0];
        if initialized.contains(field.name) {
            Err("field `"@ + field.name + "` is already initialized in `"@ + literal + "`"@)
        } else {
            match lookup_binding(definition, field.name) {
                None => Err("unknown field `"@ + field.name + "` in `"@ + literal + "`"@),
                Some(field_ty) => match tc_expr_as(env, scopes, field.value, field_ty) {
                    Err(m) => Err(m),
                    Ok(_) => tc_field_inits(
                        env,
                        scopes,
                        literal,
                        definition,
                        fields.drop_first(),
                        initialized.push(field.name),
                    ),
                },
            }
        }
    }
}

/// A call in statement position.
pub open spec fn tc_call_statement(env: CheckedProgramView, scopes: Scopes, name: Seq<char>, arguments: Seq<ExprView>) -> Result<
    (),
    Seq<char>,
> {
    if name == "println"@ {
        if arguments.len() != 1 {
            Err("function `println` expects 1 argument"@)
        } else {
            match tc_expr(env, scopes, arguments[0], None) {
                Err(m) => Err(m),
                Ok(_) => Ok(()),
            }
        }
    } else if name == "dealloc"@ {
        if arguments.len() != 1 {
            Err("function `dealloc` expects 1 argument"@)
        } else {
            match tc_expr(env, scopes, arguments[0], None) {
                Err(m) => Err(m),
                Ok(ty) => if ty is Pointer {
                    Ok(())
                } else {
                    Err("function `dealloc` expects pointer, found `"@ + ty.name() + "`"@)
                },
            }
        }
    } else if name == "alloc"@ {
        match tc_call(env, scopes, name, arguments, None) {
            Err(m) => Err(m),
            Ok(_) => Ok(()),
        }
    } else {
        match tc_user_call(env, scopes, name, arguments) {
            Err(m) => Err(m),
            Ok(_) => Ok(()),
        }
    }
}

/// `let name: ty = value`: the variable joins the innermost scope.
pub open spec fn tc_let(env: CheckedProgramView, scopes: Scopes, name: Seq<char>, ty: TypeView, value: ExprView) -> Result<
    Scopes,
    Seq<char>,
> {
    match tc_declared(env, ty) {
        Err(m) => Err(m),
        Ok(_) => match tc_expr_as(env, scopes, value, ty) {
            Err(m) => Err(m),
            Ok(_) => if scopes.len() == 0 {
                Err(Seq::empty())
            } else if lookup_binding(scopes.last(), name) is Some {
                Err("variable `"@ + name + "` is already defined in this scope"@)
            } else {
                Ok(scopes.update(scopes.len() - 1, scopes.last().push(BindingView { name, ty })))
            },
        },
    }
}

/// A statement; a `let` adds its variable to the innermost scope.
pub open spec fn tc_statement(
    env: CheckedProgramView,
    return_type: Option<TypeView>,
    scopes: Scopes,
    s: StmtView,
    in_loop: bool,
) -> Result<Scopes, Seq<char>>
    decreases s, 2int,
{
    match s {
        StmtView::Let { name, ty, value } => tc_let(env, scopes, name, ty, value),
        StmtView::Call { name, arguments } => match tc_call_statement(env, scopes, name, arguments) {
            Err(m) => Err(m),
            Ok(_) => Ok(scopes),
        },
        StmtView::Return(value) => match return_type {
            None => Err("cannot return a value from function without return type"@),
            Some(rt) => match tc_expr_as(env, scopes, value, rt) {
                Err(m) => Err(m),
                Ok(_) => Ok(scopes),
            },
        },
        StmtView::If { condition, then_block, else_block } => match tc_expr_as(
            env,
            scopes,
            condition,
            TypeView::Bool,
        ) {
            Err(m) => Err(m),
            Ok(_) => match tc_block(env, return_type, scopes, then_block, in_loop) {
                Err(m) => Err(m),
                Ok(_) => match else_block {
                    Some(b) => match tc_block(env, return_type, scopes, b, in_loop) {
                        Err(m) => Err(m),
                        Ok(_) => Ok(scopes),
                    },
                    None => Ok(scopes),
                },
            },
        },
        StmtView::Loop(body) => match tc_block(env, return_type, scopes, body, true) {
            Err(m) => Err(m),
            Ok(_) => Ok(scopes),
        },
        StmtView::While { condition, body } => match tc_expr_as(env, scopes, condition, TypeView::Bool) {
            Err(m) => Err(m),
            Ok(_) => match tc_block(env, return_type, scopes, body, true) {
                Err(m) => Err(m),
                Ok(_) => Ok(scopes),
            },
        },
        StmtView::Break => if !in_loop {
            Err("cannot `break` outside loop"@)
        } else {
            Ok(scopes)
        },
        StmtView::Continue => if !in_loop {
            Err("cannot `continue` outside loop"@)
        } else {
            Ok(scopes)
        },
    }
}

/// A block, in a fresh innermost scope.
pub open spec fn tc_block(
    env: CheckedProgramView,
    return_type: Option<TypeView>,
    scopes: Scopes,
    statements: Seq<StmtView>,
    in_loop: bool,
) -> Result<(), Seq<char>>
    decreases statements, 1int,
{
    match tc_statements(env, return_type, scopes.push(Seq::empty()), statements, in_loop) {
        Err(m) => Err(m),
        Ok(_) => Ok(()),
    }
}

/// Statements in order.
pub open spec fn tc_statements(
    env: CheckedProgramView,
    return_type: Option<TypeView>,
    scopes: Scopes,
    statements: Seq<StmtView>,
    in_loop: bool,
) -> Result<Scopes, Seq<char>>
    decreases statements, 0int,
{
    if statements.len() == 0 {
        Ok(scopes)
    } else {
        match tc_statement(env, return_type, scopes, statements[0], in_loop) {
            Err(m) => Err(m),
            Ok(next) => tc_statements(env, return_type, next, statements.drop_first(), in_loop),
        }
    }
}

/// Whether every path through a statement returns.
pub open spec fn statement_returns(s: StmtView) -> bool
    decreases s, 1int,
{
    match s {
        StmtView::Return(_) => true,
        StmtView::If { then_block, else_block, .. } => match else_block {
            Some(b) => block_returns(then_block) && block_returns(b),
            None => false,
        },
        StmtView::Loop(body) => block_returns(body),
        _ => false,
    }
}

/// Whether some statement of the block returns on every path.
pub open spec fn block_returns(statements: Seq<StmtView>) -> bool
    decreases statements, 0int,
{
    if statements.len() == 0 {
        false
    } else {
        statement_returns(statements[0]) || block_returns(statements.drop_first())
    }
}

/// The parameters of a function, in order, into one scope.
pub open spec fn tc_parameters(env: CheckedProgramView, parameters: Seq<BindingView>, i: nat, scope: Seq<BindingView>) -> Result<
    Seq<BindingView>,
    Seq<char>,
>
    decreases parameters.len() - i,
{
    if i >= parameters.len() {
        Ok(scope)
    } else {
        let p = parameters[i as int];
        match tc_declared(env, p.ty) {
            Err(m) => Err(m),
            Ok(_) => if lookup_binding(scope, p.name) is Some {
                Err("parameter `"@ + p.name + "` is already defined"@)
            } else {
                tc_parameters(env, parameters, i + 1, scope.push(p))
            },
        }
    }
}

/// A function: parameters, return type, body, and that it returns when it must.
pub open spec fn tc_function(env: CheckedProgramView, f: FunctionView) -> Result<(), Seq<char>> {
    match tc_parameters(env, f.parameters, 0, Seq::empty()) {
        Err(m) => Err(m),
        Ok(scope) => {
            let declared = match f.return_type {
                Some(rt) => tc_declared(env, rt),
                None => Ok(()),
            };
            match declared {
                Err(m) => Err(m),
                Ok(_) => match tc_block(env, f.return_type, seq![scope], f.body, false) {
                    Err(m) => Err(m),
                    Ok(_) => if f.return_type is Some && !block_returns(f.body) {
                        Err(
                            "function `"@ + f.name + "` must return `"@ + f.return_type.unwrap().name()
                                + "`"@,
                        )
                    } else {
                        Ok(())
                    },
                },
            }
        },
    }
}

/// Whether the binding at `i` repeats the name of an earlier binding.
pub open spec fn repeats_earlier_name(bindings: Seq<BindingView>, i: int) -> bool {
    exists|k: int| 0 <= k < i && bindings[k].name == bindings[i].name
}

/// The name of the first binding, in order, that repeats an earlier name.
pub open spec fn first_duplicate_binding(bindings: Seq<BindingView>, i: nat) -> Option<Seq<char>>
    decreases bindings.len() - i,
{
    if i >= bindings.len() {
        None
    } else if repeats_earlier_name(bindings, i as int) {
        Some(bindings[i as int].name)
    } else {
        first_duplicate_binding(bindings, i + 1)
    }
}

/// The struct declarations from index `i` on, added to `acc`.
pub open spec fn tc_collect_structs(structs: Seq<StructDefView>, i: nat, acc: Seq<(Seq<char>, Seq<BindingView>)>) -> Result<
    Seq<(Seq<char>, Seq<BindingView>)>,
    Seq<char>,
>
    decreases structs.len() - i,
{
    if i >= structs.len() {
        Ok(acc)
    } else {
        let s = structs[i as int];
        if type_from_name(s.name) is Some {
            Err("cannot define primitive type `"@ + s.name + "`"@)
        } else if lookup_struct(acc, s.name) is Some {
            Err("struct `"@ + s.name + "` is already defined"@)
        } else {
            match first_duplicate_binding(s.fields, 0) {
                Some(field) => Err(
                    "field `"@ + field + "` is already defined in struct `"@ + s.name + "`"@,
                ),
                None => tc_collect_structs(structs, i + 1, acc.push((s.name, s.fields))),
            }
        }
    }
}

pub open spec fn signature_of(f: FunctionView) -> SignatureView {
    SignatureView {
        parameters: f.parameters.map_values(|b: BindingView| b.ty),
        return_type: f.return_type,
    }
}

/// The function declarations from index `i` on, added to `acc`.
pub open spec fn tc_collect_functions(functions: Seq<FunctionView>, i: nat, acc: Seq<(Seq<char>, SignatureView)>) -> Result<
    Seq<(Seq<char>, SignatureView)>,
    Seq<char>,
>
    decreases functions.len() - i,
{
    if i >= functions.len() {
        Ok(acc)
    } else {
        let f = functions[i as int];
        if is_builtin_name(f.name) {
            Err("cannot define builtin function `"@ + f.name + "`"@)
        } else if lookup_signature(acc, f.name) is Some {
            Err("function `"@ + f.name + "` is already defined"@)
        } else {
            tc_collect_functions(functions, i + 1, acc.push((f.name, signature_of(f))))
        }
    }
}

/// The field types of the struct declarations from index `i` on.
pub open spec fn tc_struct_field_types(env: CheckedProgramView, structs: Seq<StructDefView>, i: nat, j: nat) -> Result<
    (),
    Seq<char>,
>
    decreases structs.len() - i, if i < structs.len() { structs[i as int].fields.len() - j } else { 0 },
{
    if i >= structs.len() {
        Ok(())
    } else if j >= structs[i as int].fields.len() {
        tc_struct_field_types(env, structs, i + 1, 0)
    } else {
        match tc_declared(env, structs[i as int].fields[j as int].ty) {
            Err(m) => Err(m),
            Ok(_) => tc_struct_field_types(env, structs, i, j + 1),
        }
    }
}

/// The function bodies from index `i` on.
pub open spec fn tc_functions(env: CheckedProgramView, functions: Seq<FunctionView>, i: nat) -> Result<
    (),
    Seq<char>,
>
    decreases functions.len() - i,
{
    if i >= functions.len() {
        Ok(())
    } else {
        match tc_function(env, functions[i as int]) {
            Err(m) => Err(m),
            Ok(_) => tc_functions(env, functions, i + 1),
        }
    }
}

/// The outcome of checking a program.
pub open spec fn spec_check_program(p: ProgramView) -> Result<CheckedProgramView, Seq<char>> {
    match tc_collect_structs(p.structs, 0, Seq::empty()) {
        Err(m) => Err(m),
        Ok(structs) => match tc_collect_functions(p.functions, 0, Seq::empty()) {
            Err(m) => Err(m),
            Ok(functions) => {
                let env = CheckedProgramView { structs, functions };
                match tc_struct_field_types(env, p.structs, 0, 0) {
                    Err(m) => Err(m),
                    Ok(_) => match tc_functions(env, p.functions, 0) {
                        Err(m) => Err(m),
                        Ok(_) => Ok(env),
                    },
                }
            },
        },
    }
}



// ---------------------------------------------------------------------------
// The checker.
// ---------------------------------------------------------------------------

/// A variable in scope: its name and declared type.
#[derive(Debug, PartialEq, Eq)]
pub struct Variable {
    pub name: String,
    pub ty: Type,
}

impl View for Variable {
    type V = BindingView;

    open spec fn view(&self) -> BindingView {
        BindingView { name: self.name@, ty: self.ty@ }
    }
}

pub open spec fn scope_view(scope: Seq<Variable>) -> Seq<BindingView> {
    scope.map_values(|v: Variable| v@)
}

pub open spec fn scopes_view(scopes: Seq<Vec<Variable>>) -> Scopes {
    scopes.map_values(|s: Vec<Variable>| scope_view(s@))
}

pub open spec fn fields_view(fields: Seq<StructField>) -> Seq<BindingView> {
    fields.map_values(|f: StructField| f@)
}

pub open spec fn names_view(names: Seq<String>) -> Seq<Seq<char>> {
    names.map_values(|n: String| n@)
}

pub open spec fn optional_view(t: Option<&Type>) -> Option<TypeView> {
    match t {
        Some(t) => Some(t@),
        None => None,
    }
}

pub open spec fn type_result(r: Result<Type, TypeError>) -> Result<TypeView, Seq<char>> {
    match r {
        Ok(t) => Ok(t@),
        Err(e) => Err(e@),
    }
}

pub open spec fn unit_result(r: Result<(), TypeError>) -> Result<(), Seq<char>> {
    match r {
        Ok(_) => Ok(()),
        Err(e) => Err(e@),
    }
}

/// The model of the checker's answer for a whole program.
pub open spec fn checked_result(r: Result<CheckedProgram, TypeError>) -> Result<
    CheckedProgramView,
    Seq<char>,
> {
    match r {
        Ok(c) => Ok(c@),
        Err(e) => Err(e@),
    }
}

fn type_error(message: String) -> (e: TypeError)
    ensures
        e@ == message@,
{
    TypeError { message }
}

fn cannot_use_message(actual: &Type, expected: &Type) -> (m: String)
    ensures
        m@ == msg_cannot_use(actual@, expected@),
{
    let a = actual.name();
    let b = expected.name();
    concat5("cannot use `", a.as_str(), "` value as `", b.as_str(), "`")
}

fn expect_type(actual: &Type, expected: &Type) -> (r: Result<Type, TypeError>)
    ensures
        type_result(r) == tc_expect(actual@, expected@),
{
    if type_eq(actual, expected) {
        Ok(actual.duplicate())
    } else {
        Err(type_error(cannot_use_message(actual, expected)))
    }
}

fn expect_optional_type(actual: &Type, expected: Option<&Type>) -> (r: Result<Type, TypeError>)
    ensures
        type_result(r) == tc_expect_optional(actual@, optional_view(expected)),
{
    match expected {
        Some(e) => expect_type(actual, e),
        None => Ok(actual.duplicate()),
    }
}

fn find_struct<'a>(structs: &'a Vec<(String, CheckedStruct)>, name: &String) -> (r: Option<
    &'a CheckedStruct,
>)
    ensures
        match r {
            Some(s) => lookup_struct(structs_view(structs@), name@) == Some(s@),
            None => lookup_struct(structs_view(structs@), name@) is None,
        },
{
    let mut i: usize = 0;
    while i < structs.len()
        invariant
            i <= structs@.len(),
            lookup_struct(structs_view(structs@), name@) == lookup_struct_from(
                structs_view(structs@),
                name@,
                i as nat,
            ),
        decreases structs@.len() - i,
    {
        if structs[i].0 == *name {
            return Some(&structs[i].1);
        }
        i = i + 1;
    }
    None
}

fn find_signature<'a>(functions: &'a Vec<(String, FunctionSignature)>, name: &String) -> (r: Option<
    &'a FunctionSignature,
>)
    ensures
        match r {
            Some(s) => lookup_signature(functions_view(functions@), name@) == Some(s@),
            None => lookup_signature(functions_view(functions@), name@) is None,
        },
{
    let mut i: usize = 0;
    while i < functions.len()
        invariant
            i <= functions@.len(),
            lookup_signature(functions_view(functions@), name@) == lookup_signature_from(
                functions_view(functions@),
                name@,
                i as nat,
            ),
        decreases functions@.len() - i,
    {
        if functions[i].0 == *name {
            return Some(&functions[i].1);
        }
        i = i + 1;
    }
    None
}

fn find_field<'a>(fields: &'a Vec<StructField>, name: &String) -> (r: Option<&'a Type>)
    ensures
        match r {
            Some(t) => lookup_binding(fields_view(fields@), name@) == Some(t@),
            None => lookup_binding(fields_view(fields@), name@) is None,
        },
{
    let mut i: usize = 0;
    while i < fields.len()
        invariant
            i <= fields@.len(),
            lookup_binding(fields_view(fields@), name@) == lookup_binding_from(
                fields_view(fields@),
                name@,
                i as nat,
            ),
        decreases fields@.len() - i,
    {
        if fields[i].name == *name {
            return Some(&fields[i].ty);
        }
        i = i + 1;
    }
    None
}

fn find_variable<'a>(scope: &'a Vec<Variable>, name: &String) -> (r: Option<&'a Type>)
    ensures
        match r {
            Some(t) => lookup_binding(scope_view(scope@), name@) == Some(t@),
            None => lookup_binding(scope_view(scope@), name@) is None,
        },
{
    let mut i: usize = 0;
    while i < scope.len()
        invariant
            i <= scope@.len(),
            lookup_binding(scope_view(scope@), name@) == lookup_binding_from(
                scope_view(scope@),
                name@,
                i as nat,
            ),
        decreases scope@.len() - i,
    {
        if scope[i].name == *name {
            return Some(&scope[i].ty);
        }
        i = i + 1;
    }
    None
}

fn contains_name(names: &Vec<String>, name: &String) -> (r: bool)
    ensures
        r == names_view(names@).contains(name@),
{
    let mut i: usize = 0;
    while i < names.len()
        invariant
            i <= names@.len(),
            forall|k: int| 0 <= k < i ==> names_view(names@)[k] != name@,
        decreases names@.len() - i,
    {
        if names[i] == *name {
            assert(names_view(names@)[i as int] == name@);
            return true;
        }
        i = i + 1;
    }
    false
}

fn variable_type(scopes: &Vec<Vec<Variable>>, name: &String) -> (r: Result<Type, TypeError>)
    ensures
        type_result(r) == match lookup_variable(scopes_view(scopes@), name@) {
            Some(t) => Ok(t),
            None => Err("variable `"@ + name@ + "` not found"@),
        },
{
    let mut k: usize = scopes.len();
    while k > 0
        invariant
            k <= scopes@.len(),
            lookup_variable(scopes_view(scopes@), name@) == lookup_variable_in(
                scopes_view(scopes@),
                name@,
                k as nat,
            ),
        decreases k,
    {
        if let Some(t) = find_variable(&scopes[k - 1], name) {
            return Ok(t.duplicate());
        }
        k = k - 1;
    }
    Err(type_error(concat3("variable `", name.as_str(), "` not found")))
}

pub(crate) fn check_declared_type(env: &CheckedProgram, ty: &Type) -> (r: Result<(), TypeError>)
    ensures
        unit_result(r) == tc_declared(env@, ty@),
    decreases ty,
{
    match ty {
        Type::Struct(name) => {
            if find_struct(&env.structs, name).is_none() {
                Err(type_error(concat3("unknown type `", name.as_str(), "`")))
            } else {
                Ok(())
            }
        },
        Type::Pointer(inner) => check_declared_type(env, inner),
        _ => Ok(()),
    }
}

fn check_integer_literal(value: u128, ty: &Type) -> (r: Result<(), TypeError>)
    ensures
        unit_result(r) == tc_integer_literal(value, ty@),
{
    let name = ty.name();
    if !ty.is_integer() {
        return Err(type_error(concat3("cannot assign integer literal to `", name.as_str(), "`")));
    }
    let max = ty.max_integer_value();
    match max {
        Some(m) => {
            if value > m {
                let digits = u128_to_string(value);
                Err(
                    type_error(
                        concat5(
                            "integer literal `",
                            digits.as_str(),
                            "` does not fit in `",
                            name.as_str(),
                            "`",
                        ),
                    ),
                )
            } else {
                Ok(())
            }
        },
        None => Ok(()),
    }
}

fn is_untyped_literal_expr(e: &Expression) -> (r: bool)
    ensures
        r == is_untyped_literal(e@),
{
    match e {
        Expression::Integer(_) | Expression::Float(_) => true,
        _ => false,
    }
}

fn struct_of(object_ty: &Type, field: &String) -> (r: Result<String, TypeError>)
    ensures
        match r {
            Ok(n) => tc_struct_of(object_ty@, field@) == Ok::<Seq<char>, Seq<char>>(n@),
            Err(e) => tc_struct_of(object_ty@, field@) == Err::<Seq<char>, Seq<char>>(e@),
        },
{
    match object_ty {
        Type::Struct(name) => Ok(name.clone()),
        Type::Pointer(inner) => match &**inner {
            Type::Struct(name) => {
                assert((**inner)@ == TypeView::Struct(name@));
                assert(object_ty@ == TypeView::Pointer(Box::new((**inner)@)));
                Ok(name.clone())
            },
            t => {
                let n = t.name();
                Err(
                    type_error(
                        concat5("cannot access field `", field.as_str(), "` on `&", n.as_str(), "`"),
                    ),
                )
            },
        },
        t => {
            let n = t.name();
            Err(
                type_error(
                    concat5("cannot access field `", field.as_str(), "` on `", n.as_str(), "`"),
                ),
            )
        },
    }
}

fn field_type(env: &CheckedProgram, structure: &String, field: &String) -> (r: Result<Type, TypeError>)
    ensures
        type_result(r) == tc_field_type(env@, structure@, field@),
{
    if let Some(s) = find_struct(&env.structs, structure) {
        if let Some(t) = find_field(&s.fields, field) {
            return Ok(t.duplicate());
        }
    }
    Err(type_error(concat5("unknown field `", field.as_str(), "` in `", structure.as_str(), "`")))
}

/// The model of a binary expression node.
pub open spec fn binary_view(b: BinaryExpression) -> ExprView {
    ExprView::Binary {
        left: Box::new(expr_view(*b.left)),
        operator: b.operator,
        right: Box::new(expr_view(*b.right)),
    }
}

fn check_expression(
    env: &CheckedProgram,
    scopes: &Vec<Vec<Variable>>,
    expression: &Expression,
    expected: Option<&Type>,
) -> (r: Result<Type, TypeError>)
    ensures
        type_result(r) == tc_expr(env@, scopes_view(scopes@), expression@, optional_view(expected)),
    decreases expression@, 10int,
{
    match expression {
        Expression::Integer(value) => {
            let ty = match expected {
                Some(t) => t.duplicate(),
                None => Type::I32,
            };
            check_integer_literal(*value, &ty)?;
            Ok(ty)
        },
        Expression::Float(_) => {
            let ty = match expected {
                Some(t) => t.duplicate(),
                None => Type::F64,
            };
            if ty.is_float() {
                Ok(ty)
            } else {
                let n = ty.name();
                Err(type_error(concat3("cannot assign float literal to `", n.as_str(), "`")))
            }
        },
        Expression::Bool(_) => {
            let ty = match expected {
                Some(t) => t.duplicate(),
                None => Type::Bool,
            };
            expect_type(&Type::Bool, &ty)
        },
        Expression::Variable(name) => {
            let ty = variable_type(scopes, name)?;
            expect_optional_type(&ty, expected)
        },
        Expression::Call(call) => check_call(env, scopes, &call.name, &call.arguments, expected),
        Expression::StructLiteral(literal) => check_struct_literal(
            env,
            scopes,
            &literal.name,
            &literal.fields,
            expected,
        ),
        Expression::FieldAccess(access) => {
            let object_ty = check_expression(env, scopes, &access.object, None)?;
            let struct_name = struct_of(&object_ty, &access.field)?;
            let ty = field_type(env, &struct_name, &access.field)?;
            expect_optional_type(&ty, expected)
        },
        Expression::AddressOf(inner) => match expected {
            Some(Type::Pointer(target)) => {
                check_expression_as(env, scopes, inner, target)?;
                Ok(Type::Pointer(Box::new(target.duplicate())))
            },
            _ => {
                let ty = check_expression(env, scopes, inner, None)?;
                Ok(Type::Pointer(Box::new(ty)))
            },
        },
        Expression::Dereference(inner) => {
            let ty = check_expression(env, scopes, inner, None)?;
            match &ty {
                Type::Pointer(target) => expect_optional_type(target, expected),
                _ => {
                    let n = ty.name();
                    Err(type_error(concat3("cannot dereference `", n.as_str(), "`")))
                },
            }
        },
        Expression::BitNot(inner) => {
            let operand = match expected {
                Some(t) => {
                    if t.is_bool() || t.is_integer() {
                        check_expression_as(env, scopes, inner, t)
                    } else {
                        let n = t.name();
                        Err(
                            type_error(
                                concat3("operator `!` cannot be used with `", n.as_str(), "`"),
                            ),
                        )
                    }
                },
                None => check_expression(env, scopes, inner, None),
            };
            let ty = operand?;
            if ty.is_bool() || ty.is_integer() {
                Ok(ty)
            } else {
                let n = ty.name();
                Err(type_error(concat3("operator `!` cannot be used with `", n.as_str(), "`")))
            }
        },
        Expression::Binary(binary) => check_binary(env, scopes, binary, expected),
    }
}

fn check_expression_as(
    env: &CheckedProgram,
    scopes: &Vec<Vec<Variable>>,
    expression: &Expression,
    expected: &Type,
) -> (r: Result<Type, TypeError>)
    ensures
        type_result(r) == tc_expr_as(env@, scopes_view(scopes@), expression@, expected@),
    decreases expression@, 11int,
{
    let actual = check_expression(env, scopes, expression, Some(expected))?;
    expect_type(&actual, expected)
}

fn operator_misuse_message(operator: BinaryOperator, ty: &Type) -> (m: String)
    ensures
        m@ == msg_operator_misuse(operator, ty@),
{
    let s = operator.symbol();
    let n = ty.name();
    concat5("operator `", s.as_str(), "` cannot be used with `", n.as_str(), "`")
}

fn check_binary(
    env: &CheckedProgram,
    scopes: &Vec<Vec<Variable>>,
    binary: &BinaryExpression,
    expected: Option<&Type>,
) -> (r: Result<Type, TypeError>)
    ensures
        type_result(r) == tc_binary(env@, scopes_view(scopes@), binary_view(*binary), optional_view(expected)),
    decreases binary_view(*binary), 9int,
{
    let operator = binary.operator;
    if operator == BinaryOperator::BoolAnd || operator == BinaryOperator::BoolOr {
        check_expression_as(env, scopes, &binary.left, &Type::Bool)?;
        check_expression_as(env, scopes, &binary.right, &Type::Bool)?;
        return expect_optional_type(&Type::Bool, expected);
    }
    let comparison = operator == BinaryOperator::Equal || operator == BinaryOperator::NotEqual;
    let target = if comparison {
        infer_operand_type(env, scopes, binary, None)?
    } else {
        infer_operand_type(env, scopes, binary, expected)?
    };
    let allowed = if comparison {
        true
    } else if operator.is_bitwise() {
        target.is_integer()
    } else {
        target.is_integer() || target.is_float()
    };
    if !allowed {
        return Err(type_error(operator_misuse_message(operator, &target)));
    }
    check_expression_as(env, scopes, &binary.left, &target)?;
    check_expression_as(env, scopes, &binary.right, &target)?;
    if comparison {
        expect_optional_type(&Type::Bool, expected)
    } else {
        Ok(target)
    }
}

fn infer_operand_type(
    env: &CheckedProgram,
    scopes: &Vec<Vec<Variable>>,
    binary: &BinaryExpression,
    expected: Option<&Type>,
) -> (r: Result<Type, TypeError>)
    ensures
        type_result(r) == tc_infer(env@, scopes_view(scopes@), binary_view(*binary), optional_view(expected)),
    decreases binary_view(*binary), 8int,
{
    if let Some(t) = expected {
        if !binary.operator.result_is_bool() {
            return Ok(t.duplicate());
        }
    }
    if is_untyped_literal_expr(&binary.left) && !is_untyped_literal_expr(&binary.right) {
        check_expression(env, scopes, &binary.right, None)
    } else {
        check_expression(env, scopes, &binary.left, None)
    }
}

fn check_call(
    env: &CheckedProgram,
    scopes: &Vec<Vec<Variable>>,
    name: &String,
    arguments: &Vec<Expression>,
    expected: Option<&Type>,
) -> (r: Result<Type, TypeError>)
    ensures
        type_result(r) == tc_call(env@, scopes_view(scopes@), name@, exprs_view(arguments@), optional_view(expected)),
    decreases exprs_view(arguments@), 9int,
{
    if str_eq(name.as_str(), "println") {
        Err(type_error(String::from_str("function `println` does not return a value")))
    } else if str_eq(name.as_str(), "dealloc") {
        Err(type_error(String::from_str("function `dealloc` does not return a value")))
    } else if str_eq(name.as_str(), "alloc") {
        check_alloc(env, scopes, arguments, expected)
    } else {
        let signature = check_user_call(env, scopes, name, arguments)?;
        match &signature.return_type {
            None => Err(type_error(concat3("function `", name.as_str(), "` does not return a value"))),
            Some(return_type) => expect_optional_type(return_type, expected),
        }
    }
}

fn check_user_call<'a>(
    env: &'a CheckedProgram,
    scopes: &Vec<Vec<Variable>>,
    name: &String,
    arguments: &Vec<Expression>,
) -> (r: Result<&'a FunctionSignature, TypeError>)
    ensures
        match r {
            Ok(s) => tc_user_call(env@, scopes_view(scopes@), name@, exprs_view(arguments@)) == Ok::<
                SignatureView,
                Seq<char>,
            >(s@),
            Err(e) => tc_user_call(env@, scopes_view(scopes@), name@, exprs_view(arguments@)) == Err::<
                SignatureView,
                Seq<char>,
            >(e@),
        },
    decreases exprs_view(arguments@), 8int,
{
    let signature = match find_signature(&env.functions, name) {
        Some(s) => s,
        None => {
            return Err(type_error(concat3("unknown function `", name.as_str(), "`")));
        },
    };
    proof {
        lemma_exprs_view(arguments@);
    }
    if signature.parameters.len() != arguments.len() {
        let count = usize_to_string(signature.parameters.len());
        return Err(
            type_error(
                concat5("function `", name.as_str(), "` expects ", count.as_str(), " argument(s)"),
            ),
        );
    }
    check_arguments(env, scopes, arguments, &signature.parameters)?;
    Ok(signature)
}

fn check_arguments(
    env: &CheckedProgram,
    scopes: &Vec<Vec<Variable>>,
    arguments: &Vec<Expression>,
    parameters: &Vec<Type>,
) -> (r: Result<(), TypeError>)
    requires
        arguments@.len() == parameters@.len(),
    ensures
        unit_result(r) == tc_arguments(
            env@,
            scopes_view(scopes@),
            exprs_view(arguments@),
            parameters@.map_values(|t: Type| t@),
        ),
    decreases exprs_view(arguments@), 7int,
{
    let ghost args = exprs_view(arguments@);
    let ghost params = parameters@.map_values(|t: Type| t@);
    proof {
        lemma_exprs_view(arguments@);
    }
    proof {
        assert(args.skip(0) =~= args);
        assert(params.skip(0) =~= params);
    }
    let mut i: usize = 0;
    while i < arguments.len()
        invariant
            i <= arguments@.len() == parameters@.len(),
            args == exprs_view(arguments@),
            params == parameters@.map_values(|t: Type| t@),
            args.len() == arguments@.len(),
            forall|k: int| 0 <= k < arguments@.len() ==> #[trigger] args[k] == expr_view(arguments@[k]),
            tc_arguments(env@, scopes_view(scopes@), args, params) == tc_arguments(
                env@,
                scopes_view(scopes@),
                args.skip(i as int),
                params.skip(i as int),
            ),
        decreases arguments@.len() - i,
    {
        proof {
            assert(args.skip(i as int)[0] == args[i as int]);
            assert(params.skip(i as int)[0] == params[i as int]);
            assert(args.skip(i as int).drop_first() =~= args.skip(i + 1));
            assert(params.skip(i as int).drop_first() =~= params.skip(i + 1));
            assert(decreases_to!(args => args[i as int]));
        }
        check_expression_as(env, scopes, &arguments[i], &parameters[i])?;
        i = i + 1;
    }
    Ok(())
}

fn check_alloc(
    env: &CheckedProgram,
    scopes: &Vec<Vec<Variable>>,
    arguments: &Vec<Expression>,
    expected: Option<&Type>,
) -> (r: Result<Type, TypeError>)
    ensures
        type_result(r) == tc_alloc(env@, scopes_view(scopes@), exprs_view(arguments@), optional_view(expected)),
    decreases exprs_view(arguments@), 8int,
{
    if arguments.len() != 1 {
        proof {
            lemma_exprs_view(arguments@);
        }
        return Err(type_error(String::from_str("function `alloc` expects 1 argument")));
    }
    proof {
        lemma_exprs_view(arguments@);
        assert(decreases_to!(exprs_view(arguments@) => exprs_view(arguments@)[0]));
    }
    match expected {
        Some(Type::Pointer(target)) => {
            check_expression_as(env, scopes, &arguments[0], target)?;
            Ok(Type::Pointer(Box::new(target.duplicate())))
        },
        Some(_) => Err(type_error(String::from_str("function `alloc` returns a pointer"))),
        None => {
            let ty = check_expression(env, scopes, &arguments[0], None)?;
            Ok(Type::Pointer(Box::new(ty)))
        },
    }
}

fn first_missing(fields: &Vec<StructField>, initialized: &Vec<String>) -> (r: Option<String>)
    ensures
        match r {
            Some(n) => first_missing_field(fields_view(fields@), names_view(initialized@), 0) == Some(n@),
            None => first_missing_field(fields_view(fields@), names_view(initialized@), 0) is None,
        },
{
    let mut i: usize = 0;
    while i < fields.len()
        invariant
            i <= fields@.len(),
            first_missing_field(fields_view(fields@), names_view(initialized@), 0) == first_missing_field(
                fields_view(fields@),
                names_view(initialized@),
                i as nat,
            ),
        decreases fields@.len() - i,
    {
        if !contains_name(initialized, &fields[i].name) {
            return Some(fields[i].name.clone());
        }
        i = i + 1;
    }
    None
}

fn check_struct_literal(
    env: &CheckedProgram,
    scopes: &Vec<Vec<Variable>>,
    name: &String,
    fields: &Vec<StructLiteralField>,
    expected: Option<&Type>,
) -> (r: Result<Type, TypeError>)
    ensures
        type_result(r) == tc_struct_literal(env@, scopes_view(scopes@), name@, field_inits_view(fields@), optional_view(expected)),
    decreases field_inits_view(fields@), 9int,
{
    let ty = match expected {
        Some(Type::Struct(expected_name)) => {
            if *expected_name != *name {
                return Err(
                    type_error(
                        concat5("cannot use `", name.as_str(), "` value as `", expected_name.as_str(), "`"),
                    ),
                );
            }
            Type::Struct(expected_name.clone())
        },
        Some(other) => {
            let n = other.name();
            return Err(
                type_error(concat5("cannot use `", name.as_str(), "` value as `", n.as_str(), "`")),
            );
        },
        None => Type::Struct(name.clone()),
    };
    let definition = match find_struct(&env.structs, name) {
        Some(d) => d,
        None => {
            return Err(type_error(concat3("unknown struct `", name.as_str(), "`")));
        },
    };
    let initialized = check_field_inits(env, scopes, name, &definition.fields, fields)?;
    match first_missing(&definition.fields, &initialized) {
        Some(missing) => Err(
            type_error(concat5("missing field `", missing.as_str(), "` in `", name.as_str(), "`")),
        ),
        None => Ok(ty),
    }
}

fn check_field_inits(
    env: &CheckedProgram,
    scopes: &Vec<Vec<Variable>>,
    literal: &String,
    definition: &Vec<StructField>,
    fields: &Vec<StructLiteralField>,
) -> (r: Result<Vec<String>, TypeError>)
    ensures
        match r {
            Ok(names) => tc_field_inits(
                env@,
                scopes_view(scopes@),
                literal@,
                fields_view(definition@),
                field_inits_view(fields@),
                Seq::empty(),
            ) == Ok::<Seq<Seq<char>>, Seq<char>>(names_view(names@)),
            Err(e) => tc_field_inits(
                env@,
                scopes_view(scopes@),
                literal@,
                fields_view(definition@),
                field_inits_view(fields@),
                Seq::empty(),
            ) == Err::<Seq<Seq<char>>, Seq<char>>(e@),
        },
    decreases field_inits_view(fields@), 8int,
{
    let ghost inits = field_inits_view(fields@);
    let ghost defs = fields_view(definition@);
    proof {
        lemma_field_inits_view(fields@);
        assert(names_view(Seq::<String>::empty()) =~= Seq::<Seq<char>>::empty());
    }
    let mut initialized: Vec<String> = Vec::new();
    proof {
        assert(inits.skip(0) =~= inits);
    }
    let mut i: usize = 0;
    while i < fields.len()
        invariant
            i <= fields@.len(),
            inits == field_inits_view(fields@),
            defs == fields_view(definition@),
            inits.len() == fields@.len(),
            forall|k: int|
                0 <= k < fields@.len() ==> #[trigger] inits[k] == (FieldInitView {
                    name: fields@[k].name@,
                    value: expr_view(fields@[k].value),
                }),
            tc_field_inits(env@, scopes_view(scopes@), literal@, defs, inits, Seq::empty())
                == tc_field_inits(
                env@,
                scopes_view(scopes@),
                literal@,
                defs,
                inits.skip(i as int),
                names_view(initialized@),
            ),
        decreases fields@.len() - i,
    {
        proof {
            assert(inits.skip(i as int)[0] == inits[i as int]);
            assert(inits.skip(i as int).drop_first() =~= inits.skip(i + 1));
            assert(decreases_to!(inits => inits[i as int]));
            assert(decreases_to!(inits[i as int] => inits[i as int].value));
        }
        let field = &fields[i];
        if contains_name(&initialized, &field.name) {
            return Err(
                type_error(
                    concat5(
                        "field `",
                        field.name.as_str(),
                        "` is already initialized in `",
                        literal.as_str(),
                        "`",
                    ),
                ),
            );
        }
        let field_ty = match find_field(definition, &field.name) {
            Some(t) => t,
            None => {
                return Err(
                    type_error(
                        concat5("unknown field `", field.name.as_str(), "` in `", literal.as_str(), "`"),
                    ),
                );
            },
        };
        check_expression_as(env, scopes, &field.value, field_ty)?;
        let ghost before = initialized@;
        initialized.push(field.name.clone());
        proof {
            assert(names_view(initialized@) =~= names_view(before).push(field.name@));
        }
        i = i + 1;
    }
    Ok(initialized)
}

fn check_call_statement(
    env: &CheckedProgram,
    scopes: &Vec<Vec<Variable>>,
    name: &String,
    arguments: &Vec<Expression>,
) -> (r: Result<(), TypeError>)
    ensures
        unit_result(r) == tc_call_statement(env@, scopes_view(scopes@), name@, exprs_view(arguments@)),
{
    proof {
        lemma_exprs_view(arguments@);
    }
    if str_eq(name.as_str(), "println") {
        if arguments.len() != 1 {
            return Err(type_error(String::from_str("function `println` expects 1 argument")));
        }
        check_expression(env, scopes, &arguments[0], None)?;
        Ok(())
    } else if str_eq(name.as_str(), "dealloc") {
        if arguments.len() != 1 {
            return Err(type_error(String::from_str("function `dealloc` expects 1 argument")));
        }
        let ty = check_expression(env, scopes, &arguments[0], None)?;
        if ty.is_pointer() {
            Ok(())
        } else {
            let n = ty.name();
            Err(type_error(concat3("function `dealloc` expects pointer, found `", n.as_str(), "`")))
        }
    } else if str_eq(name.as_str(), "alloc") {
        check_call(env, scopes, name, arguments, None)?;
        Ok(())
    } else {
        check_user_call(env, scopes, name, arguments)?;
        Ok(())
    }
}

/// What a statement check leaves behind: on success the model's scopes,
/// with every scope but the innermost untouched.
pub open spec fn statement_outcome(
    r: Result<(), TypeError>,
    expected: Result<Scopes, Seq<char>>,
    before: Seq<Vec<Variable>>,
    after: Seq<Vec<Variable>>,
) -> bool {
    match r {
        Ok(_) => expected == Ok::<Scopes, Seq<char>>(scopes_view(after)) && after.len() == before.len()
            && forall|k: int| 0 <= k < before.len() - 1 ==> #[trigger] after[k] == before[k],
        Err(e) => expected == Err::<Scopes, Seq<char>>(e@),
    }
}

fn check_let(env: &CheckedProgram, scopes: &mut Vec<Vec<Variable>>, l: &LetStatement) -> (r: Result<(), TypeError>)
    requires
        old(scopes)@.len() > 0,
    ensures
        statement_outcome(r, tc_let(env@, scopes_view(old(scopes)@), l.name@, l.ty@, l.value@), old(scopes)@, final(scopes)@),
{
    check_declared_type(env, &l.ty)?;
    check_expression_as(env, scopes, &l.value, &l.ty)?;
    let ghost before = scopes@;
    let mut last = scopes.pop().unwrap();
    if find_variable(&last, &l.name).is_some() {
        return Err(
            type_error(
                concat3("variable `", l.name.as_str(), "` is already defined in this scope"),
            ),
        );
    }
    let ghost last_before = last@;
    last.push(Variable { name: l.name.clone(), ty: l.ty.duplicate() });
    scopes.push(last);
    proof {
        assert(scope_view(last@) =~= scope_view(last_before).push(
            BindingView { name: l.name@, ty: l.ty@ },
        ));
        assert(scopes_view(scopes@) =~= scopes_view(before).update(
            before.len() - 1,
            scope_view(last_before).push(BindingView { name: l.name@, ty: l.ty@ }),
        ));
    }
    Ok(())
}

fn check_statement(
    env: &CheckedProgram,
    return_type: Option<&Type>,
    scopes: &mut Vec<Vec<Variable>>,
    statement: &Statement,
    in_loop: bool,
) -> (r: Result<(), TypeError>)
    requires
        old(scopes)@.len() > 0,
    ensures
        statement_outcome(
            r,
            tc_statement(env@, optional_view(return_type), scopes_view(old(scopes)@), statement@, in_loop),
            old(scopes)@,
            final(scopes)@,
        ),
    decreases statement@, 2int,
{
    match statement {
        Statement::Let(l) => check_let(env, scopes, l),
        Statement::Call(c) => check_call_statement(env, scopes, &c.name, &c.arguments),
        Statement::Return(ret) => match return_type {
            None => Err(
                type_error(String::from_str("cannot return a value from function without return type")),
            ),
            Some(rt) => {
                check_expression_as(env, scopes, &ret.value, rt)?;
                Ok(())
            },
        },
        Statement::If(i) => {
            check_expression_as(env, scopes, &i.condition, &Type::Bool)?;
            check_block(env, return_type, scopes, &i.then_block.statements, in_loop)?;
            match &i.else_block {
                Some(b) => {
                    check_block(env, return_type, scopes, &b.statements, in_loop)?;
                    Ok(())
                },
                None => Ok(()),
            }
        },
        Statement::Loop(l) => check_block(env, return_type, scopes, &l.body.statements, true),
        Statement::While(w) => {
            check_expression_as(env, scopes, &w.condition, &Type::Bool)?;
            check_block(env, return_type, scopes, &w.body.statements, true)
        },
        Statement::Break => {
            if !in_loop {
                Err(type_error(String::from_str("cannot `break` outside loop")))
            } else {
                Ok(())
            }
        },
        Statement::Continue => {
            if !in_loop {
                Err(type_error(String::from_str("cannot `continue` outside loop")))
            } else {
                Ok(())
            }
        },
    }
}

fn check_block(
    env: &CheckedProgram,
    return_type: Option<&Type>,
    scopes: &mut Vec<Vec<Variable>>,
    statements: &Vec<Statement>,
    in_loop: bool,
) -> (r: Result<(), TypeError>)
    ensures
        unit_result(r) == tc_block(env@, optional_view(return_type), scopes_view(old(scopes)@), stmts_view(statements@), in_loop),
        r is Ok ==> final(scopes)@ == old(scopes)@,
    decreases stmts_view(statements@), 1int,
{
    let ghost before = scopes@;
    scopes.push(Vec::new());
    proof {
        assert(scope_view(Seq::<Variable>::empty()) =~= Seq::<BindingView>::empty());
        assert(scopes_view(scopes@) =~= scopes_view(before).push(Seq::empty()));
    }
    check_statements(env, return_type, scopes, statements, in_loop)?;
    let _ = scopes.pop();
    proof {
        assert(scopes@ =~= before);
    }
    Ok(())
}

fn check_statements(
    env: &CheckedProgram,
    return_type: Option<&Type>,
    scopes: &mut Vec<Vec<Variable>>,
    statements: &Vec<Statement>,
    in_loop: bool,
) -> (r: Result<(), TypeError>)
    requires
        old(scopes)@.len() > 0,
    ensures
        statement_outcome(
            r,
            tc_statements(env@, optional_view(return_type), scopes_view(old(scopes)@), stmts_view(statements@), in_loop),
            old(scopes)@,
            final(scopes)@,
        ),
    decreases stmts_view(statements@), 0int,
{
    let ghost all = stmts_view(statements@);
    let ghost start = scopes@;
    proof {
        lemma_stmts_view(statements@);
        assert(all.skip(0) =~= all);
    }
    let mut i: usize = 0;
    while i < statements.len()
        invariant
            i <= statements@.len(),
            all == stmts_view(statements@),
            all.len() == statements@.len(),
            forall|k: int| 0 <= k < statements@.len() ==> #[trigger] all[k] == stmt_view(statements@[k]),
            start == old(scopes)@,
            scopes@.len() == start.len(),
            start.len() > 0,
            forall|k: int| 0 <= k < start.len() - 1 ==> #[trigger] scopes@[k] == start[k],
            tc_statements(env@, optional_view(return_type), scopes_view(start), all, in_loop)
                == tc_statements(
                env@,
                optional_view(return_type),
                scopes_view(scopes@),
                all.skip(i as int),
                in_loop,
            ),
        decreases statements@.len() - i,
    {
        proof {
            assert(all.skip(i as int)[0] == all[i as int]);
            assert(all.skip(i as int).drop_first() =~= all.skip(i + 1));
            assert(decreases_to!(all => all[i as int]));
        }
        let ghost here = scopes@;
        check_statement(env, return_type, scopes, &statements[i], in_loop)?;
        proof {
            assert forall|k: int| 0 <= k < start.len() - 1 implies #[trigger] scopes@[k] == start[k] by {
                assert(scopes@[k] == here[k]);
            }
        }
        i = i + 1;
    }
    proof {
        assert(all.skip(i as int) =~= Seq::<StmtView>::empty());
    }
    Ok(())
}

fn statement_guarantees_return(statement: &Statement) -> (r: bool)
    ensures
        r == statement_returns(statement@),
    decreases statement@, 1int,
{
    match statement {
        Statement::Return(_) => true,
        Statement::If(i) => match &i.else_block {
            Some(b) => {
                proof {
                    let v = statement@;
                    assert(v matches StmtView::If { then_block, else_block, .. } && then_block
                        == stmts_view(i.then_block.statements@) && else_block == Some(
                        stmts_view(b.statements@),
                    ));
                    assert(decreases_to!(v => v->else_block));
                    assert(decreases_to!(v->else_block => v->else_block->0));
                }
                let then_returns = block_guarantees_return(&i.then_block.statements);
                then_returns && block_guarantees_return(&b.statements)
            },
            None => false,
        },
        Statement::Loop(l) => {
            proof {
                let v = statement@;
                assert(v matches StmtView::Loop(body) && body == stmts_view(l.body.statements@));
            }
            block_guarantees_return(&l.body.statements)
        },
        _ => false,
    }
}

fn block_guarantees_return(statements: &Vec<Statement>) -> (r: bool)
    ensures
        r == block_returns(stmts_view(statements@)),
    decreases stmts_view(statements@), 0int,
{
    let ghost all = stmts_view(statements@);
    proof {
        lemma_stmts_view(statements@);
        assert(all.skip(0) =~= all);
    }
    let mut i: usize = 0;
    while i < statements.len()
        invariant
            i <= statements@.len(),
            all == stmts_view(statements@),
            all.len() == statements@.len(),
            forall|k: int| 0 <= k < statements@.len() ==> #[trigger] all[k] == stmt_view(statements@[k]),
            block_returns(all) == block_returns(all.skip(i as int)),
        decreases statements@.len() - i,
    {
        proof {
            assert(all.skip(i as int)[0] == all[i as int]);
            assert(all.skip(i as int).drop_first() =~= all.skip(i + 1));
            assert(decreases_to!(all => all[i as int]));
        }
        if statement_guarantees_return(&statements[i]) {
            return true;
        }
        i = i + 1;
    }
    proof {
        assert(all.skip(i as int) =~= Seq::<StmtView>::empty());
    }
    false
}

fn check_parameters(env: &CheckedProgram, parameters: &Vec<FunctionParameter>) -> (r: Result<
    Vec<Variable>,
    TypeError,
>)
    ensures
        match r {
            Ok(scope) => tc_parameters(
                env@,
                parameters@.map_values(|p: FunctionParameter| p@),
                0,
                Seq::empty(),
            ) == Ok::<Seq<BindingView>, Seq<char>>(scope_view(scope@)),
            Err(e) => tc_parameters(
                env@,
                parameters@.map_values(|p: FunctionParameter| p@),
                0,
                Seq::empty(),
            ) == Err::<Seq<BindingView>, Seq<char>>(e@),
        },
{
    let ghost params = parameters@.map_values(|p: FunctionParameter| p@);
    let mut scope: Vec<Variable> = Vec::new();
    proof {
        assert(scope_view(scope@) =~= Seq::<BindingView>::empty());
    }
    let mut i: usize = 0;
    while i < parameters.len()
        invariant
            i <= parameters@.len(),
            params == parameters@.map_values(|p: FunctionParameter| p@),
            tc_parameters(env@, params, 0, Seq::empty()) == tc_parameters(
                env@,
                params,
                i as nat,
                scope_view(scope@),
            ),
        decreases parameters@.len() - i,
    {
        let parameter = &parameters[i];
        check_declared_type(env, &parameter.ty)?;
        if find_variable(&scope, &parameter.name).is_some() {
            return Err(
                type_error(concat3("parameter `", parameter.name.as_str(), "` is already defined")),
            );
        }
        let ghost before = scope@;
        scope.push(Variable { name: parameter.name.clone(), ty: parameter.ty.duplicate() });
        proof {
            assert(scope_view(scope@) =~= scope_view(before).push(params[i as int]));
        }
        i = i + 1;
    }
    Ok(scope)
}

fn check_function(env: &CheckedProgram, function: &Function) -> (r: Result<(), TypeError>)
    ensures
        unit_result(r) == tc_function(env@, function@),
{
    let scope = check_parameters(env, &function.parameters)?;
    if let Some(rt) = &function.return_type {
        check_declared_type(env, rt)?;
    }
    let ghost first = scope_view(scope@);
    let mut scopes: Vec<Vec<Variable>> = Vec::new();
    scopes.push(scope);
    proof {
        assert(scopes_view(scopes@) =~= seq![first]);
    }
    let return_type = function.return_type.as_ref();
    check_block(env, return_type, &mut scopes, &function.body.statements, false)?;
    if let Some(rt) = return_type {
        if !block_guarantees_return(&function.body.statements) {
            let n = rt.name();
            return Err(
                type_error(
                    concat5("function `", function.name.as_str(), "` must return `", n.as_str(), "`"),
                ),
            );
        }
    }
    Ok(())
}

fn copy_fields(fields: &Vec<StructField>) -> (r: Vec<StructField>)
    ensures
        fields_view(r@) == fields_view(fields@),
{
    let mut r: Vec<StructField> = Vec::new();
    let mut i: usize = 0;
    while i < fields.len()
        invariant
            i <= fields@.len(),
            r@.len() == i,
            forall|k: int| 0 <= k < i ==> #[trigger] r@[k]@ == fields@[k]@,
        decreases fields@.len() - i,
    {
        r.push(StructField { name: fields[i].name.clone(), ty: fields[i].ty.duplicate() });
        i = i + 1;
    }
    assert(fields_view(r@) =~= fields_view(fields@));
    r
}

fn first_duplicate_field(fields: &Vec<StructField>) -> (r: Option<String>)
    ensures
        match r {
            Some(n) => first_duplicate_binding(fields_view(fields@), 0) == Some(n@),
            None => first_duplicate_binding(fields_view(fields@), 0) is None,
        },
{
    let ghost bindings = fields_view(fields@);
    let mut i: usize = 0;
    while i < fields.len()
        invariant
            i <= fields@.len(),
            bindings == fields_view(fields@),
            first_duplicate_binding(bindings, 0) == first_duplicate_binding(bindings, i as nat),
        decreases fields@.len() - i,
    {
        let mut k: usize = 0;
        while k < i
            invariant
                k <= i < fields@.len(),
                bindings == fields_view(fields@),
                first_duplicate_binding(bindings, 0) == first_duplicate_binding(bindings, i as nat),
                forall|t: int| 0 <= t < k ==> bindings[t].name != bindings[i as int].name,
            decreases i - k,
        {
            if fields[k].name == fields[i].name {
                assert(bindings[k as int].name == bindings[i as int].name);
                assert(repeats_earlier_name(bindings, i as int));
                return Some(fields[i].name.clone());
            }
            k = k + 1;
        }
        assert(!repeats_earlier_name(bindings, i as int));
        i = i + 1;
    }
    None
}

fn signature_of_function(function: &Function) -> (r: FunctionSignature)
    ensures
        r@ == signature_of(function@),
{
    let mut parameters: Vec<Type> = Vec::new();
    let mut i: usize = 0;
    while i < function.parameters.len()
        invariant
            i <= function.parameters@.len(),
            parameters@.len() == i,
            forall|k: int| 0 <= k < i ==> #[trigger] parameters@[k]@ == function.parameters@[k].ty@,
        decreases function.parameters@.len() - i,
    {
        parameters.push(function.parameters[i].ty.duplicate());
        i = i + 1;
    }
    let return_type = match &function.return_type {
        Some(t) => Some(t.duplicate()),
        None => None,
    };
    let r = FunctionSignature { parameters, return_type };
    assert(r@.parameters =~= signature_of(function@).parameters);
    r
}

/// Declares the structs and functions of a program, refusing repeated or reserved names.
pub(crate) fn declarations(program: &Program) -> (r: Result<CheckedProgram, TypeError>)
    ensures
        match r {
            Ok(env) => tc_collect_structs(program@.structs, 0, Seq::empty()) == Ok::<
                Seq<(Seq<char>, Seq<BindingView>)>,
                Seq<char>,
            >(env@.structs) && tc_collect_functions(program@.functions, 0, Seq::empty()) == Ok::<
                Seq<(Seq<char>, SignatureView)>,
                Seq<char>,
            >(env@.functions),
            Err(e) => match tc_collect_structs(program@.structs, 0, Seq::empty()) {
                Err(m) => m == e@,
                Ok(_) => tc_collect_functions(program@.functions, 0, Seq::empty()) == Err::<
                    Seq<(Seq<char>, SignatureView)>,
                    Seq<char>,
                >(e@),
            },
        },
{
    let ghost sv = program@.structs;
    let mut structs: Vec<(String, CheckedStruct)> = Vec::new();
    proof {
        assert(structs_view(structs@) =~= Seq::<(Seq<char>, Seq<BindingView>)>::empty());
    }
    let mut i: usize = 0;
    while i < program.structs.len()
        invariant
            i <= program.structs@.len(),
            sv == program@.structs,
            tc_collect_structs(sv, 0, Seq::empty()) == tc_collect_structs(
                sv,
                i as nat,
                structs_view(structs@),
            ),
        decreases program.structs@.len() - i,
    {
        let structure = &program.structs[i];
        if Type::from_name(structure.name.as_str()).is_some() {
            return Err(
                type_error(concat3("cannot define primitive type `", structure.name.as_str(), "`")),
            );
        }
        if find_struct(&structs, &structure.name).is_some() {
            return Err(
                type_error(concat3("struct `", structure.name.as_str(), "` is already defined")),
            );
        }
        if let Some(field) = first_duplicate_field(&structure.fields) {
            return Err(
                type_error(
                    concat5(
                        "field `",
                        field.as_str(),
                        "` is already defined in struct `",
                        structure.name.as_str(),
                        "`",
                    ),
                ),
            );
        }
        let ghost before = structs@;
        structs.push((structure.name.clone(), CheckedStruct { fields: copy_fields(&structure.fields) }));
        proof {
            assert(structs_view(structs@) =~= structs_view(before).push(
                (structure.name@, fields_view(structure.fields@)),
            ));
        }
        i = i + 1;
    }
    let ghost fv = program@.functions;
    let mut functions: Vec<(String, FunctionSignature)> = Vec::new();
    proof {
        assert(functions_view(functions@) =~= Seq::<(Seq<char>, SignatureView)>::empty());
    }
    let mut j: usize = 0;
    while j < program.functions.len()
        invariant
            j <= program.functions@.len(),
            fv == program@.functions,
            tc_collect_structs(program@.structs, 0, Seq::empty()) == Ok::<
                Seq<(Seq<char>, Seq<BindingView>)>,
                Seq<char>,
            >(structs_view(structs@)),
            tc_collect_functions(fv, 0, Seq::empty()) == tc_collect_functions(
                fv,
                j as nat,
                functions_view(functions@),
            ),
        decreases program.functions@.len() - j,
    {
        let function = &program.functions[j];
        if is_builtin_function(&function.name) {
            return Err(
                type_error(concat3("cannot define builtin function `", function.name.as_str(), "`")),
            );
        }
        if find_signature(&functions, &function.name).is_some() {
            return Err(
                type_error(concat3("function `", function.name.as_str(), "` is already defined")),
            );
        }
        let ghost before = functions@;
        functions.push((function.name.clone(), signature_of_function(function)));
        proof {
            assert(functions_view(functions@) =~= functions_view(before).push(
                (function.name@, signature_of(function@)),
            ));
        }
        j = j + 1;
    }
    Ok(CheckedProgram { structs, functions })
}

fn is_builtin_function(name: &String) -> (r: bool)
    ensures
        r == is_builtin_name(name@),
{
    str_eq(name.as_str(), "println") || str_eq(name.as_str(), "alloc") || str_eq(name.as_str(), "dealloc")
}

pub(crate) fn check_struct_field_types(env: &CheckedProgram, program: &Program) -> (r: Result<(), TypeError>)
    ensures
        unit_result(r) == tc_struct_field_types(env@, program@.structs, 0, 0),
{
    let ghost sv = program@.structs;
    let mut i: usize = 0;
    while i < program.structs.len()
        invariant
            i <= program.structs@.len(),
            sv == program@.structs,
            tc_struct_field_types(env@, sv, 0, 0) == tc_struct_field_types(env@, sv, i as nat, 0),
        decreases program.structs@.len() - i,
    {
        let fields = &program.structs[i].fields;
        let mut j: usize = 0;
        while j < fields.len()
            invariant
                i < program.structs@.len(),
                j <= fields@.len(),
                sv == program@.structs,
                fields == program.structs@[i as int].fields,
                tc_struct_field_types(env@, sv, 0, 0) == tc_struct_field_types(
                    env@,
                    sv,
                    i as nat,
                    j as nat,
                ),
            decreases fields@.len() - j,
        {
            check_declared_type(env, &fields[j].ty)?;
            j = j + 1;
        }
        i = i + 1;
    }
    Ok(())
}

/// Checks a parsed program: the declarations, then every function body.
pub fn check_program(program: &Program) -> (r: Result<CheckedProgram, TypeError>)
    ensures
        checked_result(r) == spec_check_program(program@),
{
    let env = declarations(program)?;
    check_struct_field_types(&env, program)?;
    assert(spec_check_program(program@) == match tc_functions(env@, program@.functions, 0) {
        Err(m) => Err(m),
        Ok(_) => Ok::<CheckedProgramView, Seq<char>>(env@),
    });
    let mut i: usize = 0;
    while i < program.functions.len()
        invariant
            i <= program.functions@.len(),
            spec_check_program(program@) == match tc_functions(env@, program@.functions, 0) {
                Err(m) => Err(m),
                Ok(_) => Ok::<CheckedProgramView, Seq<char>>(env@),
            },
            tc_functions(env@, program@.functions, 0) == tc_functions(env@, program@.functions, i as nat),
        decreases program.functions@.len() - i,
    {
        check_function(&env, &program.functions[i])?;
        i = i + 1;
    }
    Ok(env)
}

} // verus!
