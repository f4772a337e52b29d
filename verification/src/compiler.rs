//! The native backend: assembly text for arm64 macOS from a checked program.
//!
//! The model follows the generator's own order of work. A function's code is
//! built by a [`Emitter`] that holds the text emitted so far, the frame
//! slots of the variables in scope, the labels of the enclosing loops, the
//! frame size and the label counter; the `cg_*` spec functions say what each
//! step appends and changes. Struct layouts are computed in declaration order.
use vstd::prelude::*;
use vstd::string::StringExecFns;
use crate::ast::{
    FunctionParameter, StructField, expr_view, exprs_view, field_inits_view, lemma_exprs_view, lemma_field_inits_view,
    lemma_stmts_view, operator_is_bitwise, operator_result_is_bool, operator_symbol,
    option_type_view, stmt_view, stmts_view, str_eq, type_eq, BinaryExpression, BinaryOperator,
    BindingView, ExprView, Expression, FieldAccess, FieldInitView, Function, FunctionView, Program,
    ProgramView, Statement, StmtView, StructLiteralField, Type, TypeView,
};
use crate::parser::{parse_source, spec_parse_source, ParseError, ParseErrorView};
use crate::runtime::{ask_floats, find_function, function_named, float_handler, float_semantics, FloatAnswer, FloatQuery, FloatReply, FloatRequest};
use crate::text::{concat, concat3, concat5, decimal, u128_to_string, usize_to_string, utf8_len};
use crate::typechecker::{
    binary_view, check_program, functions_view, lookup_signature, lookup_signature_from, lookup_struct,
    lookup_struct_from, spec_check_program, structs_view, CheckedProgram, CheckedProgramView, CheckedStruct,
    FunctionSignature, SignatureView,
};

verus! {

/// A program the backend could not compile, with the reason.
#[derive(Debug, Clone, PartialEq, Eq)]
pub struct CompileError {
    pub message: String,
}

impl View for CompileError {
    type V = Seq<char>;

    open spec fn view(&self) -> Seq<char> {
        self.message@
    }
}

// ---------------------------------------------------------------------------
// Text of single instructions.
// ---------------------------------------------------------------------------

pub open spec fn nl() -> Seq<char> {
    "\n"@
}

/// `movz`, then a `movk` for each nonzero upper 16-bit part.
pub open spec fn mov_u64_text(register: Seq<char>, value: u64) -> Seq<char> {
    "    movz "@ + register + ", #"@ + decimal((value & 0xffff) as nat) + nl() + movk_text(register, value, 16)
        + movk_text(register, value, 32) + movk_text(register, value, 48)
}

pub open spec fn movk_text(register: Seq<char>, value: u64, shift: u64) -> Seq<char> {
    let part = (value >> shift) & 0xffff;
    if part != 0 {
        "    movk "@ + register + ", #"@ + decimal(part as nat) + ", lsl #"@ + decimal(shift as nat) + nl()
    } else {
        Seq::empty()
    }
}

/// `destination = source - value`.
pub open spec fn sub_imm_text(destination: Seq<char>, source: Seq<char>, value: nat) -> Seq<char> {
    if value == 0 {
        if destination != source {
            "    mov "@ + destination + ", "@ + source + nl()
        } else {
            Seq::empty()
        }
    } else if value <= 4095 {
        "    sub "@ + destination + ", "@ + source + ", #"@ + decimal(value) + nl()
    } else {
        mov_u64_text("x16"@, value as u64) + "    sub "@ + destination + ", "@ + source + ", x16"@ + nl()
    }
}

/// `destination = source + value`.
pub open spec fn add_imm_text(destination: Seq<char>, source: Seq<char>, value: nat) -> Seq<char> {
    if value == 0 {
        if destination != source {
            "    mov "@ + destination + ", "@ + source + nl()
        } else {
            Seq::empty()
        }
    } else if value <= 4095 {
        "    add "@ + destination + ", "@ + source + ", #"@ + decimal(value) + nl()
    } else {
        mov_u64_text("x16"@, value as u64) + "    add "@ + destination + ", "@ + source + ", x16"@ + nl()
    }
}

pub open spec fn load_label_text(register: Seq<char>, label: Seq<char>) -> Seq<char> {
    "    adrp "@ + register + ", "@ + label + "@PAGE"@ + nl() + "    add "@ + register + ", "@ + register + ", "@
        + label + "@PAGEOFF"@ + nl()
}

/// The symbol of a function.
pub open spec fn function_label(name: Seq<char>) -> Seq<char> {
    if name == "main"@ {
        "_main"@
    } else {
        "_mould_"@ + name
    }
}

/// The least multiple of `alignment` not below `value`.
pub open spec fn align_up(value: nat, alignment: nat) -> nat
    recommends
        alignment > 0,
{
    if value % alignment == 0 {
        value
    } else {
        (value / alignment + 1) * alignment
    }
}

pub open spec fn is_wide(ty: TypeView) -> bool {
    ty is I128 || ty is U128
}

pub open spec fn register_count(ty: TypeView) -> nat {
    if is_wide(ty) {
        2
    } else {
        1
    }
}

/// Sign or zero extension of `x0` to the type's width.
pub open spec fn normalize_text(ty: TypeView) -> Seq<char> {
    match ty {
        TypeView::I8 => "    sxtb x0, w0\n"@,
        TypeView::I16 => "    sxth x0, w0\n"@,
        TypeView::I32 => "    sxtw x0, w0\n"@,
        TypeView::U8 => "    and x0, x0, #0xff\n"@,
        TypeView::Bool => "    and x0, x0, #0xff\n"@,
        TypeView::U16 => "    and x0, x0, #0xffff\n"@,
        TypeView::U32 => "    mov w0, w0\n"@,
        _ => Seq::empty(),
    }
}

pub open spec fn push_text(ty: TypeView) -> Seq<char> {
    "    sub sp, sp, #16\n    str x0, [sp]\n"@ + if is_wide(ty) {
        "    str x1, [sp, #8]\n"@
    } else {
        Seq::empty()
    }
}

pub open spec fn pop_text(ty: TypeView) -> Seq<char> {
    "    ldr x0, [sp]\n"@ + (if is_wide(ty) {
        "    ldr x1, [sp, #8]\n"@
    } else {
        Seq::empty()
    }) + "    add sp, sp, #16\n"@
}

pub open spec fn store_to_address_text(ty: TypeView, register: Seq<char>) -> Seq<char> {
    "    str x0, ["@ + register + "]"@ + nl() + if is_wide(ty) {
        "    str x1, ["@ + register + ", #8]"@ + nl()
    } else {
        Seq::empty()
    }
}

pub open spec fn load_from_x0_text(ty: TypeView) -> Seq<char> {
    if is_wide(ty) {
        "    ldr x1, [x0, #8]\n    ldr x0, [x0]\n"@
    } else {
        "    ldr x0, [x0]\n"@ + normalize_text(ty)
    }
}

pub open spec fn printf_text(format_label: Seq<char>) -> Seq<char> {
    "    mov x1, x0\n    sub sp, sp, #16\n    str x1, [sp]\n"@ + load_label_text("x0"@, format_label)
        + "    bl _printf\n    add sp, sp, #16\n"@
}

/// Copies `count` doublewords from the address in `source` to the one in `destination`.
pub open spec fn copy_words_text(source: Seq<char>, destination: Seq<char>, i: nat, count: nat) -> Seq<char>
    decreases count - i,
{
    if i >= count {
        Seq::empty()
    } else {
        "    ldr x10, ["@ + source + ", #"@ + decimal(8 * i) + "]"@ + nl() + "    str x10, ["@ + destination
            + ", #"@ + decimal(8 * i) + "]"@ + nl() + copy_words_text(source, destination, i + 1, count)
    }
}

pub open spec fn branch_text(label: Seq<char>) -> Seq<char> {
    "    b "@ + label + nl()
}

pub open spec fn label_text(label: Seq<char>) -> Seq<char> {
    label + ":"@ + nl()
}

// ---------------------------------------------------------------------------
// Struct layouts.
// ---------------------------------------------------------------------------

/// Where a field lives in its struct.
pub struct FieldPlace {
    pub name: Seq<char>,
    pub offset: nat,
    pub ty: TypeView,
}

/// The model of a struct's layout: its size and its fields in declaration order.
pub struct LayoutView {
    pub size: nat,
    pub fields: Seq<FieldPlace>,
}

pub type Layouts = Seq<(Seq<char>, LayoutView)>;

pub open spec fn find_layout_from(layouts: Layouts, name: Seq<char>, i: nat) -> Option<LayoutView>
    decreases layouts.len() - i,
{
    if i >= layouts.len() {
        None
    } else if layouts[i as int].0 == name {
        Some(layouts[i as int].1)
    } else {
        find_layout_from(layouts, name, i + 1)
    }
}

pub open spec fn find_layout(layouts: Layouts, name: Seq<char>) -> Option<LayoutView> {
    find_layout_from(layouts, name, 0)
}

pub open spec fn find_place_from(fields: Seq<FieldPlace>, name: Seq<char>, i: nat) -> Option<FieldPlace>
    decreases fields.len() - i,
{
    if i >= fields.len() {
        None
    } else if fields[i as int].name == name {
        Some(fields[i as int])
    } else {
        find_place_from(fields, name, i + 1)
    }
}

pub open spec fn msg_too_large() -> Seq<char> {
    "native backend cannot lay out a value this large"@
}

/// Lays out the struct `name` and, first, the structs it holds, adding each
/// layout to `layouts` once. `visiting` holds the structs being laid out.
pub open spec fn cg_layout(
    structs: Seq<(Seq<char>, Seq<BindingView>)>,
    name: Seq<char>,
    layouts: Layouts,
    visiting: Seq<Seq<char>>,
) -> Result<Layouts, Seq<char>>
    decreases structs.len() - visiting.len(), 1int, 0nat,
{
    if find_layout(layouts, name) is Some {
        Ok(layouts)
    } else if visiting.contains(name) || visiting.len() >= structs.len() {
        Err("recursive struct `"@ + name + "` is not supported"@)
    } else {
        match lookup_struct(structs, name) {
            None => Err("unknown type `"@ + name + "`"@),
            Some(fields) => match cg_layout_fields(structs, fields, 0, layouts, visiting.push(name), 0, Seq::empty()) {
                Err(msg) => Err(msg),
                Ok((done, offset, places)) => if align_up(offset, 8) > usize::MAX {
                    Err(msg_too_large())
                } else {
                    Ok(done.push((name, LayoutView { size: align_up(offset, 8), fields: places })))
                },
            },
        }
    }
}

/// The fields from index `i` on, placed from `offset`.
pub open spec fn cg_layout_fields(
    structs: Seq<(Seq<char>, Seq<BindingView>)>,
    fields: Seq<BindingView>,
    i: nat,
    layouts: Layouts,
    visiting: Seq<Seq<char>>,
    offset: nat,
    places: Seq<FieldPlace>,
) -> Result<(Layouts, nat, Seq<FieldPlace>), Seq<char>>
    decreases structs.len() + 1 - visiting.len(), 0int, fields.len() - i,
{
    if i >= fields.len() || visiting.len() > structs.len() {
        Ok((layouts, offset, places))
    } else {
        let field = fields[i as int];
        let sized: Result<(Layouts, nat), Seq<char>> = match field.ty {
            TypeView::Struct(inner) => match cg_layout(structs, inner, layouts, visiting) {
                Err(msg) => Err(msg),
                Ok(done) => match find_layout(done, inner) {
                    Some(l) => Ok((done, l.size)),
                    None => Ok((done, 0)),
                },
            },
            TypeView::I128 => Ok((layouts, 16)),
            TypeView::U128 => Ok((layouts, 16)),
            _ => Ok((layouts, 8)),
        };
        match sized {
            Err(msg) => Err(msg),
            Ok((done, size)) => {
                let next = offset + align_up(size, 8);
                if next > usize::MAX {
                    Err(msg_too_large())
                } else {
                    cg_layout_fields(
                        structs,
                        fields,
                        i + 1,
                        done,
                        visiting,
                        next,
                        places.push(FieldPlace { name: field.name, offset, ty: field.ty }),
                    )
                }
            },
        }
    }
}

/// The layouts of all structs, built in declaration order from index `i`.
pub open spec fn cg_layouts(structs: Seq<(Seq<char>, Seq<BindingView>)>, i: nat, layouts: Layouts) -> Result<
    Layouts,
    Seq<char>,
>
    decreases structs.len() - i,
{
    if i >= structs.len() {
        Ok(layouts)
    } else {
        match cg_layout(structs, structs[i as int].0, layouts, Seq::empty()) {
            Err(msg) => Err(msg),
            Ok(done) => cg_layouts(structs, i + 1, done),
        }
    }
}

// ---------------------------------------------------------------------------
// The state of a function's generation.
// ---------------------------------------------------------------------------

/// A variable's frame slot: its type, its offset below the frame pointer,
/// and whether the slot holds the variable's address rather than its value.
pub struct LocalView {
    pub ty: TypeView,
    pub offset: nat,
    pub indirect: bool,
}

/// What does not change while a function is generated.
pub struct ContextView {
    pub function: FunctionView,
    pub signatures: Seq<(Seq<char>, SignatureView)>,
    pub layouts: Layouts,
    pub return_label: Seq<char>,
}

/// What generation changes: the text so far, the variables in scope (one
/// list per block, innermost last), the labels of the enclosing loops
/// (`continue` target, `break` target), the frame size, the label counter.
pub struct EmitView {
    pub body: Seq<char>,
    pub scopes: Seq<Seq<(Seq<char>, LocalView)>>,
    pub loops: Seq<(Seq<char>, Seq<char>)>,
    pub next_offset: nat,
    pub next_label: nat,
}

pub open spec fn emit(st: EmitView, text: Seq<char>) -> EmitView {
    EmitView { body: st.body + text, ..st }
}

pub open spec fn lookup_local_in(scope: Seq<(Seq<char>, LocalView)>, name: Seq<char>, k: nat) -> Option<LocalView>
    decreases k,
{
    if k == 0 || k > scope.len() {
        None
    } else if scope[k - 1].0 == name {
        Some(scope[k - 1].1)
    } else {
        lookup_local_in(scope, name, (k - 1) as nat)
    }
}

pub open spec fn lookup_local_scopes(scopes: Seq<Seq<(Seq<char>, LocalView)>>, name: Seq<char>, k: nat) -> Option<LocalView>
    decreases k,
{
    if k == 0 || k > scopes.len() {
        None
    } else {
        match lookup_local_in(scopes[k - 1], name, scopes[k - 1].len()) {
            Some(l) => Some(l),
            None => lookup_local_scopes(scopes, name, (k - 1) as nat),
        }
    }
}

/// The slot of a variable, innermost scope first.
pub open spec fn cg_local(st: EmitView, name: Seq<char>) -> Result<LocalView, Seq<char>> {
    match lookup_local_scopes(st.scopes, name, st.scopes.len()) {
        Some(l) => Ok(l),
        None => Err("variable `"@ + name + "` not found"@),
    }
}

pub open spec fn cg_insert_local(st: EmitView, name: Seq<char>, local: LocalView) -> EmitView {
    if st.scopes.len() == 0 {
        st
    } else {
        EmitView {
            scopes: st.scopes.update(st.scopes.len() - 1, st.scopes.last().push((name, local))),
            ..st
        }
    }
}

pub open spec fn cg_struct_layout(cx: ContextView, name: Seq<char>) -> Result<LayoutView, Seq<char>> {
    match find_layout(cx.layouts, name) {
        Some(l) => Ok(l),
        None => Err("unknown type `"@ + name + "`"@),
    }
}

pub open spec fn cg_type_size(cx: ContextView, ty: TypeView) -> Result<nat, Seq<char>> {
    match ty {
        TypeView::Struct(name) => match cg_struct_layout(cx, name) {
            Ok(l) => Ok(l.size),
            Err(msg) => Err(msg),
        },
        TypeView::I128 => Ok(16),
        TypeView::U128 => Ok(16),
        _ => Ok(8),
    }
}

/// A new frame slot below the ones in use.
pub open spec fn cg_allocate_local(cx: ContextView, st: EmitView, ty: TypeView, indirect: bool) -> (Result<
    LocalView,
    Seq<char>,
>, EmitView) {
    let size = if indirect {
        Ok(8nat)
    } else {
        cg_type_size(cx, ty)
    };
    match size {
        Err(msg) => (Err(msg), st),
        Ok(size) => {
            let offset = align_up(st.next_offset, 8) + align_up(size, 8);
            if offset > usize::MAX {
                (Err(msg_too_large()), st)
            } else {
                (Ok(LocalView { ty, offset, indirect }), EmitView { next_offset: offset, ..st })
            }
        },
    }
}

/// A fresh label `L_mould_<prefix>_<n>`.
pub open spec fn cg_label(st: EmitView, prefix: Seq<char>) -> (Result<Seq<char>, Seq<char>>, EmitView) {
    if st.next_label >= usize::MAX {
        (Err("native backend ran out of labels"@), st)
    } else {
        (Ok("L_mould_"@ + prefix + "_"@ + decimal(st.next_label)), EmitView { next_label: st.next_label + 1, ..st })
    }
}

pub open spec fn local_address_text(local: LocalView, register: Seq<char>) -> Seq<char> {
    if !local.indirect {
        sub_imm_text(register, "x29"@, local.offset)
    } else {
        sub_imm_text("x9"@, "x29"@, local.offset) + "    ldr "@ + register + ", [x9]"@ + nl()
    }
}

pub open spec fn store_register_text(register: Seq<char>, offset: nat) -> Seq<char> {
    sub_imm_text("x9"@, "x29"@, offset) + "    str "@ + register + ", [x9]"@ + nl()
}

pub open spec fn load_frame_value_text(offset: nat, ty: TypeView) -> Seq<char> {
    sub_imm_text("x9"@, "x29"@, offset) + "    ldr x0, [x9]\n"@ + if is_wide(ty) {
        "    ldr x1, [x9, #8]\n"@
    } else {
        normalize_text(ty)
    }
}

pub open spec fn load_register_text(offset: nat, register: Seq<char>) -> Seq<char> {
    sub_imm_text("x9"@, "x29"@, offset) + "    ldr "@ + register + ", [x9]"@ + nl()
}

pub open spec fn msg_cannot_use(actual: TypeView, expected: TypeView) -> Seq<char> {
    "cannot use `"@ + actual.name() + "` value as `"@ + expected.name() + "`"@
}

pub open spec fn cg_expect(actual: TypeView, expected: TypeView) -> Result<TypeView, Seq<char>> {
    if actual == expected {
        Ok(actual)
    } else {
        Err(msg_cannot_use(actual, expected))
    }
}

pub open spec fn cg_expect_optional(actual: TypeView, expected: Option<TypeView>) -> Result<TypeView, Seq<char>> {
    match expected {
        Some(e) => cg_expect(actual, e),
        None => Ok(actual),
    }
}

pub open spec fn is_untyped_literal(e: ExprView) -> bool {
    e is Integer || e is Float
}

/// The field an object of this type gives access to, by struct name.
pub open spec fn cg_struct_of(object_ty: TypeView, field: Seq<char>) -> Result<Seq<char>, Seq<char>> {
    match object_ty {
        TypeView::Struct(name) => Ok(name),
        TypeView::Pointer(inner) => match *inner {
            TypeView::Struct(name) => Ok(name),
            t => Err("cannot access field `"@ + field + "` on `&"@ + t.name() + "`"@),
        },
        t => Err("cannot access field `"@ + field + "` on `"@ + t.name() + "`"@),
    }
}

pub open spec fn cg_field_place(cx: ContextView, struct_name: Seq<char>, field: Seq<char>) -> Result<FieldPlace, Seq<char>> {
    match cg_struct_layout(cx, struct_name) {
        Err(msg) => Err(msg),
        Ok(layout) => match find_place_from(layout.fields, field, 0) {
            Some(place) => Ok(place),
            None => Err("unknown field `"@ + field + "` in `"@ + struct_name + "`"@),
        },
    }
}

/// The type the generator gives an expression, against an optional expected type.
pub open spec fn cg_type(cx: ContextView, st: EmitView, e: ExprView, expected: Option<TypeView>) -> Result<
    TypeView,
    Seq<char>,
>
    decreases e, 1int,
{
    match e {
        ExprView::Integer(v) => {
            let ty = match expected {
                Some(t) => t,
                None => TypeView::I32,
            };
            if !ty.is_integer() {
                Err("cannot assign integer literal to `"@ + ty.name() + "`"@)
            } else if v > ty.max_integer_value().unwrap() {
                Err("integer literal `"@ + decimal(v as nat) + "` does not fit in `"@ + ty.name() + "`"@)
            } else {
                Ok(ty)
            }
        },
        ExprView::Float(_) => {
            let ty = match expected {
                Some(t) => t,
                None => TypeView::F64,
            };
            if ty.is_float() {
                Ok(ty)
            } else {
                Err("cannot assign float literal to `"@ + ty.name() + "`"@)
            }
        },
        ExprView::Bool(_) => {
            let ty = match expected {
                Some(t) => t,
                None => TypeView::Bool,
            };
            cg_expect(TypeView::Bool, ty)
        },
        ExprView::Variable(name) => match cg_local(st, name) {
            Err(msg) => Err(msg),
            Ok(local) => cg_expect_optional(local.ty, expected),
        },
        ExprView::Call { name, arguments } => if name == "alloc"@ {
            match expected {
                Some(TypeView::Pointer(inner)) => Ok(TypeView::Pointer(inner)),
                Some(_) => Err("function `alloc` returns a pointer"@),
                None => if arguments.len() == 0 {
                    Err(Seq::empty())
                } else {
                    match cg_type(cx, st, arguments[0], None) {
                        Err(msg) => Err(msg),
                        Ok(t) => Ok(TypeView::Pointer(Box::new(t))),
                    }
                },
            }
        } else if name == "println"@ {
            Err("function `println` does not return a value"@)
        } else if name == "dealloc"@ {
            Err("function `dealloc` does not return a value"@)
        } else {
            match lookup_signature(cx.signatures, name) {
                None => Err("unknown function `"@ + name + "`"@),
                Some(signature) => match signature.return_type {
                    None => Err("function `"@ + name + "` does not return a value"@),
                    Some(rt) => cg_expect_optional(rt, expected),
                },
            }
        },
        ExprView::StructLiteral { name, .. } => cg_expect_optional(TypeView::Struct(name), expected),
        ExprView::FieldAccess { object, field } => match cg_type(cx, st, *object, None) {
            Err(msg) => Err(msg),
            Ok(object_ty) => match cg_struct_of(object_ty, field) {
                Err(msg) => Err(msg),
                Ok(struct_name) => match cg_field_place(cx, struct_name, field) {
                    Err(msg) => Err(msg),
                    Ok(place) => cg_expect_optional(place.ty, expected),
                },
            },
        },
        ExprView::AddressOf(inner) => match expected {
            Some(TypeView::Pointer(target)) => Ok(TypeView::Pointer(target)),
            _ => match cg_type(cx, st, *inner, None) {
                Err(msg) => Err(msg),
                Ok(t) => Ok(TypeView::Pointer(Box::new(t))),
            },
        },
        ExprView::Dereference(inner) => match cg_type(cx, st, *inner, None) {
            Err(msg) => Err(msg),
            Ok(TypeView::Pointer(target)) => cg_expect_optional(*target, expected),
            Ok(t) => Err("cannot dereference `"@ + t.name() + "`"@),
        },
        ExprView::BitNot(inner) => {
            let operand = match expected {
                Some(t) => Ok(t),
                None => cg_type(cx, st, *inner, None),
            };
            match operand {
                Err(msg) => Err(msg),
                Ok(t) => if t.is_bool() || t.is_integer() {
                    Ok(t)
                } else {
                    Err("operator `!` cannot be used with `"@ + t.name() + "`"@)
                },
            }
        },
        ExprView::Binary { operator, .. } => if operator_result_is_bool(operator) {
            cg_expect_optional(TypeView::Bool, expected)
        } else {
            cg_operand_type(cx, st, e, expected)
        },
    }
}

/// The operand type of a binary expression.
pub open spec fn cg_operand_type(cx: ContextView, st: EmitView, e: ExprView, expected: Option<TypeView>) -> Result<
    TypeView,
    Seq<char>,
>
    decreases e, 0int,
{
    match expected {
        Some(t) => Ok(t),
        None => match e {
            ExprView::Binary { left, right, .. } => if is_untyped_literal(*left) && !is_untyped_literal(*right) {
                cg_type(cx, st, *right, None)
            } else {
                cg_type(cx, st, *left, None)
            },
            _ => Err(Seq::empty()),
        },
    }
}

// ---------------------------------------------------------------------------
// Code of expressions.
// ---------------------------------------------------------------------------

/// The result of a generation step and the state after it.
pub type Step<T> = (Result<T, Seq<char>>, EmitView);

pub open spec fn integer_literal_text(value: u128, ty: TypeView) -> Seq<char> {
    mov_u64_text("x0"@, value as u64) + if is_wide(ty) {
        mov_u64_text("x1"@, (value >> 64u128) as u64)
    } else {
        normalize_text(ty)
    }
}

/// The bits a float literal is loaded as, through the handler.
pub open spec fn cg_float_bits(fs: spec_fn(FloatQuery) -> FloatAnswer, text: Seq<char>, ty: TypeView) -> Result<
    u64,
    Seq<char>,
> {
    match fs(FloatQuery::Parse(text)) {
        FloatAnswer::Bits(parsed) => if ty is F16 || ty is F32 {
            match fs(FloatQuery::Narrow(parsed)) {
                FloatAnswer::Bits(b) => Ok(b),
                _ => Ok(0),
            }
        } else if ty is F64 {
            Ok(parsed)
        } else {
            Err("cannot assign float literal to `"@ + ty.name() + "`"@)
        },
        _ => Err("float literal `"@ + text + "` is invalid"@),
    }
}

/// An expression's code, leaving its value in `x0` (and `x1` for 128-bit
/// integers, or its address for structs); the result is its type.
#[verifier::opaque]
pub open spec fn cg_expr(
    fs: spec_fn(FloatQuery) -> FloatAnswer,
    cx: ContextView,
    st: EmitView,
    e: ExprView,
    expected: Option<TypeView>,
) -> Step<TypeView>
    decreases e, 10int, 0nat,
{
    match cg_type(cx, st, e, expected) {
        Err(msg) => (Err(msg), st),
        Ok(ty) => match e {
            ExprView::Integer(v) => (Ok(ty), emit(st, integer_literal_text(v, ty))),
            ExprView::Float(text) => match cg_float_bits(fs, text, ty) {
                Err(msg) => (Err(msg), st),
                Ok(bits) => (Ok(ty), emit(st, mov_u64_text("x0"@, bits))),
            },
            ExprView::Bool(b) => (
                Ok(TypeView::Bool),
                emit(st, if b { "    mov x0, #1\n"@ } else { "    mov x0, #0\n"@ }),
            ),
            ExprView::Variable(name) => match cg_local(st, name) {
                Err(msg) => (Err(msg), st),
                Ok(local) => if local.ty is Struct {
                    (Ok(ty), emit(st, local_address_text(local, "x0"@)))
                } else if local.indirect {
                    (Err("internal error: cannot load indirect local as value"@), st)
                } else {
                    (Ok(ty), emit(st, load_frame_value_text(local.offset, local.ty)))
                },
            },
            ExprView::Call { name, arguments } => if name == "alloc"@ {
                cg_alloc(fs, cx, st, arguments, expected)
            } else if name == "println"@ {
                (Err("function `println` does not return a value"@), st)
            } else if name == "dealloc"@ {
                (Err("function `dealloc` does not return a value"@), st)
            } else {
                let (r, st1) = cg_user_call(fs, cx, st, name, arguments);
                match r {
                    Err(msg) => (Err(msg), st1),
                    Ok(Some(t)) => (Ok(t), st1),
                    Ok(None) => (Err("function `"@ + name + "` does not return a value"@), st1),
                }
            },
            ExprView::StructLiteral { name, fields } => {
                let (r, st1) = cg_allocate_local(cx, st, ty, false);
                match r {
                    Err(msg) => (Err(msg), st1),
                    Ok(local) => {
                        let (r2, st2) = cg_struct_literal_to_local(fs, cx, st1, name, fields, local);
                        match r2 {
                            Err(msg) => (Err(msg), st2),
                            Ok(_) => (Ok(ty), emit(st2, local_address_text(local, "x0"@))),
                        }
                    },
                }
            },
            ExprView::FieldAccess { .. } => {
                let (r, st1) = cg_field_address(fs, cx, st, e);
                match r {
                    Err(msg) => (Err(msg), st1),
                    Ok(field_ty) => if field_ty is Struct {
                        (Ok(field_ty), st1)
                    } else {
                        (Ok(field_ty), emit(st1, load_from_x0_text(field_ty)))
                    },
                }
            },
            ExprView::AddressOf(inner) => {
                let (r, st1) = cg_lvalue_address(fs, cx, st, *inner);
                match r {
                    Err(msg) => (Err(msg), st1),
                    Ok(t) => (Ok(TypeView::Pointer(Box::new(t))), st1),
                }
            },
            ExprView::Dereference(inner) => {
                let (r, st1) = cg_expr(fs, cx, st, *inner, None);
                match r {
                    Err(msg) => (Err(msg), st1),
                    Ok(TypeView::Pointer(target)) => if *target is Struct {
                        (Ok(*target), st1)
                    } else {
                        (Ok(*target), emit(st1, load_from_x0_text(*target)))
                    },
                    Ok(t) => (Err("cannot dereference `"@ + t.name() + "`"@), st1),
                }
            },
            ExprView::BitNot(inner) => {
                let (r, st1) = cg_expr(fs, cx, st, *inner, Some(ty));
                match r {
                    Err(msg) => (Err(msg), st1),
                    Ok(_) => (
                        Ok(ty),
                        emit(
                            st1,
                            if ty.is_bool() {
                                "    cmp x0, #0\n    cset x0, eq\n"@
                            } else if is_wide(ty) {
                                "    mvn x0, x0\n    mvn x1, x1\n"@
                            } else {
                                "    mvn x0, x0\n"@ + normalize_text(ty)
                            },
                        ),
                    ),
                }
            },
            ExprView::Binary { .. } => {
                let (r, st1) = cg_binary(fs, cx, st, e, ty);
                match r {
                    Err(msg) => (Err(msg), st1),
                    Ok(_) => (Ok(ty), st1),
                }
            },
        },
    }
}

/// A binary expression's code for a result of type `ty`.
#[verifier::opaque]
pub open spec fn cg_binary(
    fs: spec_fn(FloatQuery) -> FloatAnswer,
    cx: ContextView,
    st: EmitView,
    e: ExprView,
    ty: TypeView,
) -> Step<()>
    decreases e, 9int, 0nat,
{
    match e {
        ExprView::Binary { left, operator, right } => if operator is BoolAnd || operator is BoolOr {
            cg_logic(fs, cx, st, e)
        } else if operator is Equal || operator is NotEqual {
            cg_equality(fs, cx, st, e)
        } else {
            cg_value_binary(fs, cx, st, e, ty)
        },
        _ => (Err(Seq::empty()), st),
    }
}

/// `&&` and `||` with a branch around the right operand.
#[verifier::opaque]
pub open spec fn cg_logic(fs: spec_fn(FloatQuery) -> FloatAnswer, cx: ContextView, st: EmitView, e: ExprView) -> Step<()>
    decreases e, 8int, 0nat,
{
    match e {
        ExprView::Binary { left, operator, right } => {
            let and = operator is BoolAnd;
            let (l1, st1) = cg_label(st, if and { "bool_and_false"@ } else { "bool_or_true"@ });
            match l1 {
                Err(msg) => (Err(msg), st1),
                Ok(short_label) => {
                    let (l2, st2) = cg_label(st1, if and { "bool_and_end"@ } else { "bool_or_end"@ });
                    match l2 {
                        Err(msg) => (Err(msg), st2),
                        Ok(end_label) => {
                            let (r1, st3) = cg_expr(fs, cx, st2, *left, Some(TypeView::Bool));
                            match r1 {
                                Err(msg) => (Err(msg), st3),
                                Ok(_) => {
                                    let st4 = emit(
                                        st3,
                                        "    cmp x0, #0\n"@ + (if and { "    b.eq "@ } else { "    b.ne "@ })
                                            + short_label + nl(),
                                    );
                                    let (r2, st5) = cg_expr(fs, cx, st4, *right, Some(TypeView::Bool));
                                    match r2 {
                                        Err(msg) => (Err(msg), st5),
                                        Ok(_) => (
                                            Ok(()),
                                            emit(
                                                st5,
                                                "    cmp x0, #0\n    cset x0, ne\n"@ + branch_text(end_label)
                                                    + label_text(short_label) + (if and {
                                                    "    mov x0, #0\n"@
                                                } else {
                                                    "    mov x0, #1\n"@
                                                }) + label_text(end_label),
                                            ),
                                        ),
                                    }
                                },
                            }
                        },
                    }
                },
            }
        },
        _ => (Err(Seq::empty()), st),
    }
}

pub open spec fn condition_code(operator: BinaryOperator) -> Seq<char> {
    if operator is Equal {
        "eq"@
    } else {
        "ne"@
    }
}

/// `==` and `!=`: both operands, then a compare of their bits.
#[verifier::opaque]
pub open spec fn cg_equality(fs: spec_fn(FloatQuery) -> FloatAnswer, cx: ContextView, st: EmitView, e: ExprView) -> Step<()>
    decreases e, 8int, 0nat,
{
    match e {
        ExprView::Binary { left, operator, right } => match cg_operand_type(cx, st, e, None) {
            Err(msg) => (Err(msg), st),
            Ok(operand_ty) => if operand_ty is Struct {
                (Err("native backend cannot compare structs yet"@), st)
            } else {
                let (r1, st1) = cg_expr(fs, cx, st, *left, Some(operand_ty));
                match r1 {
                    Err(msg) => (Err(msg), st1),
                    Ok(_) => {
                        let st2 = emit(st1, push_text(operand_ty));
                        let (r2, st3) = cg_expr(fs, cx, st2, *right, Some(operand_ty));
                        match r2 {
                            Err(msg) => (Err(msg), st3),
                            Ok(_) => if is_wide(operand_ty) {
                                (
                                    Ok(()),
                                    emit(
                                        st3,
                                        "    mov x2, x0\n    mov x3, x1\n"@ + pop_text(operand_ty)
                                            + "    eor x0, x0, x2\n    eor x1, x1, x3\n    orr x0, x0, x1\n    cmp x0, #0\n"@
                                            + "    cset x0, "@ + condition_code(operator) + nl(),
                                    ),
                                )
                            } else {
                                (
                                    Ok(()),
                                    emit(
                                        st3,
                                        "    mov x1, x0\n"@ + pop_text(operand_ty) + (if operand_ty is F16
                                            || operand_ty is F32 {
                                            "    fmov s0, w0\n    fmov s1, w1\n    fcmp s0, s1\n"@
                                        } else if operand_ty is F64 {
                                            "    fmov d0, x0\n    fmov d1, x1\n    fcmp d0, d1\n"@
                                        } else {
                                            "    cmp x0, x1\n"@
                                        }) + "    cset x0, "@ + condition_code(operator) + nl(),
                                    ),
                                )
                            },
                        }
                    },
                }
            },
        },
        _ => (Err(Seq::empty()), st),
    }
}

pub open spec fn msg_operator(operator: BinaryOperator, ty: TypeView) -> Seq<char> {
    "operator `"@ + operator_symbol(operator) + "` cannot be used with `"@ + ty.name() + "`"@
}

/// The instruction of an operator on 64-bit registers `x0` and `x1`.
pub open spec fn integer_operator_text(operator: BinaryOperator, ty: TypeView) -> Result<Seq<char>, Seq<char>> {
    let signed = ty.is_signed_integer();
    match operator {
        BinaryOperator::Add => Ok("    add x0, x0, x1\n"@),
        BinaryOperator::Subtract => Ok("    sub x0, x0, x1\n"@),
        BinaryOperator::Multiply => Ok("    mul x0, x0, x1\n"@),
        BinaryOperator::Divide => Ok(if signed { "    sdiv x0, x0, x1\n"@ } else { "    udiv x0, x0, x1\n"@ }),
        BinaryOperator::BitAnd => Ok("    and x0, x0, x1\n"@),
        BinaryOperator::BitOr => Ok("    orr x0, x0, x1\n"@),
        BinaryOperator::BitXor => Ok("    eor x0, x0, x1\n"@),
        BinaryOperator::ShiftLeft => Ok("    lsl x0, x0, x1\n"@),
        BinaryOperator::ShiftRight => Ok(if signed { "    asr x0, x0, x1\n"@ } else { "    lsr x0, x0, x1\n"@ }),
        _ => Err(msg_operator(operator, ty)),
    }
}

/// The instructions of a float operator on `x0` and `x1`.
pub open spec fn float_operator_text(operator: BinaryOperator, ty: TypeView) -> Result<Seq<char>, Seq<char>> {
    let (moves, register, back) = if ty is F64 {
        ("    fmov d0, x0\n    fmov d1, x1\n"@, "d"@, "    fmov x0, d0\n"@)
    } else {
        ("    fmov s0, w0\n    fmov s1, w1\n"@, "s"@, "    fmov w0, s0\n"@)
    };
    let name = match operator {
        BinaryOperator::Add => Some("fadd"@),
        BinaryOperator::Subtract => Some("fsub"@),
        BinaryOperator::Multiply => Some("fmul"@),
        BinaryOperator::Divide => Some("fdiv"@),
        _ => None,
    };
    if !ty.is_float() {
        Err(Seq::empty())
    } else {
        match name {
            None => Err(msg_operator(operator, ty)),
            Some(n) => Ok(
                moves + "    "@ + n + " "@ + register + "0, "@ + register + "0, "@ + register + "1"@ + nl() + back,
            ),
        }
    }
}

pub open spec fn signed_division_text(a: Seq<char>, b: Seq<char>, c: Seq<char>, d: Seq<char>) -> Seq<char> {
    "    eor x4, x1, x3\n    lsr x4, x4, #63\n"@ + "    tbz x1, #63, "@ + a + nl()
        + "    mvn x0, x0\n    mvn x1, x1\n    adds x0, x0, #1\n    adc x1, x1, xzr\n"@ + label_text(a)
        + "    tbz x3, #63, "@ + b + nl() + "    mvn x2, x2\n    mvn x3, x3\n    adds x2, x2, #1\n    adc x3, x3, xzr\n"@
        + label_text(b)
        + "    sub sp, sp, #16\n    str x4, [sp]\n    bl L_mould_udivmod_u128\n    ldr x4, [sp]\n    add sp, sp, #16\n"@
        + "    cbz x4, "@ + c + nl() + "    mvn x0, x0\n    mvn x1, x1\n    adds x0, x0, #1\n    adc x1, x1, xzr\n"@
        + branch_text(d) + label_text(c) + label_text(d)
}

pub open spec fn shift_left_text(ge64: Seq<char>, end: Seq<char>) -> Seq<char> {
    "    and x2, x2, #0x7f\n    cmp x2, #64\n"@ + "    b.hs "@ + ge64 + nl() + "    cmp x2, #0\n"@ + "    b.eq "@ + end
        + nl()
        + "    mov x4, x1\n    lsl x1, x1, x2\n    mov x5, #64\n    sub x5, x5, x2\n    lsr x4, x0, x5\n    orr x1, x1, x4\n    lsl x0, x0, x2\n"@
        + branch_text(end) + label_text(ge64) + "    sub x2, x2, #64\n    lsl x1, x0, x2\n    mov x0, #0\n"@
        + label_text(end)
}

pub open spec fn shift_right_text(ge64: Seq<char>, end: Seq<char>, signed: bool) -> Seq<char> {
    "    and x2, x2, #0x7f\n    cmp x2, #64\n"@ + "    b.hs "@ + ge64 + nl() + "    cmp x2, #0\n"@ + "    b.eq "@ + end
        + nl() + "    mov x4, x0\n    lsr x0, x0, x2\n    mov x5, #64\n    sub x5, x5, x2\n    lsl x4, x1, x5\n    orr x0, x0, x4\n"@
        + (if signed { "    asr x1, x1, x2\n"@ } else { "    lsr x1, x1, x2\n"@ }) + branch_text(end) + label_text(ge64)
        + "    sub x2, x2, #64\n"@ + (if signed {
        "    asr x0, x1, x2\n    asr x1, x1, #63\n"@
    } else {
        "    lsr x0, x1, x2\n    mov x1, #0\n"@
    }) + label_text(end)
}

pub open spec fn label_pair(st: EmitView, first: Seq<char>, second: Seq<char>) -> (Result<(Seq<char>, Seq<char>), Seq<char>>, EmitView) {
    let (a, st1) = cg_label(st, first);
    match a {
        Err(msg) => (Err(msg), st1),
        Ok(x) => {
            let (b, st2) = cg_label(st1, second);
            match b {
                Err(msg) => (Err(msg), st2),
                Ok(y) => (Ok((x, y)), st2),
            }
        },
    }
}

/// An operator on 128-bit operands in `x0:x1` and `x2:x3`.
pub open spec fn cg_wide_operator(st: EmitView, operator: BinaryOperator, ty: TypeView) -> Step<()> {
    match operator {
        BinaryOperator::Add => (Ok(()), emit(st, "    adds x0, x0, x2\n    adc x1, x1, x3\n"@)),
        BinaryOperator::Subtract => (Ok(()), emit(st, "    subs x0, x0, x2\n    sbc x1, x1, x3\n"@)),
        BinaryOperator::Multiply => (
            Ok(()),
            emit(
                st,
                "    mul x4, x0, x2\n    umulh x5, x0, x2\n    madd x5, x0, x3, x5\n    madd x1, x1, x2, x5\n    mov x0, x4\n"@,
            ),
        ),
        BinaryOperator::BitAnd => (Ok(()), emit(st, "    and x0, x0, x2\n    and x1, x1, x3\n"@)),
        BinaryOperator::BitOr => (Ok(()), emit(st, "    orr x0, x0, x2\n    orr x1, x1, x3\n"@)),
        BinaryOperator::BitXor => (Ok(()), emit(st, "    eor x0, x0, x2\n    eor x1, x1, x3\n"@)),
        BinaryOperator::Divide => if ty.is_signed_integer() {
            let (p, st1) = label_pair(st, "i128_div_left_positive"@, "i128_div_right_positive"@);
            match p {
                Err(msg) => (Err(msg), st1),
                Ok((a, b)) => {
                    let (q, st2) = label_pair(st1, "i128_div_positive_result"@, "i128_div_end"@);
                    match q {
                        Err(msg) => (Err(msg), st2),
                        Ok((c, d)) => (Ok(()), emit(st2, signed_division_text(a, b, c, d))),
                    }
                },
            }
        } else {
            (Ok(()), emit(st, "    bl L_mould_udivmod_u128\n"@))
        },
        BinaryOperator::ShiftLeft => {
            let (p, st1) = label_pair(st, "shl128_ge64"@, "shl128_end"@);
            match p {
                Err(msg) => (Err(msg), st1),
                Ok((a, b)) => (Ok(()), emit(st1, shift_left_text(a, b))),
            }
        },
        BinaryOperator::ShiftRight => {
            let (p, st1) = label_pair(st, "shr128_ge64"@, "shr128_end"@);
            match p {
                Err(msg) => (Err(msg), st1),
                Ok((a, b)) => (Ok(()), emit(st1, shift_right_text(a, b, ty.is_signed_integer()))),
            }
        },
        _ => (Err(msg_operator(operator, ty)), st),
    }
}

/// An arithmetic or bitwise operator: left operand pushed, right in `x0`, then the operation.
#[verifier::opaque]
pub open spec fn cg_value_binary(
    fs: spec_fn(FloatQuery) -> FloatAnswer,
    cx: ContextView,
    st: EmitView,
    e: ExprView,
    ty: TypeView,
) -> Step<()>
    decreases e, 8int, 0nat,
{
    match e {
        ExprView::Binary { left, operator, right } => {
            let (r1, st1) = cg_expr(fs, cx, st, *left, Some(ty));
            match r1 {
                Err(msg) => (Err(msg), st1),
                Ok(_) => {
                    let st2 = emit(st1, push_text(ty));
                    let (r2, st3) = cg_expr(fs, cx, st2, *right, Some(ty));
                    match r2 {
                        Err(msg) => (Err(msg), st3),
                        Ok(_) => if is_wide(ty) {
                            cg_wide_operator(emit(st3, "    mov x2, x0\n    mov x3, x1\n"@ + pop_text(ty)), operator, ty)
                        } else {
                            let st4 = emit(st3, "    mov x1, x0\n"@ + pop_text(ty));
                            if ty.is_float() {
                                match float_operator_text(operator, ty) {
                                    Err(msg) => (Err(msg), st4),
                                    Ok(text) => (Ok(()), emit(st4, text)),
                                }
                            } else {
                                match integer_operator_text(operator, ty) {
                                    Err(msg) => (Err(msg), st4),
                                    Ok(text) => (Ok(()), emit(st4, text + normalize_text(ty))),
                                }
                            }
                        },
                    }
                },
            }
        },
        _ => (Err(Seq::empty()), st),
    }
}

pub open spec fn registers_needed(parameters: Seq<TypeView>) -> nat
    decreases parameters.len(),
{
    if parameters.len() == 0 {
        0
    } else {
        register_count(parameters.last()) + registers_needed(parameters.drop_last())
    }
}

pub open spec fn msg_argument_count(name: Seq<char>, count: nat) -> Seq<char> {
    "function `"@ + name + "` expects "@ + decimal(count) + " argument(s)"@
}

/// The loads of pushed arguments into argument registers, from parameter `i` on.
pub open spec fn argument_loads_text(parameters: Seq<TypeView>, i: nat, register: nat) -> Seq<char>
    decreases parameters.len() - i,
{
    if i >= parameters.len() {
        Seq::empty()
    } else if is_wide(parameters[i as int]) {
        "    ldr x"@ + decimal(register) + ", [sp, #"@ + decimal(16 * i) + "]"@ + nl() + "    ldr x"@ + decimal(
            register + 1,
        ) + ", [sp, #"@ + decimal(16 * i + 8) + "]"@ + nl() + argument_loads_text(parameters, i + 1, register + 2)
    } else {
        "    ldr x"@ + decimal(register) + ", [sp, #"@ + decimal(16 * i) + "]"@ + nl() + argument_loads_text(
            parameters,
            i + 1,
            register + 1,
        )
    }
}

/// A call of a function of the program: arguments pushed last to first,
/// loaded into registers, then `bl`. The result is the return type.
#[verifier::opaque]
pub open spec fn cg_user_call(
    fs: spec_fn(FloatQuery) -> FloatAnswer,
    cx: ContextView,
    st: EmitView,
    name: Seq<char>,
    arguments: Seq<ExprView>,
) -> Step<Option<TypeView>>
    decreases arguments, 8int, 0nat,
{
    match lookup_signature(cx.signatures, name) {
        None => (Err("unknown function `"@ + name + "`"@), st),
        Some(signature) => if signature.parameters.len() != arguments.len() {
            (Err(msg_argument_count(name, signature.parameters.len())), st)
        } else if registers_needed(signature.parameters) > 8 {
            (Err("native backend supports up to 8 argument registers"@), st)
        } else {
            let (r, st1) = cg_push_arguments(fs, cx, st, arguments, signature.parameters, arguments.len());
            match r {
                Err(msg) => (Err(msg), st1),
                Ok(_) => {
                    let st2 = emit(
                        st1,
                        argument_loads_text(signature.parameters, 0, 0) + (if signature.parameters.len() == 0 {
                            Seq::empty()
                        } else {
                            add_imm_text("sp"@, "sp"@, 16 * signature.parameters.len())
                        }) + "    bl "@ + function_label(name) + nl(),
                    );
                    match signature.return_type {
                        None => (Ok(None), st2),
                        Some(rt) => if rt is Struct {
                            (Err("native backend cannot return structs yet"@), st2)
                        } else {
                            (Ok(Some(rt)), emit(st2, normalize_text(rt)))
                        },
                    }
                },
            }
        },
    }
}

/// Arguments `k - 1` down to `0`, each computed and pushed.
#[verifier::opaque]
pub open spec fn cg_push_arguments(
    fs: spec_fn(FloatQuery) -> FloatAnswer,
    cx: ContextView,
    st: EmitView,
    arguments: Seq<ExprView>,
    parameters: Seq<TypeView>,
    k: nat,
) -> Step<()>
    decreases arguments, 7int, k,
{
    if k == 0 || k > arguments.len() || k > parameters.len() {
        (Ok(()), st)
    } else {
        let (r, st1) = cg_expr(fs, cx, st, arguments[k - 1], Some(parameters[k - 1]));
        match r {
            Err(msg) => (Err(msg), st1),
            Ok(_) => cg_push_arguments(fs, cx, emit(st1, push_text(parameters[k - 1])), arguments, parameters, (k - 1) as nat),
        }
    }
}

/// `alloc(value)`: `malloc` of the pointee's size, then the value stored there.
#[verifier::opaque]
pub open spec fn cg_alloc(
    fs: spec_fn(FloatQuery) -> FloatAnswer,
    cx: ContextView,
    st: EmitView,
    arguments: Seq<ExprView>,
    expected: Option<TypeView>,
) -> Step<TypeView>
    decreases arguments, 8int, 0nat,
{
    if arguments.len() != 1 {
        (Err("function `alloc` expects 1 argument"@), st)
    } else {
        match cg_type(cx, st, ExprView::Call { name: "alloc"@, arguments }, expected) {
            Err(msg) => (Err(msg), st),
            Ok(pointer_ty) => match pointer_ty {
                TypeView::Pointer(inner) => match cg_type_size(cx, *inner) {
                    Err(msg) => (Err(msg), st),
                    Ok(size) => {
                        let st1 = emit(st, mov_u64_text("x0"@, size as u64) + "    bl _malloc\n"@);
                        let (slot, st2) = cg_allocate_local(cx, st1, TypeView::U64, false);
                        match slot {
                            Err(msg) => (Err(msg), st2),
                            Ok(local) => {
                                let st3 = emit(st2, store_register_text("x0"@, local.offset));
                                let (r, st4) = cg_expr(fs, cx, st3, arguments[0], Some(*inner));
                                match r {
                                    Err(msg) => (Err(msg), st4),
                                    Ok(_) => {
                                        let st5 = emit(st4, load_register_text(local.offset, "x9"@));
                                        let stored = if *inner is Struct {
                                            match cg_type_size(cx, *inner) {
                                                Err(msg) => Err(msg),
                                                Ok(n) => Ok(copy_words_text("x0"@, "x9"@, 0, (n + 7) / 8)),
                                            }
                                        } else {
                                            Ok(store_to_address_text(*inner, "x9"@))
                                        };
                                        match stored {
                                            Err(msg) => (Err(msg), st5),
                                            Ok(text) => (
                                                Ok(pointer_ty),
                                                emit(st5, text + load_register_text(local.offset, "x0"@)),
                                            ),
                                        }
                                    },
                                }
                            },
                        }
                    },
                },
                _ => (Err("function `alloc` returns a pointer"@), st),
            },
        }
    }
}

pub open spec fn find_init_from(fields: Seq<FieldInitView>, name: Seq<char>, i: nat) -> Option<int>
    decreases fields.len() - i,
{
    if i >= fields.len() {
        None
    } else if fields[i as int].name == name {
        Some(i as int)
    } else {
        find_init_from(fields, name, i + 1)
    }
}

/// The address of a field inside a direct local.
pub open spec fn field_address_text(local: LocalView, field_offset: nat, register: Seq<char>) -> Result<
    Seq<char>,
    Seq<char>,
> {
    if local.indirect {
        Err("internal error: indirect local field address"@)
    } else if field_offset > local.offset {
        Err("internal error: field outside its local"@)
    } else {
        Ok(sub_imm_text(register, "x29"@, (local.offset - field_offset) as nat))
    }
}

/// A struct literal stored field by field into a local, in layout order.
#[verifier::opaque]
pub open spec fn cg_struct_literal_to_local(
    fs: spec_fn(FloatQuery) -> FloatAnswer,
    cx: ContextView,
    st: EmitView,
    name: Seq<char>,
    fields: Seq<FieldInitView>,
    local: LocalView,
) -> Step<()>
    decreases fields, 8int, 0nat,
{
    match cg_struct_layout(cx, name) {
        Err(msg) => (Err(msg), st),
        Ok(layout) => cg_literal_fields(fs, cx, st, name, fields, local, layout.fields, 0),
    }
}

/// The layout's fields from index `j` on.
#[verifier::opaque]
pub open spec fn cg_literal_fields(
    fs: spec_fn(FloatQuery) -> FloatAnswer,
    cx: ContextView,
    st: EmitView,
    name: Seq<char>,
    fields: Seq<FieldInitView>,
    local: LocalView,
    places: Seq<FieldPlace>,
    j: nat,
) -> Step<()>
    decreases fields, 7int, places.len() - j,
{
    if j >= places.len() {
        (Ok(()), st)
    } else {
        let place = places[j as int];
        match find_init_from(fields, place.name, 0) {
            None => (Err("missing field `"@ + place.name + "` in `"@ + name + "`"@), st),
            Some(k) => if 0 <= k < fields.len() {
                let (r, st1) = cg_expr(fs, cx, st, fields[k].value, Some(place.ty));
                match r {
                    Err(msg) => (Err(msg), st1),
                    Ok(_) => match field_address_text(local, place.offset, "x9"@) {
                        Err(msg) => (Err(msg), st1),
                        Ok(address) => {
                            let stored = if place.ty is Struct {
                                match cg_type_size(cx, place.ty) {
                                    Err(msg) => Err(msg),
                                    Ok(n) => Ok(copy_words_text("x0"@, "x9"@, 0, (n + 7) / 8)),
                                }
                            } else {
                                Ok(store_to_address_text(place.ty, "x9"@))
                            };
                            match stored {
                                Err(msg) => (Err(msg), st1),
                                Ok(text) => cg_literal_fields(
                                    fs,
                                    cx,
                                    emit(st1, address + text),
                                    name,
                                    fields,
                                    local,
                                    places,
                                    j + 1,
                                ),
                            }
                        },
                    },
                }
            } else {
                (Err(Seq::empty()), st)
            },
        }
    }
}

/// The address of a place: a variable, a field, or what a pointer points at.
#[verifier::opaque]
pub open spec fn cg_lvalue_address(fs: spec_fn(FloatQuery) -> FloatAnswer, cx: ContextView, st: EmitView, e: ExprView) -> Step<
    TypeView,
>
    decreases e, 9int, 0nat,
{
    match e {
        ExprView::Variable(name) => match cg_local(st, name) {
            Err(msg) => (Err(msg), st),
            Ok(local) => (Ok(local.ty), emit(st, local_address_text(local, "x0"@))),
        },
        ExprView::FieldAccess { .. } => cg_field_address(fs, cx, st, e),
        ExprView::Dereference(inner) => {
            let (r, st1) = cg_expr(fs, cx, st, *inner, None);
            match r {
                Err(msg) => (Err(msg), st1),
                Ok(TypeView::Pointer(target)) => (Ok(*target), st1),
                Ok(t) => (Err("cannot dereference `"@ + t.name() + "`"@), st1),
            }
        },
        _ => (Err("cannot take address of temporary value"@), st),
    }
}

/// The address of `object.field` in `x0`; the result is the field's type.
#[verifier::opaque]
pub open spec fn cg_field_address(fs: spec_fn(FloatQuery) -> FloatAnswer, cx: ContextView, st: EmitView, e: ExprView) -> Step<
    TypeView,
>
    decreases e, 8int, 0nat,
{
    match e {
        ExprView::FieldAccess { object, field } => match cg_type(cx, st, *object, None) {
            Err(msg) => (Err(msg), st),
            Ok(object_ty) => {
                let (r, st1) = match object_ty {
                    TypeView::Struct(name) => {
                        let (a, s) = cg_lvalue_address(fs, cx, st, *object);
                        match a {
                            Err(msg) => (Err(msg), s),
                            Ok(_) => (Ok(name), s),
                        }
                    },
                    TypeView::Pointer(inner) => match *inner {
                        TypeView::Struct(name) => {
                            let (a, s) = cg_expr(fs, cx, st, *object, None);
                            match a {
                                Err(msg) => (Err(msg), s),
                                Ok(_) => (Ok(name), s),
                            }
                        },
                        t => (Err("cannot access field `"@ + field + "` on `&"@ + t.name() + "`"@), st),
                    },
                    t => (Err("cannot access field `"@ + field + "` on `"@ + t.name() + "`"@), st),
                };
                match r {
                    Err(msg) => (Err(msg), st1),
                    Ok(struct_name) => match cg_field_place(cx, struct_name, field) {
                        Err(msg) => (Err(msg), st1),
                        Ok(place) => (Ok(place.ty), emit(st1, add_imm_text("x0"@, "x0"@, place.offset))),
                    },
                }
            },
        },
        _ => (Err(Seq::empty()), st),
    }
}

// ---------------------------------------------------------------------------
// Code of statements and functions.
// ---------------------------------------------------------------------------

/// `println(value)`: a call of `puts`, `printf` or a 128-bit print helper.
pub open spec fn cg_println(
    fs: spec_fn(FloatQuery) -> FloatAnswer,
    cx: ContextView,
    st: EmitView,
    arguments: Seq<ExprView>,
) -> Step<()> {
    if arguments.len() != 1 {
        (Err("function `println` expects 1 argument"@), st)
    } else {
        let (r, st1) = cg_expr(fs, cx, st, arguments[0], None);
        match r {
            Err(msg) => (Err(msg), st1),
            Ok(ty) => if ty is Bool {
                let (p, st2) = label_pair(st1, "println_false"@, "println_end"@);
                match p {
                    Err(msg) => (Err(msg), st2),
                    Ok((f, end)) => (
                        Ok(()),
                        emit(
                            st2,
                            "    cmp x0, #0\n"@ + "    b.eq "@ + f + nl() + load_label_text("x0"@, "L_mould_bool_true"@)
                                + "    bl _puts\n"@ + branch_text(end) + label_text(f) + load_label_text(
                                "x0"@,
                                "L_mould_bool_false"@,
                            ) + "    bl _puts\n"@ + label_text(end),
                        ),
                    ),
                }
            } else if ty is Pointer {
                (Ok(()), emit(st1, printf_text("L_mould_fmt_pointer"@)))
            } else if ty is I128 {
                (Ok(()), emit(st1, "    bl _mould_print_i128\n"@))
            } else if ty is U128 {
                (Ok(()), emit(st1, "    bl _mould_print_u128\n"@))
            } else if ty is F16 || ty is F32 {
                (
                    Ok(()),
                    emit(st1, "    fmov s0, w0\n    fcvt d0, s0\n    fmov x0, d0\n"@ + printf_text("L_mould_fmt_float"@)),
                )
            } else if ty is F64 {
                (Ok(()), emit(st1, printf_text("L_mould_fmt_float"@)))
            } else if ty.is_signed_integer() {
                (Ok(()), emit(st1, printf_text("L_mould_fmt_signed"@)))
            } else if ty.is_integer() {
                (Ok(()), emit(st1, printf_text("L_mould_fmt_unsigned"@)))
            } else if ty is Struct {
                (Err("native backend cannot print structs yet"@), st1)
            } else {
                (Err("native backend cannot print `"@ + ty.name() + "` yet"@), st1)
            },
        }
    }
}

/// `dealloc(pointer)`: a call of `free`.
pub open spec fn cg_dealloc(
    fs: spec_fn(FloatQuery) -> FloatAnswer,
    cx: ContextView,
    st: EmitView,
    arguments: Seq<ExprView>,
) -> Step<()> {
    if arguments.len() != 1 {
        (Err("function `dealloc` expects 1 argument"@), st)
    } else {
        let (r, st1) = cg_expr(fs, cx, st, arguments[0], None);
        match r {
            Err(msg) => (Err(msg), st1),
            Ok(ty) => if ty is Pointer {
                (Ok(()), emit(st1, "    bl _free\n"@))
            } else {
                (Err("function `dealloc` expects pointer, found `"@ + ty.name() + "`"@), st1)
            },
        }
    }
}

pub open spec fn cg_call_statement(
    fs: spec_fn(FloatQuery) -> FloatAnswer,
    cx: ContextView,
    st: EmitView,
    name: Seq<char>,
    arguments: Seq<ExprView>,
) -> Step<()> {
    if name == "println"@ {
        cg_println(fs, cx, st, arguments)
    } else if name == "dealloc"@ {
        cg_dealloc(fs, cx, st, arguments)
    } else if name == "alloc"@ {
        let (r, st1) = cg_alloc(fs, cx, st, arguments, None);
        match r {
            Err(msg) => (Err(msg), st1),
            Ok(_) => (Ok(()), st1),
        }
    } else {
        let (r, st1) = cg_user_call(fs, cx, st, name, arguments);
        match r {
            Err(msg) => (Err(msg), st1),
            Ok(_) => (Ok(()), st1),
        }
    }
}

/// A `let` value stored into its local.
pub open spec fn cg_store_to_local(
    fs: spec_fn(FloatQuery) -> FloatAnswer,
    cx: ContextView,
    st: EmitView,
    value: ExprView,
    ty: TypeView,
    local: LocalView,
) -> Step<()> {
    if ty is Struct {
        match value {
            ExprView::StructLiteral { name, fields } => cg_struct_literal_to_local(fs, cx, st, name, fields, local),
            _ => {
                let (r, st1) = cg_expr(fs, cx, st, value, Some(ty));
                match r {
                    Err(msg) => (Err(msg), st1),
                    Ok(_) => match cg_type_size(cx, ty) {
                        Err(msg) => (Err(msg), st1),
                        Ok(n) => (
                            Ok(()),
                            emit(st1, local_address_text(local, "x9"@) + copy_words_text("x0"@, "x9"@, 0, (n + 7) / 8)),
                        ),
                    },
                }
            },
        }
    } else {
        let (r, st1) = cg_expr(fs, cx, st, value, Some(ty));
        match r {
            Err(msg) => (Err(msg), st1),
            Ok(_) => if local.indirect {
                (Err("internal error: cannot store direct value to indirect local"@), st1)
            } else {
                (
                    Ok(()),
                    emit(st1, sub_imm_text("x9"@, "x29"@, local.offset) + store_to_address_text(ty, "x9"@)),
                )
            },
        }
    }
}

pub open spec fn pop_scope(st: EmitView) -> EmitView {
    if st.scopes.len() == 0 {
        st
    } else {
        EmitView { scopes: st.scopes.drop_last(), ..st }
    }
}

pub open spec fn push_scope(st: EmitView) -> EmitView {
    EmitView { scopes: st.scopes.push(Seq::empty()), ..st }
}

pub open spec fn pop_loop(st: EmitView) -> EmitView {
    if st.loops.len() == 0 {
        st
    } else {
        EmitView { loops: st.loops.drop_last(), ..st }
    }
}

/// A statement's code.
#[verifier::opaque]
pub open spec fn cg_statement(
    fs: spec_fn(FloatQuery) -> FloatAnswer,
    cx: ContextView,
    st: EmitView,
    s: StmtView,
) -> Step<()>
    decreases s, 1int,
{
    match s {
        StmtView::Let { name, ty, value } => {
            let (r, st1) = cg_allocate_local(cx, st, ty, false);
            match r {
                Err(msg) => (Err(msg), st1),
                Ok(local) => {
                    let (r2, st2) = cg_store_to_local(fs, cx, st1, value, ty, local);
                    match r2 {
                        Err(msg) => (Err(msg), st2),
                        Ok(_) => (Ok(()), cg_insert_local(st2, name, local)),
                    }
                },
            }
        },
        StmtView::Call { name, arguments } => cg_call_statement(fs, cx, st, name, arguments),
        StmtView::Return(value) => match cx.function.return_type {
            None => (Err("cannot return a value from function without return type"@), st),
            Some(rt) => if rt is Struct {
                (Err("native backend cannot return structs yet"@), st)
            } else {
                let (r, st1) = cg_expr(fs, cx, st, value, Some(rt));
                match r {
                    Err(msg) => (Err(msg), st1),
                    Ok(_) => (Ok(()), emit(st1, branch_text(cx.return_label))),
                }
            },
        },
        StmtView::If { condition, then_block, else_block } => {
            let (p, st1) = label_pair(st, "if_else"@, "if_end"@);
            match p {
                Err(msg) => (Err(msg), st1),
                Ok((else_label, end_label)) => {
                    let (r, st2) = cg_expr(fs, cx, st1, condition, Some(TypeView::Bool));
                    match r {
                        Err(msg) => (Err(msg), st2),
                        Ok(_) => {
                            let st3 = emit(st2, "    cmp x0, #0\n"@ + "    b.eq "@ + else_label + nl());
                            let (r2, st4) = cg_block(fs, cx, st3, then_block);
                            match r2 {
                                Err(msg) => (Err(msg), st4),
                                Ok(_) => {
                                    let st5 = emit(st4, branch_text(end_label) + label_text(else_label));
                                    match else_block {
                                        None => (Ok(()), emit(st5, label_text(end_label))),
                                        Some(b) => {
                                            let (r3, st6) = cg_block(fs, cx, st5, b);
                                            match r3 {
                                                Err(msg) => (Err(msg), st6),
                                                Ok(_) => (Ok(()), emit(st6, label_text(end_label))),
                                            }
                                        },
                                    }
                                },
                            }
                        },
                    }
                },
            }
        },
        StmtView::Loop(body) => {
            let (p, st1) = label_pair(st, "loop_start"@, "loop_end"@);
            match p {
                Err(msg) => (Err(msg), st1),
                Ok((start, end)) => {
                    let st2 = emit(EmitView { loops: st1.loops.push((start, end)), ..st1 }, label_text(start));
                    let (r, st3) = cg_block(fs, cx, st2, body);
                    match r {
                        Err(msg) => (Err(msg), st3),
                        Ok(_) => (Ok(()), pop_loop(emit(st3, branch_text(start) + label_text(end)))),
                    }
                },
            }
        },
        StmtView::While { condition, body } => {
            let (p, st1) = label_pair(st, "while_start"@, "while_end"@);
            match p {
                Err(msg) => (Err(msg), st1),
                Ok((start, end)) => {
                    let st2 = emit(EmitView { loops: st1.loops.push((start, end)), ..st1 }, label_text(start));
                    let (r, st3) = cg_expr(fs, cx, st2, condition, Some(TypeView::Bool));
                    match r {
                        Err(msg) => (Err(msg), st3),
                        Ok(_) => {
                            let st4 = emit(st3, "    cmp x0, #0\n"@ + "    b.eq "@ + end + nl());
                            let (r2, st5) = cg_block(fs, cx, st4, body);
                            match r2 {
                                Err(msg) => (Err(msg), st5),
                                Ok(_) => (Ok(()), pop_loop(emit(st5, branch_text(start) + label_text(end)))),
                            }
                        },
                    }
                },
            }
        },
        StmtView::Break => if st.loops.len() == 0 {
            (Err("cannot `break` outside loop"@), st)
        } else {
            (Ok(()), emit(st, branch_text(st.loops.last().1)))
        },
        StmtView::Continue => if st.loops.len() == 0 {
            (Err("cannot `continue` outside loop"@), st)
        } else {
            (Ok(()), emit(st, branch_text(st.loops.last().0)))
        },
    }
}

/// A block's statements in a scope of their own.
#[verifier::opaque]
pub open spec fn cg_block(
    fs: spec_fn(FloatQuery) -> FloatAnswer,
    cx: ContextView,
    st: EmitView,
    statements: Seq<StmtView>,
) -> Step<()>
    decreases statements, 2int,
{
    let (r, st1) = cg_statements(fs, cx, push_scope(st), statements);
    match r {
        Err(msg) => (Err(msg), st1),
        Ok(_) => (Ok(()), pop_scope(st1)),
    }
}

#[verifier::opaque]
pub open spec fn cg_statements(
    fs: spec_fn(FloatQuery) -> FloatAnswer,
    cx: ContextView,
    st: EmitView,
    statements: Seq<StmtView>,
) -> Step<()>
    decreases statements, 0int,
{
    if statements.len() == 0 {
        (Ok(()), st)
    } else {
        let (r, st1) = cg_statement(fs, cx, st, statements[0]);
        match r {
            Err(msg) => (Err(msg), st1),
            Ok(_) => cg_statements(fs, cx, st1, statements.drop_first()),
        }
    }
}

/// The parameters from index `i` on: each gets a slot and is stored from
/// its argument registers, starting at register `register`.
pub open spec fn cg_parameters(cx: ContextView, st: EmitView, parameters: Seq<BindingView>, i: nat, register: nat) -> Step<()>
    decreases parameters.len() - i,
{
    if i >= parameters.len() {
        (Ok(()), st)
    } else {
        let p = parameters[i as int];
        let count = register_count(p.ty);
        if register + count > 8 {
            (Err("native backend supports up to 8 argument registers"@), st)
        } else {
            let (r, st1) = cg_allocate_local(cx, st, p.ty, p.ty is Struct);
            match r {
                Err(msg) => (Err(msg), st1),
                Ok(local) => {
                    let st2 = cg_insert_local(st1, p.name, local);
                    let text = if is_wide(p.ty) {
                        sub_imm_text("x9"@, "x29"@, local.offset) + "    str x"@ + decimal(register) + ", [x9]"@ + nl()
                            + "    str x"@ + decimal(register + 1) + ", [x9, #8]"@ + nl()
                    } else {
                        store_register_text("x"@ + decimal(register), local.offset)
                    };
                    cg_parameters(cx, emit(st2, text), parameters, i + 1, register + count)
                },
            }
        }
    }
}

/// The code of one function, with its prologue and epilogue; the result is
/// the text and the label counter after it.
pub open spec fn cg_function(
    fs: spec_fn(FloatQuery) -> FloatAnswer,
    f: FunctionView,
    signatures: Seq<(Seq<char>, SignatureView)>,
    layouts: Layouts,
    next_label: nat,
) -> Result<(Seq<char>, nat), Seq<char>> {
    if f.name == "main"@ && f.parameters.len() != 0 {
        Err("function `main` cannot have parameters"@)
    } else {
        let cx = ContextView {
            function: f,
            signatures,
            layouts,
            return_label: "L_mould_"@ + f.name + "_return"@,
        };
        let st0 = EmitView {
            body: Seq::empty(),
            scopes: seq![Seq::empty()],
            loops: Seq::empty(),
            next_offset: 0,
            next_label,
        };
        let (r, st1) = cg_parameters(cx, st0, f.parameters, 0, 0);
        match r {
            Err(msg) => Err(msg),
            Ok(_) => {
                let (r2, st2) = cg_block(fs, cx, st1, f.body);
                match r2 {
                    Err(msg) => Err(msg),
                    Ok(_) => {
                        let frame = align_up(st2.next_offset, 16);
                        if frame > usize::MAX {
                            Err(msg_too_large())
                        } else {
                            let label = function_label(f.name);
                            Ok(
                                (
                                    ".globl "@ + label + nl() + ".p2align 2\n"@ + label + ":"@ + nl()
                                        + "    stp x29, x30, [sp, #-16]!\n    mov x29, sp\n"@ + (if frame > 0 {
                                        sub_imm_text("sp"@, "sp"@, frame)
                                    } else {
                                        Seq::empty()
                                    }) + st2.body + label_text(cx.return_label) + (if f.return_type is None {
                                        "    mov x0, #0\n"@
                                    } else {
                                        Seq::empty()
                                    }) + (if frame > 0 {
                                        add_imm_text("sp"@, "sp"@, frame)
                                    } else {
                                        Seq::empty()
                                    }) + "    ldp x29, x30, [sp], #16\n    ret\n\n"@,
                                    st2.next_label,
                                ),
                            )
                        }
                    },
                }
            },
        }
    }
}

/// The code of the functions from index `i` on.
pub open spec fn cg_functions(
    fs: spec_fn(FloatQuery) -> FloatAnswer,
    functions: Seq<FunctionView>,
    i: nat,
    signatures: Seq<(Seq<char>, SignatureView)>,
    layouts: Layouts,
    next_label: nat,
    text: Seq<char>,
) -> Result<Seq<char>, Seq<char>>
    decreases functions.len() - i,
{
    if i >= functions.len() {
        Ok(text)
    } else {
        match cg_function(fs, functions[i as int], signatures, layouts, next_label) {
            Err(msg) => Err(msg),
            Ok((code, label)) => cg_functions(fs, functions, i + 1, signatures, layouts, label, text + code),
        }
    }
}

// ---------------------------------------------------------------------------
// The whole program.
// ---------------------------------------------------------------------------

/// The data section and the start of the text section.
pub const ASSEMBLY_HEADER: &'static str = ".build_version macos, 11, 0\n.section __TEXT,__cstring,cstring_literals\nL_mould_fmt_signed:\n    .asciz \"%ld\\n\"\nL_mould_fmt_unsigned:\n    .asciz \"%lu\\n\"\nL_mould_fmt_float:\n    .asciz \"%f\\n\"\nL_mould_fmt_pointer:\n    .asciz \"%p\\n\"\nL_mould_bool_true:\n    .asciz \"true\"\nL_mould_bool_false:\n    .asciz \"false\"\n\n.section __TEXT,__text,regular,pure_instructions\n\n";

/// The helpers that print 128-bit integers and divide them.
pub const RUNTIME_HELPERS: &'static str = "
.globl _mould_print_i128
.p2align 2
_mould_print_i128:
    stp x29, x30, [sp, #-16]!
    mov x29, sp
    tbz x1, #63, L_mould_print_i128_positive
    mvn x0, x0
    mvn x1, x1
    adds x0, x0, #1
    adc x1, x1, xzr
    sub sp, sp, #16
    stp x0, x1, [sp]
    mov x0, #45
    bl _putchar
    ldp x0, x1, [sp]
    add sp, sp, #16
L_mould_print_i128_positive:
    bl _mould_print_u128
    ldp x29, x30, [sp], #16
    ret

.globl _mould_print_u128
.p2align 2
_mould_print_u128:
    stp x29, x30, [sp, #-16]!
    mov x29, sp
    stp x19, x20, [sp, #-16]!
    sub sp, sp, #64
    add x19, sp, #63
    strb wzr, [x19]
    cmp x0, #0
    ccmp x1, #0, #0, eq
    b.ne L_mould_print_u128_loop
    sub x19, x19, #1
    mov w6, #48
    strb w6, [x19]
    b L_mould_print_u128_emit
L_mould_print_u128_loop:
    bl L_mould_udivmod10_u128
    sub x19, x19, #1
    add w6, w2, #48
    strb w6, [x19]
    cmp x0, #0
    ccmp x1, #0, #0, eq
    b.ne L_mould_print_u128_loop
L_mould_print_u128_emit:
    mov x0, x19
    bl _puts
    add sp, sp, #64
    ldp x19, x20, [sp], #16
    ldp x29, x30, [sp], #16
    ret

.p2align 2
L_mould_udivmod10_u128:
    mov x6, x0
    mov x7, x1
    mov x0, #0
    mov x1, #0
    mov x2, #0
    mov x5, #128
L_mould_udivmod10_u128_loop:
    lsr x8, x7, #63
    lsl x2, x2, #1
    orr x2, x2, x8
    cmp x2, #10
    b.lo L_mould_udivmod10_u128_no_sub
    sub x2, x2, #10
    mov x8, #1
    b L_mould_udivmod10_u128_have_bit
L_mould_udivmod10_u128_no_sub:
    mov x8, #0
L_mould_udivmod10_u128_have_bit:
    adds x0, x0, x0
    adcs x1, x1, x1
    orr x0, x0, x8
    adds x6, x6, x6
    adc x7, x7, x7
    subs x5, x5, #1
    b.ne L_mould_udivmod10_u128_loop
    ret

.p2align 2
L_mould_udivmod_u128:
    cmp x2, #0
    ccmp x3, #0, #0, eq
    b.ne L_mould_udivmod_u128_nonzero
    mov x0, #0
    mov x1, #0
    mov x2, #0
    mov x3, #0
    ret
L_mould_udivmod_u128_nonzero:
    mov x6, x0
    mov x7, x1
    mov x0, #0
    mov x1, #0
    mov x4, #0
    mov x5, #0
    mov x9, #128
L_mould_udivmod_u128_loop:
    lsr x8, x7, #63
    adds x4, x4, x4
    adcs x5, x5, x5
    orr x4, x4, x8
    cmp x5, x3
    b.hi L_mould_udivmod_u128_sub
    b.lo L_mould_udivmod_u128_no_sub
    cmp x4, x2
    b.lo L_mould_udivmod_u128_no_sub
L_mould_udivmod_u128_sub:
    subs x4, x4, x2
    sbc x5, x5, x3
    mov x8, #1
    b L_mould_udivmod_u128_have_bit
L_mould_udivmod_u128_no_sub:
    mov x8, #0
L_mould_udivmod_u128_have_bit:
    adds x0, x0, x0
    adcs x1, x1, x1
    orr x0, x0, x8
    adds x6, x6, x6
    adc x7, x7, x7
    subs x9, x9, #1
    b.ne L_mould_udivmod_u128_loop
    mov x2, x4
    mov x3, x5
    ret

";

/// The assembly of a checked program whose `main` exists.
pub open spec fn cg_program(fs: spec_fn(FloatQuery) -> FloatAnswer, p: ProgramView, checked: CheckedProgramView) -> Result<
    Seq<char>,
    Seq<char>,
> {
    if find_function(p, "main"@) is None {
        Err("function `main` not found"@)
    } else {
        match cg_layouts(checked.structs, 0, Seq::empty()) {
            Err(msg) => Err(msg),
            Ok(layouts) => match cg_functions(fs, p.functions, 0, checked.functions, layouts, 0, Seq::empty()) {
                Err(msg) => Err(msg),
                Ok(text) => Ok(ASSEMBLY_HEADER@ + text + RUNTIME_HELPERS@ + ".subsections_via_symbols\n"@),
            },
        }
    }
}

/// What compiling a program gives: the checker's error, or the backend's result.
pub open spec fn spec_compile_program(fs: spec_fn(FloatQuery) -> FloatAnswer, p: ProgramView) -> Result<
    Seq<char>,
    Seq<char>,
> {
    match spec_check_program(p) {
        Err(msg) => Err(msg),
        Ok(checked) => cg_program(fs, p, checked),
    }
}

/// The message of a parse error as the compiler reports it.
pub open spec fn parse_error_message(e: ParseErrorView) -> Seq<char> {
    "parse error at "@ + decimal(e.span.start as nat) + ".."@ + decimal(e.span.end as nat) + ": "@ + e.message
}

/// What compiling source text gives.
pub open spec fn spec_compile_source(fs: spec_fn(FloatQuery) -> FloatAnswer, source: Seq<char>) -> Result<
    Seq<char>,
    Seq<char>,
> {
    match spec_parse_source(source) {
        Err(e) => Err(parse_error_message(e)),
        Ok(p) => spec_compile_program(fs, p),
    }
}


// ---------------------------------------------------------------------------
// The generator.
// ---------------------------------------------------------------------------

/// Where a field lives in its struct.
#[derive(Debug, PartialEq, Eq)]
pub struct FieldLayout {
    pub name: String,
    pub offset: usize,
    pub ty: Type,
}

impl View for FieldLayout {
    type V = FieldPlace;

    open spec fn view(&self) -> FieldPlace {
        FieldPlace { name: self.name@, offset: self.offset as nat, ty: self.ty@ }
    }
}

/// A struct's size and the places of its fields.
#[derive(Debug, PartialEq, Eq)]
pub struct StructLayout {
    pub size: usize,
    pub fields: Vec<FieldLayout>,
}

impl View for StructLayout {
    type V = LayoutView;

    open spec fn view(&self) -> LayoutView {
        LayoutView { size: self.size as nat, fields: self.fields@.map_values(|f: FieldLayout| f@) }
    }
}

pub open spec fn layouts_view(layouts: Seq<(String, StructLayout)>) -> Layouts {
    layouts.map_values(|e: (String, StructLayout)| (e.0@, e.1@))
}

/// A variable's frame slot.
#[derive(Debug, PartialEq, Eq)]
pub struct Local {
    pub ty: Type,
    pub offset: usize,
    pub indirect: bool,
}

impl View for Local {
    type V = LocalView;

    open spec fn view(&self) -> LocalView {
        LocalView { ty: self.ty@, offset: self.offset as nat, indirect: self.indirect }
    }
}

/// What stays fixed while one function is generated.
pub struct Context<'a> {
    pub function: &'a Function,
    pub signatures: &'a Vec<(String, FunctionSignature)>,
    pub layouts: &'a Vec<(String, StructLayout)>,
    pub return_label: String,
}

impl<'a> View for Context<'a> {
    type V = ContextView;

    open spec fn view(&self) -> ContextView {
        ContextView {
            function: self.function@,
            signatures: functions_view(self.signatures@),
            layouts: layouts_view(self.layouts@),
            return_label: self.return_label@,
        }
    }
}

/// What generating one function changes.
pub struct Emitter {
    pub body: String,
    pub scopes: Vec<Vec<(String, Local)>>,
    pub loops: Vec<(String, String)>,
    pub next_offset: usize,
    pub next_label: usize,
}

pub open spec fn scope_view(scope: Seq<(String, Local)>) -> Seq<(Seq<char>, LocalView)> {
    scope.map_values(|e: (String, Local)| (e.0@, e.1@))
}

impl View for Emitter {
    type V = EmitView;

    open spec fn view(&self) -> EmitView {
        EmitView {
            body: self.body@,
            scopes: self.scopes@.map_values(|s: Vec<(String, Local)>| scope_view(s@)),
            loops: self.loops@.map_values(|l: (String, String)| (l.0@, l.1@)),
            next_offset: self.next_offset as nat,
            next_label: self.next_label as nat,
        }
    }
}

pub open spec fn type_step(r: Result<Type, CompileError>, s: Step<TypeView>, after: EmitView) -> bool {
    match r {
        Ok(t) => s == (Ok::<TypeView, Seq<char>>(t@), after),
        Err(e) => s == (Err::<TypeView, Seq<char>>(e@), after),
    }
}

pub open spec fn unit_step(r: Result<(), CompileError>, s: Step<()>, after: EmitView) -> bool {
    match r {
        Ok(_) => s == (Ok::<(), Seq<char>>(()), after),
        Err(e) => s == (Err::<(), Seq<char>>(e@), after),
    }
}

pub open spec fn optional_view(t: Option<&Type>) -> Option<TypeView> {
    match t {
        Some(t) => Some(t@),
        None => None,
    }
}

fn backend_error(message: String) -> (e: CompileError)
    ensures
        e@ == message@,
{
    CompileError { message }
}

fn error_str(message: &str) -> (e: CompileError)
    ensures
        e@ == message@,
{
    CompileError { message: String::from_str(message) }
}

fn emit_str(st: &mut Emitter, text: &str)
    ensures
        final(st)@ == emit(old(st)@, text@),
{
    st.body.append(text);
}

fn u64_text(v: u64) -> (r: String)
    ensures
        r@ == decimal(v as nat),
{
    u128_to_string(v as u128)
}

fn movk(register: &str, value: u64, shift: u64) -> (r: String)
    requires
        shift < 64,
    ensures
        r@ == movk_text(register@, value, shift),
{
    let part = (value >> shift) & 0xffff;
    if part != 0 {
        let p = u64_text(part);
        let s = u64_text(shift);
        let mut r = concat5("    movk ", register, ", #", p.as_str(), ", lsl #");
        r.append(s.as_str());
        r.append("\n");
        r
    } else {
        String::new()
    }
}

fn mov_u64(register: &str, value: u64) -> (r: String)
    ensures
        r@ == mov_u64_text(register@, value),
{
    let low = u64_text(value & 0xffff);
    let mut r = concat5("    movz ", register, ", #", low.as_str(), "\n");
    let a = movk(register, value, 16);
    let b = movk(register, value, 32);
    let c = movk(register, value, 48);
    r.append(a.as_str());
    r.append(b.as_str());
    r.append(c.as_str());
    r
}

fn sub_imm(destination: &str, source: &str, value: usize) -> (r: String)
    ensures
        r@ == sub_imm_text(destination@, source@, value as nat),
{
    immediate(destination, source, value, "    sub ")
}

fn add_imm(destination: &str, source: &str, value: usize) -> (r: String)
    ensures
        r@ == add_imm_text(destination@, source@, value as nat),
{
    immediate(destination, source, value, "    add ")
}

fn immediate(destination: &str, source: &str, value: usize, op: &str) -> (r: String)
    requires
        op@ == "    sub "@ || op@ == "    add "@,
    ensures
        op@ == "    sub "@ ==> r@ == sub_imm_text(destination@, source@, value as nat),
        op@ == "    add "@ ==> r@ == add_imm_text(destination@, source@, value as nat),
{
    if value == 0 {
        if !str_eq(destination, source) {
            concat5("    mov ", destination, ", ", source, "\n")
        } else {
            String::new()
        }
    } else if value <= 4095 {
        let v = usize_to_string(value);
        let mut r = concat5(op, destination, ", ", source, ", #");
        r.append(v.as_str());
        r.append("\n");
        r
    } else {
        let mut r = mov_u64("x16", value as u64);
        r.append(op);
        r.append(destination);
        r.append(", ");
        r.append(source);
        r.append(", x16");
        r.append("\n");
        r
    }
}

fn load_label(register: &str, label: &str) -> (r: String)
    ensures
        r@ == load_label_text(register@, label@),
{
    let mut r = concat5("    adrp ", register, ", ", label, "@PAGE");
    r.append("\n");
    r.append("    add ");
    r.append(register);
    r.append(", ");
    r.append(register);
    r.append(", ");
    r.append(label);
    r.append("@PAGEOFF");
    r.append("\n");
    r
}

fn label_of_function(name: &String) -> (r: String)
    ensures
        r@ == function_label(name@),
{
    if str_eq(name.as_str(), "main") {
        String::from_str("_main")
    } else {
        concat("_mould_", name.as_str())
    }
}

/// The least multiple of `alignment` not below `value`, if it fits.
fn align_up_checked(value: usize, alignment: usize) -> (r: Option<usize>)
    requires
        alignment >= 2,
    ensures
        match r {
            Some(v) => v == align_up(value as nat, alignment as nat),
            None => align_up(value as nat, alignment as nat) > usize::MAX,
        },
{
    if value % alignment == 0 {
        Some(value)
    } else {
        assert(value / alignment < usize::MAX) by (nonlinear_arith)
            requires
                alignment >= 2,
                value <= usize::MAX,
        ;
        let q = value / alignment + 1;
        q.checked_mul(alignment)
    }
}

fn is_wide_type(ty: &Type) -> (r: bool)
    ensures
        r == is_wide(ty@),
{
    match ty {
        Type::I128 | Type::U128 => true,
        _ => false,
    }
}

fn normalize(ty: &Type) -> (r: String)
    ensures
        r@ == normalize_text(ty@),
{
    match ty {
        Type::I8 => String::from_str("    sxtb x0, w0\n"),
        Type::I16 => String::from_str("    sxth x0, w0\n"),
        Type::I32 => String::from_str("    sxtw x0, w0\n"),
        Type::U8 | Type::Bool => String::from_str("    and x0, x0, #0xff\n"),
        Type::U16 => String::from_str("    and x0, x0, #0xffff\n"),
        Type::U32 => String::from_str("    mov w0, w0\n"),
        _ => String::new(),
    }
}

fn push_value(ty: &Type) -> (r: String)
    ensures
        r@ == push_text(ty@),
{
    let mut r = String::from_str("    sub sp, sp, #16\n    str x0, [sp]\n");
    let extra = if is_wide_type(ty) {
        String::from_str("    str x1, [sp, #8]\n")
    } else {
        String::new()
    };
    r.append(extra.as_str());
    r
}

fn pop_value(ty: &Type) -> (r: String)
    ensures
        r@ == pop_text(ty@),
{
    let mut r = String::from_str("    ldr x0, [sp]\n");
    let extra = if is_wide_type(ty) {
        String::from_str("    ldr x1, [sp, #8]\n")
    } else {
        String::new()
    };
    r.append(extra.as_str());
    r.append("    add sp, sp, #16\n");
    r
}

fn store_to_address(ty: &Type, register: &str) -> (r: String)
    ensures
        r@ == store_to_address_text(ty@, register@),
{
    let mut r = concat3("    str x0, [", register, "]");
    r.append("\n");
    let extra = if is_wide_type(ty) {
        let mut t = concat3("    str x1, [", register, ", #8]");
        t.append("\n");
        t
    } else {
        String::new()
    };
    r.append(extra.as_str());
    r
}

fn load_from_x0(ty: &Type) -> (r: String)
    ensures
        r@ == load_from_x0_text(ty@),
{
    if is_wide_type(ty) {
        String::from_str("    ldr x1, [x0, #8]\n    ldr x0, [x0]\n")
    } else {
        let n = normalize(ty);
        concat("    ldr x0, [x0]\n", n.as_str())
    }
}

fn printf_with_x0(format_label: &str) -> (r: String)
    ensures
        r@ == printf_text(format_label@),
{
    let mut r = String::from_str("    mov x1, x0\n    sub sp, sp, #16\n    str x1, [sp]\n");
    let l = load_label("x0", format_label);
    r.append(l.as_str());
    r.append("    bl _printf\n    add sp, sp, #16\n");
    r
}

/// Copies the words of a value `size` bytes long.
fn copy_words(source: &str, destination: &str, size: usize) -> (r: String)
    ensures
        r@ == copy_words_text(source@, destination@, 0, ((size + 7) / 8) as nat),
{
    let count: usize = size / 8 + if size % 8 == 0 {
        0
    } else {
        1
    };
    assert(count == (size + 7) / 8);
    let mut r = String::new();
    let mut i: usize = count;
    while i > 0
        invariant
            i <= count,
            count == (size + 7) / 8,
            r@ == copy_words_text(source@, destination@, i as nat, count as nat),
        decreases i,
    {
        let k = i - 1;
        assert(8 * k <= size);
        let off = usize_to_string(8 * k);
        let mut piece = concat5("    ldr x10, [", source, ", #", off.as_str(), "]");
        piece.append("\n");
        piece.append("    str x10, [");
        piece.append(destination);
        piece.append(", #");
        piece.append(off.as_str());
        piece.append("]");
        piece.append("\n");
        piece.append(r.as_str());
        r = piece;
        i = k;
    }
    r
}

fn branch_to(label: &String) -> (r: String)
    ensures
        r@ == branch_text(label@),
{
    concat3("    b ", label.as_str(), "\n")
}

fn label_line(label: &String) -> (r: String)
    ensures
        r@ == label_text(label@),
{
    concat3(label.as_str(), ":", "\n")
}


fn find_local_in<'a>(scope: &'a Vec<(String, Local)>, name: &String) -> (r: Option<&'a Local>)
    ensures
        match r {
            Some(l) => lookup_local_in(scope_view(scope@), name@, scope@.len()) == Some(l@),
            None => lookup_local_in(scope_view(scope@), name@, scope@.len()) is None,
        },
{
    let mut k: usize = scope.len();
    while k > 0
        invariant
            k <= scope@.len(),
            lookup_local_in(scope_view(scope@), name@, scope@.len()) == lookup_local_in(
                scope_view(scope@),
                name@,
                k as nat,
            ),
        decreases k,
    {
        if scope[k - 1].0 == *name {
            return Some(&scope[k - 1].1);
        }
        k = k - 1;
    }
    None
}

fn copy_local(l: &Local) -> (r: Local)
    ensures
        r@ == l@,
{
    Local { ty: l.ty.duplicate(), offset: l.offset, indirect: l.indirect }
}

/// The slot of a variable.
fn local_named(st: &Emitter, name: &String) -> (r: Result<Local, CompileError>)
    ensures
        match r {
            Ok(l) => cg_local(st@, name@) == Ok::<LocalView, Seq<char>>(l@),
            Err(e) => cg_local(st@, name@) == Err::<LocalView, Seq<char>>(e@),
        },
{
    let ghost scopes = st@.scopes;
    let mut k: usize = st.scopes.len();
    while k > 0
        invariant
            k <= st.scopes@.len(),
            scopes == st@.scopes,
            lookup_local_scopes(scopes, name@, scopes.len()) == lookup_local_scopes(scopes, name@, k as nat),
        decreases k,
    {
        if let Some(l) = find_local_in(&st.scopes[k - 1], name) {
            return Ok(copy_local(l));
        }
        k = k - 1;
    }
    Err(backend_error(concat3("variable `", name.as_str(), "` not found")))
}

fn insert_local(st: &mut Emitter, name: &String, local: Local)
    ensures
        final(st)@ == cg_insert_local(old(st)@, name@, local@),
{
    if st.scopes.len() == 0 {
        return;
    }
    let ghost before = st.scopes@;
    let ghost lv = local@;
    let mut last = st.scopes.pop().unwrap();
    let ghost last_before = last@;
    last.push((name.clone(), local));
    st.scopes.push(last);
    proof {
        assert(scope_view(last@) =~= scope_view(last_before).push((name@, lv)));
        assert(st.scopes@.map_values(|s: Vec<(String, Local)>| scope_view(s@)) =~= before.map_values(
            |s: Vec<(String, Local)>| scope_view(s@),
        ).update(before.len() - 1, scope_view(last_before).push((name@, lv))));
    }
}

fn layout_named<'a>(layouts: &'a Vec<(String, StructLayout)>, name: &String) -> (r: Option<&'a StructLayout>)
    ensures
        match r {
            Some(l) => find_layout(layouts_view(layouts@), name@) == Some(l@),
            None => find_layout(layouts_view(layouts@), name@) is None,
        },
{
    let mut i: usize = 0;
    while i < layouts.len()
        invariant
            i <= layouts@.len(),
            find_layout(layouts_view(layouts@), name@) == find_layout_from(layouts_view(layouts@), name@, i as nat),
        decreases layouts@.len() - i,
    {
        if layouts[i].0 == *name {
            return Some(&layouts[i].1);
        }
        i = i + 1;
    }
    None
}

fn struct_layout<'a>(cx: &'a Context, name: &String) -> (r: Result<&'a StructLayout, CompileError>)
    ensures
        match r {
            Ok(l) => cg_struct_layout(cx@, name@) == Ok::<LayoutView, Seq<char>>(l@),
            Err(e) => cg_struct_layout(cx@, name@) == Err::<LayoutView, Seq<char>>(e@),
        },
{
    match layout_named(cx.layouts, name) {
        Some(l) => Ok(l),
        None => Err(backend_error(concat3("unknown type `", name.as_str(), "`"))),
    }
}

fn type_size(cx: &Context, ty: &Type) -> (r: Result<usize, CompileError>)
    ensures
        match r {
            Ok(n) => cg_type_size(cx@, ty@) == Ok::<nat, Seq<char>>(n as nat),
            Err(e) => cg_type_size(cx@, ty@) == Err::<nat, Seq<char>>(e@),
        },
{
    match ty {
        Type::Struct(name) => {
            let l = struct_layout(cx, name)?;
            Ok(l.size)
        },
        Type::I128 | Type::U128 => Ok(16),
        _ => Ok(8),
    }
}

fn allocate_local(cx: &Context, st: &mut Emitter, ty: &Type, indirect: bool) -> (r: Result<Local, CompileError>)
    ensures
        match r {
            Ok(l) => cg_allocate_local(cx@, old(st)@, ty@, indirect) == (Ok::<LocalView, Seq<char>>(l@), final(st)@),
            Err(e) => cg_allocate_local(cx@, old(st)@, ty@, indirect) == (Err::<LocalView, Seq<char>>(e@), final(st)@),
        },
{
    let size = if indirect {
        8
    } else {
        type_size(cx, ty)?
    };
    let base = match align_up_checked(st.next_offset, 8) {
        Some(b) => b,
        None => {
            return Err(error_str("native backend cannot lay out a value this large"));
        },
    };
    let extra = match align_up_checked(size, 8) {
        Some(e) => e,
        None => {
            return Err(error_str("native backend cannot lay out a value this large"));
        },
    };
    let offset = match base.checked_add(extra) {
        Some(o) => o,
        None => {
            return Err(error_str("native backend cannot lay out a value this large"));
        },
    };
    st.next_offset = offset;
    Ok(Local { ty: ty.duplicate(), offset, indirect })
}

fn make_label(st: &mut Emitter, prefix: &str) -> (r: Result<String, CompileError>)
    ensures
        match r {
            Ok(l) => cg_label(old(st)@, prefix@) == (Ok::<Seq<char>, Seq<char>>(l@), final(st)@),
            Err(e) => cg_label(old(st)@, prefix@) == (Err::<Seq<char>, Seq<char>>(e@), final(st)@),
        },
{
    if st.next_label >= usize::MAX {
        return Err(error_str("native backend ran out of labels"));
    }
    let n = usize_to_string(st.next_label);
    let label = concat3("L_mould_", prefix, "_");
    let mut label = label;
    label.append(n.as_str());
    st.next_label = st.next_label + 1;
    Ok(label)
}

fn make_label_pair(st: &mut Emitter, first: &str, second: &str) -> (r: Result<(String, String), CompileError>)
    ensures
        match r {
            Ok((a, b)) => label_pair(old(st)@, first@, second@) == (
                Ok::<(Seq<char>, Seq<char>), Seq<char>>((a@, b@)),
                final(st)@,
            ),
            Err(e) => label_pair(old(st)@, first@, second@) == (Err::<(Seq<char>, Seq<char>), Seq<char>>(e@), final(st)@),
        },
{
    let a = make_label(st, first)?;
    let b = make_label(st, second)?;
    Ok((a, b))
}

fn local_address(local: &Local, register: &str) -> (r: String)
    ensures
        r@ == local_address_text(local@, register@),
{
    if !local.indirect {
        sub_imm(register, "x29", local.offset)
    } else {
        let mut r = sub_imm("x9", "x29", local.offset);
        r.append("    ldr ");
        r.append(register);
        r.append(", [x9]");
        r.append("\n");
        r
    }
}

fn store_register(register: &str, offset: usize) -> (r: String)
    ensures
        r@ == store_register_text(register@, offset as nat),
{
    let mut r = sub_imm("x9", "x29", offset);
    r.append("    str ");
    r.append(register);
    r.append(", [x9]");
    r.append("\n");
    r
}

fn load_register(offset: usize, register: &str) -> (r: String)
    ensures
        r@ == load_register_text(offset as nat, register@),
{
    let mut r = sub_imm("x9", "x29", offset);
    r.append("    ldr ");
    r.append(register);
    r.append(", [x9]");
    r.append("\n");
    r
}

fn load_frame_value(offset: usize, ty: &Type) -> (r: String)
    ensures
        r@ == load_frame_value_text(offset as nat, ty@),
{
    let mut r = sub_imm("x9", "x29", offset);
    r.append("    ldr x0, [x9]\n");
    let tail = if is_wide_type(ty) {
        String::from_str("    ldr x1, [x9, #8]\n")
    } else {
        normalize(ty)
    };
    r.append(tail.as_str());
    r
}

fn cannot_use(actual: &Type, expected: &Type) -> (e: CompileError)
    ensures
        e@ == msg_cannot_use(actual@, expected@),
{
    let a = actual.name();
    let b = expected.name();
    backend_error(concat5("cannot use `", a.as_str(), "` value as `", b.as_str(), "`"))
}

fn expect_type(actual: &Type, expected: &Type) -> (r: Result<Type, CompileError>)
    ensures
        match r {
            Ok(t) => cg_expect(actual@, expected@) == Ok::<TypeView, Seq<char>>(t@),
            Err(e) => cg_expect(actual@, expected@) == Err::<TypeView, Seq<char>>(e@),
        },
{
    if type_eq(actual, expected) {
        Ok(actual.duplicate())
    } else {
        Err(cannot_use(actual, expected))
    }
}

fn expect_optional(actual: &Type, expected: Option<&Type>) -> (r: Result<Type, CompileError>)
    ensures
        match r {
            Ok(t) => cg_expect_optional(actual@, optional_view(expected)) == Ok::<TypeView, Seq<char>>(t@),
            Err(e) => cg_expect_optional(actual@, optional_view(expected)) == Err::<TypeView, Seq<char>>(e@),
        },
{
    match expected {
        Some(e) => expect_type(actual, e),
        None => Ok(actual.duplicate()),
    }
}

fn is_untyped(e: &Expression) -> (r: bool)
    ensures
        r == is_untyped_literal(e@),
{
    match e {
        Expression::Integer(_) | Expression::Float(_) => true,
        _ => false,
    }
}

fn struct_of(object_ty: &Type, field: &String) -> (r: Result<String, CompileError>)
    ensures
        match r {
            Ok(n) => cg_struct_of(object_ty@, field@) == Ok::<Seq<char>, Seq<char>>(n@),
            Err(e) => cg_struct_of(object_ty@, field@) == Err::<Seq<char>, Seq<char>>(e@),
        },
{
    match object_ty {
        Type::Struct(name) => Ok(name.clone()),
        Type::Pointer(inner) => match &**inner {
            Type::Struct(name) => {
                assert((**inner)@ == TypeView::Struct(name@));
                assert(object_ty@ == TypeView::Pointer(Box::new((**inner)@)));
                Ok(name.clone())
            },
            t => {
                let n = t.name();
                Err(backend_error(concat5("cannot access field `", field.as_str(), "` on `&", n.as_str(), "`")))
            },
        },
        t => {
            let n = t.name();
            Err(backend_error(concat5("cannot access field `", field.as_str(), "` on `", n.as_str(), "`")))
        },
    }
}

fn find_place<'a>(fields: &'a Vec<FieldLayout>, name: &String) -> (r: Option<&'a FieldLayout>)
    ensures
        match r {
            Some(f) => find_place_from(fields@.map_values(|f: FieldLayout| f@), name@, 0) == Some(f@),
            None => find_place_from(fields@.map_values(|f: FieldLayout| f@), name@, 0) is None,
        },
{
    let ghost places = fields@.map_values(|f: FieldLayout| f@);
    let mut i: usize = 0;
    while i < fields.len()
        invariant
            i <= fields@.len(),
            places == fields@.map_values(|f: FieldLayout| f@),
            find_place_from(places, name@, 0) == find_place_from(places, name@, i as nat),
        decreases fields@.len() - i,
    {
        if fields[i].name == *name {
            return Some(&fields[i]);
        }
        i = i + 1;
    }
    None
}

fn field_place<'a>(cx: &'a Context, struct_name: &String, field: &String) -> (r: Result<&'a FieldLayout, CompileError>)
    ensures
        match r {
            Ok(f) => cg_field_place(cx@, struct_name@, field@) == Ok::<FieldPlace, Seq<char>>(f@),
            Err(e) => cg_field_place(cx@, struct_name@, field@) == Err::<FieldPlace, Seq<char>>(e@),
        },
{
    let layout = struct_layout(cx, struct_name)?;
    match find_place(&layout.fields, field) {
        Some(f) => Ok(f),
        None => Err(backend_error(concat5("unknown field `", field.as_str(), "` in `", struct_name.as_str(), "`"))),
    }
}

fn lookup_signature_named<'a>(signatures: &'a Vec<(String, FunctionSignature)>, name: &String) -> (r: Option<
    &'a FunctionSignature,
>)
    ensures
        match r {
            Some(s) => lookup_signature(functions_view(signatures@), name@) == Some(s@),
            None => lookup_signature(functions_view(signatures@), name@) is None,
        },
{
    let mut i: usize = 0;
    while i < signatures.len()
        invariant
            i <= signatures@.len(),
            lookup_signature(functions_view(signatures@), name@) == lookup_signature_from(
                functions_view(signatures@),
                name@,
                i as nat,
            ),
        decreases signatures@.len() - i,
    {
        if signatures[i].0 == *name {
            return Some(&signatures[i].1);
        }
        i = i + 1;
    }
    None
}


/// The type the generator gives an expression.
fn expression_type(cx: &Context, st: &Emitter, expression: &Expression, expected: Option<&Type>) -> (r: Result<
    Type,
    CompileError,
>)
    ensures
        match r {
            Ok(t) => cg_type(cx@, st@, expression@, optional_view(expected)) == Ok::<TypeView, Seq<char>>(t@),
            Err(e) => cg_type(cx@, st@, expression@, optional_view(expected)) == Err::<TypeView, Seq<char>>(e@),
        },
    decreases expression@, 1int,
{
    match expression {
        Expression::Integer(v) => {
            let ty = match expected {
                Some(t) => t.duplicate(),
                None => Type::I32,
            };
            let n = ty.name();
            if !ty.is_integer() {
                return Err(backend_error(concat3("cannot assign integer literal to `", n.as_str(), "`")));
            }
            let max = match ty.max_integer_value() {
                Some(m) => m,
                None => u128::MAX,
            };
            if *v > max {
                let digits = u128_to_string(*v);
                return Err(
                    backend_error(concat5("integer literal `", digits.as_str(), "` does not fit in `", n.as_str(), "`")),
                );
            }
            Ok(ty)
        },
        Expression::Float(_) => {
            let ty = match expected {
                Some(t) => t.duplicate(),
                None => Type::F64,
            };
            if ty.is_float() {
                Ok(ty)
            } else {
                let n = ty.name();
                Err(backend_error(concat3("cannot assign float literal to `", n.as_str(), "`")))
            }
        },
        Expression::Bool(_) => {
            let ty = match expected {
                Some(t) => t.duplicate(),
                None => Type::Bool,
            };
            expect_type(&Type::Bool, &ty)
        },
        Expression::Variable(name) => {
            let local = local_named(st, name)?;
            expect_optional(&local.ty, expected)
        },
        Expression::Call(call) => {
            if str_eq(call.name.as_str(), "alloc") {
                proof {
                    let e = expression@;
                    assert(decreases_to!(e => e->arguments));
                }
                alloc_type(cx, st, &call.arguments, expected)
            } else if str_eq(call.name.as_str(), "println") {
                Err(error_str("function `println` does not return a value"))
            } else if str_eq(call.name.as_str(), "dealloc") {
                Err(error_str("function `dealloc` does not return a value"))
            } else {
                match lookup_signature_named(cx.signatures, &call.name) {
                    None => Err(backend_error(concat3("unknown function `", call.name.as_str(), "`"))),
                    Some(signature) => match &signature.return_type {
                        None => Err(
                            backend_error(concat3("function `", call.name.as_str(), "` does not return a value")),
                        ),
                        Some(rt) => expect_optional(rt, expected),
                    },
                }
            }
        },
        Expression::StructLiteral(literal) => expect_optional(&Type::Struct(literal.name.clone()), expected),
        Expression::FieldAccess(access) => {
            proof {
                let e = expression@;
                assert(decreases_to!(e => e->object));
            }
            let object_ty = expression_type(cx, st, &access.object, None)?;
            let struct_name = struct_of(&object_ty, &access.field)?;
            let place = field_place(cx, &struct_name, &access.field)?;
            expect_optional(&place.ty, expected)
        },
        Expression::AddressOf(inner) => match expected {
            Some(Type::Pointer(target)) => Ok(Type::Pointer(Box::new(target.duplicate()))),
            _ => {
                let t = expression_type(cx, st, inner, None)?;
                Ok(Type::Pointer(Box::new(t)))
            },
        },
        Expression::Dereference(inner) => {
            let t = expression_type(cx, st, inner, None)?;
            match &t {
                Type::Pointer(target) => expect_optional(target, expected),
                _ => {
                    let n = t.name();
                    Err(backend_error(concat3("cannot dereference `", n.as_str(), "`")))
                },
            }
        },
        Expression::BitNot(inner) => {
            let operand = match expected {
                Some(t) => t.duplicate(),
                None => expression_type(cx, st, inner, None)?,
            };
            if operand.is_bool() || operand.is_integer() {
                Ok(operand)
            } else {
                let n = operand.name();
                Err(backend_error(concat3("operator `!` cannot be used with `", n.as_str(), "`")))
            }
        },
        Expression::Binary(binary) => {
            if binary.operator.result_is_bool() {
                expect_optional(&Type::Bool, expected)
            } else {
                operand_type(cx, st, binary, expected)
            }
        },
    }
}

/// The type of `alloc(arguments)`.
fn alloc_type(cx: &Context, st: &Emitter, arguments: &Vec<Expression>, expected: Option<&Type>) -> (r: Result<
    Type,
    CompileError,
>)
    ensures
        match r {
            Ok(t) => cg_type(
                cx@,
                st@,
                ExprView::Call { name: "alloc"@, arguments: exprs_view(arguments@) },
                optional_view(expected),
            ) == Ok::<TypeView, Seq<char>>(t@),
            Err(e) => cg_type(
                cx@,
                st@,
                ExprView::Call { name: "alloc"@, arguments: exprs_view(arguments@) },
                optional_view(expected),
            ) == Err::<TypeView, Seq<char>>(e@),
        },
    decreases exprs_view(arguments@), 0int,
{
    proof {
        lemma_exprs_view(arguments@);
        reveal_strlit("alloc");
    }
    match expected {
        Some(Type::Pointer(inner)) => Ok(Type::Pointer(Box::new(inner.duplicate()))),
        Some(_) => Err(error_str("function `alloc` returns a pointer")),
        None => {
            if arguments.len() == 0 {
                return Err(backend_error(String::new()));
            }
            proof {
                assert(decreases_to!(exprs_view(arguments@) => exprs_view(arguments@)[0]));
            }
            let t = expression_type(cx, st, &arguments[0], None)?;
            Ok(Type::Pointer(Box::new(t)))
        },
    }
}

fn operand_type(cx: &Context, st: &Emitter, binary: &BinaryExpression, expected: Option<&Type>) -> (r: Result<
    Type,
    CompileError,
>)
    ensures
        match r {
            Ok(t) => cg_operand_type(cx@, st@, binary_view(*binary), optional_view(expected)) == Ok::<TypeView, Seq<char>>(
                t@,
            ),
            Err(e) => cg_operand_type(cx@, st@, binary_view(*binary), optional_view(expected)) == Err::<
                TypeView,
                Seq<char>,
            >(e@),
        },
    decreases binary_view(*binary), 0int,
{
    if let Some(t) = expected {
        return Ok(t.duplicate());
    }
    proof {
        let e = binary_view(*binary);
        assert(decreases_to!(e => e->left));
        assert(decreases_to!(e => e->right));
    }
    if is_untyped(&binary.left) && !is_untyped(&binary.right) {
        expression_type(cx, st, &binary.right, None)
    } else {
        expression_type(cx, st, &binary.left, None)
    }
}


fn integer_literal_code(value: u128, ty: &Type) -> (r: String)
    ensures
        r@ == integer_literal_text(value, ty@),
{
    let mut r = mov_u64("x0", value as u64);
    let tail = if is_wide_type(ty) {
        mov_u64("x1", (value >> 64u128) as u64)
    } else {
        normalize(ty)
    };
    r.append(tail.as_str());
    r
}

fn float_bits<F: Fn(FloatRequest) -> FloatReply>(floats: &F, text: &String, ty: &Type) -> (r: Result<u64, CompileError>)
    requires
        float_handler(*floats),
    ensures
        match r {
            Ok(b) => cg_float_bits(float_semantics(*floats), text@, ty@) == Ok::<u64, Seq<char>>(b),
            Err(e) => cg_float_bits(float_semantics(*floats), text@, ty@) == Err::<u64, Seq<char>>(e@),
        },
{
    match ask_floats(floats, FloatRequest::Parse(text.clone())) {
        FloatReply::Bits(parsed) => {
            match ty {
                Type::F16 | Type::F32 => match ask_floats(floats, FloatRequest::Narrow(parsed)) {
                    FloatReply::Bits(b) => Ok(b),
                    _ => Ok(0),
                },
                Type::F64 => Ok(parsed),
                _ => {
                    let n = ty.name();
                    Err(backend_error(concat3("cannot assign float literal to `", n.as_str(), "`")))
                },
            }
        },
        _ => Err(backend_error(concat3("float literal `", text.as_str(), "` is invalid"))),
    }
}

#[verifier::spinoff_prover]
#[verifier::rlimit(60)]
fn compile_expression<F: Fn(FloatRequest) -> FloatReply>(
    floats: &F,
    cx: &Context,
    st: &mut Emitter,
    expression: &Expression,
    expected: Option<&Type>,
) -> (r: Result<Type, CompileError>)
    requires
        float_handler(*floats),
    ensures
        type_step(r, cg_expr(float_semantics(*floats), cx@, old(st)@, expression@, optional_view(expected)), final(st)@),
    decreases expression@, 10int, 0nat,
{
    proof {
        reveal(cg_expr);
    }
    let ty = expression_type(cx, st, expression, expected)?;
    match expression {
        Expression::Integer(v) => {
            let code = integer_literal_code(*v, &ty);
            emit_str(st, code.as_str());
            Ok(ty)
        },
        Expression::Float(text) => {
            let bits = float_bits(floats, text, &ty)?;
            let code = mov_u64("x0", bits);
            emit_str(st, code.as_str());
            Ok(ty)
        },
        Expression::Bool(b) => {
            if *b {
                emit_str(st, "    mov x0, #1\n");
            } else {
                emit_str(st, "    mov x0, #0\n");
            }
            Ok(Type::Bool)
        },
        Expression::Variable(name) => {
            let local = local_named(st, name)?;
            if local.ty.is_struct() {
                let code = local_address(&local, "x0");
                emit_str(st, code.as_str());
                Ok(ty)
            } else if local.indirect {
                Err(error_str("internal error: cannot load indirect local as value"))
            } else {
                let code = load_frame_value(local.offset, &local.ty);
                emit_str(st, code.as_str());
                Ok(ty)
            }
        },
        Expression::Call(call) => {
            proof {
                let e = expression@;
                assert(decreases_to!(e => e->arguments));
            }
            if str_eq(call.name.as_str(), "alloc") {
                compile_alloc(floats, cx, st, &call.arguments, expected)
            } else if str_eq(call.name.as_str(), "println") {
                Err(error_str("function `println` does not return a value"))
            } else if str_eq(call.name.as_str(), "dealloc") {
                Err(error_str("function `dealloc` does not return a value"))
            } else {
                match compile_user_call(floats, cx, st, &call.name, &call.arguments)? {
                    Some(t) => Ok(t),
                    None => Err(backend_error(concat3("function `", call.name.as_str(), "` does not return a value"))),
                }
            }
        },
        Expression::StructLiteral(literal) => {
            proof {
                let e = expression@;
                assert(decreases_to!(e => e->fields));
            }
            let local = allocate_local(cx, st, &ty, false)?;
            compile_struct_literal_to_local(floats, cx, st, &literal.name, &literal.fields, &local)?;
            let code = local_address(&local, "x0");
            emit_str(st, code.as_str());
            Ok(ty)
        },
        Expression::FieldAccess(access) => {
            let field_ty = compile_field_address(floats, cx, st, access)?;
            if field_ty.is_struct() {
                Ok(field_ty)
            } else {
                let code = load_from_x0(&field_ty);
                emit_str(st, code.as_str());
                Ok(field_ty)
            }
        },
        Expression::AddressOf(inner) => {
            let t = compile_lvalue_address(floats, cx, st, inner)?;
            Ok(Type::Pointer(Box::new(t)))
        },
        Expression::Dereference(inner) => {
            let t = compile_expression(floats, cx, st, inner, None)?;
            match t {
                Type::Pointer(target) => {
                    if target.is_struct() {
                        Ok(*target)
                    } else {
                        let code = load_from_x0(&target);
                        emit_str(st, code.as_str());
                        Ok(*target)
                    }
                },
                _ => {
                    let n = t.name();
                    Err(backend_error(concat3("cannot dereference `", n.as_str(), "`")))
                },
            }
        },
        Expression::BitNot(inner) => {
            compile_expression(floats, cx, st, inner, Some(&ty))?;
            let code = if ty.is_bool() {
                String::from_str("    cmp x0, #0\n    cset x0, eq\n")
            } else if is_wide_type(&ty) {
                String::from_str("    mvn x0, x0\n    mvn x1, x1\n")
            } else {
                let n = normalize(&ty);
                concat("    mvn x0, x0\n", n.as_str())
            };
            emit_str(st, code.as_str());
            Ok(ty)
        },
        Expression::Binary(binary) => {
            compile_binary(floats, cx, st, binary, &ty)?;
            Ok(ty)
        },
    }
}

#[verifier::spinoff_prover]
#[verifier::rlimit(50)]
fn compile_binary<F: Fn(FloatRequest) -> FloatReply>(
    floats: &F,
    cx: &Context,
    st: &mut Emitter,
    binary: &BinaryExpression,
    ty: &Type,
) -> (r: Result<(), CompileError>)
    requires
        float_handler(*floats),
    ensures
        unit_step(r, cg_binary(float_semantics(*floats), cx@, old(st)@, binary_view(*binary), ty@), final(st)@),
    decreases binary_view(*binary), 9int, 0nat,
{
    proof {
        reveal(cg_binary);
    }
    let op = binary.operator;
    if op == BinaryOperator::BoolAnd || op == BinaryOperator::BoolOr {
        compile_logic(floats, cx, st, binary)
    } else if op == BinaryOperator::Equal || op == BinaryOperator::NotEqual {
        compile_equality(floats, cx, st, binary)
    } else {
        compile_value_binary(floats, cx, st, binary, ty)
    }
}

#[verifier::spinoff_prover]
#[verifier::rlimit(100)]
fn compile_logic<F: Fn(FloatRequest) -> FloatReply>(
    floats: &F,
    cx: &Context,
    st: &mut Emitter,
    binary: &BinaryExpression,
) -> (r: Result<(), CompileError>)
    requires
        float_handler(*floats),
    ensures
        unit_step(r, cg_logic(float_semantics(*floats), cx@, old(st)@, binary_view(*binary)), final(st)@),
    decreases binary_view(*binary), 8int, 0nat,
{
    proof {
        reveal(cg_logic);
    }
    proof {
        let e = binary_view(*binary);
        assert(decreases_to!(e => e->left));
        assert(decreases_to!(e => e->right));
    }
    let and = binary.operator == BinaryOperator::BoolAnd;
    let short_label = make_label(st, if and { "bool_and_false" } else { "bool_or_true" })?;
    let end_label = make_label(st, if and { "bool_and_end" } else { "bool_or_end" })?;
    compile_expression(floats, cx, st, &binary.left, Some(&Type::Bool))?;
    let mut test = String::from_str("    cmp x0, #0\n");
    test.append(if and { "    b.eq " } else { "    b.ne " });
    test.append(short_label.as_str());
    test.append("\n");
    emit_str(st, test.as_str());
    compile_expression(floats, cx, st, &binary.right, Some(&Type::Bool))?;
    let mut tail = String::from_str("    cmp x0, #0\n    cset x0, ne\n");
    let b = branch_to(&end_label);
    tail.append(b.as_str());
    let l = label_line(&short_label);
    tail.append(l.as_str());
    tail.append(if and { "    mov x0, #0\n" } else { "    mov x0, #1\n" });
    let e = label_line(&end_label);
    tail.append(e.as_str());
    emit_str(st, tail.as_str());
    Ok(())
}

fn condition(operator: BinaryOperator) -> (r: &'static str)
    ensures
        r@ == condition_code(operator),
{
    if operator == BinaryOperator::Equal {
        "eq"
    } else {
        "ne"
    }
}

#[verifier::spinoff_prover]
#[verifier::rlimit(100)]
fn compile_equality<F: Fn(FloatRequest) -> FloatReply>(
    floats: &F,
    cx: &Context,
    st: &mut Emitter,
    binary: &BinaryExpression,
) -> (r: Result<(), CompileError>)
    requires
        float_handler(*floats),
    ensures
        unit_step(r, cg_equality(float_semantics(*floats), cx@, old(st)@, binary_view(*binary)), final(st)@),
    decreases binary_view(*binary), 8int, 0nat,
{
    proof {
        reveal(cg_equality);
    }
    proof {
        let e = binary_view(*binary);
        assert(decreases_to!(e => e->left));
        assert(decreases_to!(e => e->right));
    }
    let operand_ty = operand_type(cx, st, binary, None)?;
    if operand_ty.is_struct() {
        return Err(error_str("native backend cannot compare structs yet"));
    }
    compile_expression(floats, cx, st, &binary.left, Some(&operand_ty))?;
    let push = push_value(&operand_ty);
    emit_str(st, push.as_str());
    compile_expression(floats, cx, st, &binary.right, Some(&operand_ty))?;
    let pop = pop_value(&operand_ty);
    let cond = condition(binary.operator);
    let mut code = if is_wide_type(&operand_ty) {
        let mut c = String::from_str("    mov x2, x0\n    mov x3, x1\n");
        c.append(pop.as_str());
        c.append("    eor x0, x0, x2\n    eor x1, x1, x3\n    orr x0, x0, x1\n    cmp x0, #0\n");
        c
    } else {
        let mut c = String::from_str("    mov x1, x0\n");
        c.append(pop.as_str());
        let compare = match operand_ty {
            Type::F16 | Type::F32 => "    fmov s0, w0\n    fmov s1, w1\n    fcmp s0, s1\n",
            Type::F64 => "    fmov d0, x0\n    fmov d1, x1\n    fcmp d0, d1\n",
            _ => "    cmp x0, x1\n",
        };
        c.append(compare);
        c
    };
    code.append("    cset x0, ");
    code.append(cond);
    code.append("\n");
    emit_str(st, code.as_str());
    Ok(())
}

fn integer_operator(operator: BinaryOperator, ty: &Type) -> (r: Result<&'static str, CompileError>)
    ensures
        match r {
            Ok(t) => integer_operator_text(operator, ty@) == Ok::<Seq<char>, Seq<char>>(t@),
            Err(e) => integer_operator_text(operator, ty@) == Err::<Seq<char>, Seq<char>>(e@),
        },
{
    let signed = ty.is_signed_integer();
    match operator {
        BinaryOperator::Add => Ok("    add x0, x0, x1\n"),
        BinaryOperator::Subtract => Ok("    sub x0, x0, x1\n"),
        BinaryOperator::Multiply => Ok("    mul x0, x0, x1\n"),
        BinaryOperator::Divide => Ok(if signed { "    sdiv x0, x0, x1\n" } else { "    udiv x0, x0, x1\n" }),
        BinaryOperator::BitAnd => Ok("    and x0, x0, x1\n"),
        BinaryOperator::BitOr => Ok("    orr x0, x0, x1\n"),
        BinaryOperator::BitXor => Ok("    eor x0, x0, x1\n"),
        BinaryOperator::ShiftLeft => Ok("    lsl x0, x0, x1\n"),
        BinaryOperator::ShiftRight => Ok(if signed { "    asr x0, x0, x1\n" } else { "    lsr x0, x0, x1\n" }),
        _ => Err(operator_misuse(operator, ty)),
    }
}

fn operator_misuse(operator: BinaryOperator, ty: &Type) -> (e: CompileError)
    ensures
        e@ == msg_operator(operator, ty@),
{
    let s = operator.symbol();
    let n = ty.name();
    backend_error(concat5("operator `", s.as_str(), "` cannot be used with `", n.as_str(), "`"))
}

fn float_operator(operator: BinaryOperator, ty: &Type) -> (r: Result<String, CompileError>)
    ensures
        match r {
            Ok(t) => float_operator_text(operator, ty@) == Ok::<Seq<char>, Seq<char>>(t@),
            Err(e) => float_operator_text(operator, ty@) == Err::<Seq<char>, Seq<char>>(e@),
        },
{
    let wide = match ty {
        Type::F64 => true,
        _ => false,
    };
    let moves = if wide { "    fmov d0, x0\n    fmov d1, x1\n" } else { "    fmov s0, w0\n    fmov s1, w1\n" };
    let register = if wide { "d" } else { "s" };
    let back = if wide { "    fmov x0, d0\n" } else { "    fmov w0, s0\n" };
    let name = match operator {
        BinaryOperator::Add => Some("fadd"),
        BinaryOperator::Subtract => Some("fsub"),
        BinaryOperator::Multiply => Some("fmul"),
        BinaryOperator::Divide => Some("fdiv"),
        _ => None,
    };
    if !ty.is_float() {
        return Err(backend_error(String::new()));
    }
    match name {
        None => Err(operator_misuse(operator, ty)),
        Some(n) => {
            let mut t = concat5(moves, "    ", n, " ", register);
            t.append("0, ");
            t.append(register);
            t.append("0, ");
            t.append(register);
            t.append("1");
            t.append("\n");
            t.append(back);
            Ok(t)
        },
    }
}


fn signed_division(a: &String, b: &String, c: &String, d: &String) -> (r: String)
    ensures
        r@ == signed_division_text(a@, b@, c@, d@),
{
    let mut r = String::from_str("    eor x4, x1, x3\n    lsr x4, x4, #63\n");
    r.append("    tbz x1, #63, ");
    r.append(a.as_str());
    r.append("\n");
    r.append("    mvn x0, x0\n    mvn x1, x1\n    adds x0, x0, #1\n    adc x1, x1, xzr\n");
    let la = label_line(a);
    r.append(la.as_str());
    r.append("    tbz x3, #63, ");
    r.append(b.as_str());
    r.append("\n");
    r.append("    mvn x2, x2\n    mvn x3, x3\n    adds x2, x2, #1\n    adc x3, x3, xzr\n");
    let lb = label_line(b);
    r.append(lb.as_str());
    r.append("    sub sp, sp, #16\n    str x4, [sp]\n    bl L_mould_udivmod_u128\n    ldr x4, [sp]\n    add sp, sp, #16\n");
    r.append("    cbz x4, ");
    r.append(c.as_str());
    r.append("\n");
    r.append("    mvn x0, x0\n    mvn x1, x1\n    adds x0, x0, #1\n    adc x1, x1, xzr\n");
    let bd = branch_to(d);
    r.append(bd.as_str());
    let lc = label_line(c);
    r.append(lc.as_str());
    let ld = label_line(d);
    r.append(ld.as_str());
    r
}

fn shift_left(ge64: &String, end: &String) -> (r: String)
    ensures
        r@ == shift_left_text(ge64@, end@),
{
    let mut r = String::from_str("    and x2, x2, #0x7f\n    cmp x2, #64\n");
    r.append("    b.hs ");
    r.append(ge64.as_str());
    r.append("\n");
    r.append("    cmp x2, #0\n");
    r.append("    b.eq ");
    r.append(end.as_str());
    r.append("\n");
    r.append(
        "    mov x4, x1\n    lsl x1, x1, x2\n    mov x5, #64\n    sub x5, x5, x2\n    lsr x4, x0, x5\n    orr x1, x1, x4\n    lsl x0, x0, x2\n",
    );
    let b = branch_to(end);
    r.append(b.as_str());
    let l = label_line(ge64);
    r.append(l.as_str());
    r.append("    sub x2, x2, #64\n    lsl x1, x0, x2\n    mov x0, #0\n");
    let e = label_line(end);
    r.append(e.as_str());
    r
}

fn shift_right(ge64: &String, end: &String, signed: bool) -> (r: String)
    ensures
        r@ == shift_right_text(ge64@, end@, signed),
{
    let mut r = String::from_str("    and x2, x2, #0x7f\n    cmp x2, #64\n");
    r.append("    b.hs ");
    r.append(ge64.as_str());
    r.append("\n");
    r.append("    cmp x2, #0\n");
    r.append("    b.eq ");
    r.append(end.as_str());
    r.append("\n");
    r.append("    mov x4, x0\n    lsr x0, x0, x2\n    mov x5, #64\n    sub x5, x5, x2\n    lsl x4, x1, x5\n    orr x0, x0, x4\n");
    r.append(if signed { "    asr x1, x1, x2\n" } else { "    lsr x1, x1, x2\n" });
    let b = branch_to(end);
    r.append(b.as_str());
    let l = label_line(ge64);
    r.append(l.as_str());
    r.append("    sub x2, x2, #64\n");
    r.append(if signed { "    asr x0, x1, x2\n    asr x1, x1, #63\n" } else { "    lsr x0, x1, x2\n    mov x1, #0\n" });
    let e = label_line(end);
    r.append(e.as_str());
    r
}

fn compile_wide_operator(st: &mut Emitter, operator: BinaryOperator, ty: &Type) -> (r: Result<(), CompileError>)
    ensures
        unit_step(r, cg_wide_operator(old(st)@, operator, ty@), final(st)@),
{
    match operator {
        BinaryOperator::Add => emit_str(st, "    adds x0, x0, x2\n    adc x1, x1, x3\n"),
        BinaryOperator::Subtract => emit_str(st, "    subs x0, x0, x2\n    sbc x1, x1, x3\n"),
        BinaryOperator::Multiply => emit_str(
            st,
            "    mul x4, x0, x2\n    umulh x5, x0, x2\n    madd x5, x0, x3, x5\n    madd x1, x1, x2, x5\n    mov x0, x4\n",
        ),
        BinaryOperator::BitAnd => emit_str(st, "    and x0, x0, x2\n    and x1, x1, x3\n"),
        BinaryOperator::BitOr => emit_str(st, "    orr x0, x0, x2\n    orr x1, x1, x3\n"),
        BinaryOperator::BitXor => emit_str(st, "    eor x0, x0, x2\n    eor x1, x1, x3\n"),
        BinaryOperator::Divide => {
            if ty.is_signed_integer() {
                let (a, b) = make_label_pair(st, "i128_div_left_positive", "i128_div_right_positive")?;
                let (c, d) = make_label_pair(st, "i128_div_positive_result", "i128_div_end")?;
                let code = signed_division(&a, &b, &c, &d);
                emit_str(st, code.as_str());
            } else {
                emit_str(st, "    bl L_mould_udivmod_u128\n");
            }
        },
        BinaryOperator::ShiftLeft => {
            let (a, b) = make_label_pair(st, "shl128_ge64", "shl128_end")?;
            let code = shift_left(&a, &b);
            emit_str(st, code.as_str());
        },
        BinaryOperator::ShiftRight => {
            let (a, b) = make_label_pair(st, "shr128_ge64", "shr128_end")?;
            let code = shift_right(&a, &b, ty.is_signed_integer());
            emit_str(st, code.as_str());
        },
        _ => {
            return Err(operator_misuse(operator, ty));
        },
    }
    Ok(())
}

#[verifier::spinoff_prover]
#[verifier::rlimit(50)]
fn compile_value_binary<F: Fn(FloatRequest) -> FloatReply>(
    floats: &F,
    cx: &Context,
    st: &mut Emitter,
    binary: &BinaryExpression,
    ty: &Type,
) -> (r: Result<(), CompileError>)
    requires
        float_handler(*floats),
    ensures
        unit_step(r, cg_value_binary(float_semantics(*floats), cx@, old(st)@, binary_view(*binary), ty@), final(st)@),
    decreases binary_view(*binary), 8int, 0nat,
{
    proof {
        reveal(cg_value_binary);
    }
    proof {
        let e = binary_view(*binary);
        assert(decreases_to!(e => e->left));
        assert(decreases_to!(e => e->right));
    }
    compile_expression(floats, cx, st, &binary.left, Some(ty))?;
    let push = push_value(ty);
    emit_str(st, push.as_str());
    compile_expression(floats, cx, st, &binary.right, Some(ty))?;
    let pop = pop_value(ty);
    if is_wide_type(ty) {
        let mut moves = String::from_str("    mov x2, x0\n    mov x3, x1\n");
        moves.append(pop.as_str());
        emit_str(st, moves.as_str());
        return compile_wide_operator(st, binary.operator, ty);
    }
    let mut moves = String::from_str("    mov x1, x0\n");
    moves.append(pop.as_str());
    emit_str(st, moves.as_str());
    if ty.is_float() {
        let text = float_operator(binary.operator, ty)?;
        emit_str(st, text.as_str());
    } else {
        let text = integer_operator(binary.operator, ty)?;
        let mut code = String::from_str(text);
        let n = normalize(ty);
        code.append(n.as_str());
        emit_str(st, code.as_str());
    }
    Ok(())
}

proof fn lemma_registers_needed(parameters: Seq<TypeView>)
    ensures
        registers_needed(parameters) >= parameters.len(),
    decreases parameters.len(),
{
    if parameters.len() > 0 {
        lemma_registers_needed(parameters.drop_last());
    }
}

fn registers_of(parameters: &Vec<Type>) -> (n: usize)
    ensures
        n == registers_needed(parameters@.map_values(|t: Type| t@)) || (n > 8 && registers_needed(
            parameters@.map_values(|t: Type| t@),
        ) > 8),
{
    let ghost all = parameters@.map_values(|t: Type| t@);
    let mut n: usize = 0;
    let mut i: usize = 0;
    while i < parameters.len()
        invariant
            i <= parameters@.len(),
            all == parameters@.map_values(|t: Type| t@),
            n <= 16,
            n == registers_needed(all.take(i as int)) || (n > 8 && registers_needed(all.take(i as int)) > 8),
        decreases parameters@.len() - i,
    {
        proof {
            assert(all.take(i + 1).drop_last() =~= all.take(i as int));
            assert(all.take(i + 1).last() == all[i as int]);
        }
        if n <= 8 {
            n = n + if is_wide_type(&parameters[i]) {
                2
            } else {
                1
            };
        }
        i = i + 1;
    }
    proof {
        assert(all.take(i as int) =~= all);
    }
    n
}

fn argument_loads(parameters: &Vec<Type>, i: usize, register: usize) -> (r: String)
    requires
        parameters@.len() <= 8,
        i <= parameters@.len(),
        register <= 2 * i,
    ensures
        r@ == argument_loads_text(parameters@.map_values(|t: Type| t@), i as nat, register as nat),
    decreases parameters@.len() - i,
{
    let ghost all = parameters@.map_values(|t: Type| t@);
    if i >= parameters.len() {
        return String::new();
    }
    let reg = usize_to_string(register);
    let off = usize_to_string(16 * i);
    let mut r = concat5("    ldr x", reg.as_str(), ", [sp, #", off.as_str(), "]");
    r.append("\n");
    if is_wide_type(&parameters[i]) {
        let reg2 = usize_to_string(register + 1);
        let off2 = usize_to_string(16 * i + 8);
        r.append("    ldr x");
        r.append(reg2.as_str());
        r.append(", [sp, #");
        r.append(off2.as_str());
        r.append("]");
        r.append("\n");
        let rest = argument_loads(parameters, i + 1, register + 2);
        r.append(rest.as_str());
    } else {
        let rest = argument_loads(parameters, i + 1, register + 1);
        r.append(rest.as_str());
    }
    r
}


#[verifier::spinoff_prover]
#[verifier::rlimit(50)]
fn compile_user_call<F: Fn(FloatRequest) -> FloatReply>(
    floats: &F,
    cx: &Context,
    st: &mut Emitter,
    name: &String,
    arguments: &Vec<Expression>,
) -> (r: Result<Option<Type>, CompileError>)
    requires
        float_handler(*floats),
    ensures
        ({
            let s = cg_user_call(float_semantics(*floats), cx@, old(st)@, name@, exprs_view(arguments@));
            match r {
                Ok(Some(t)) => s == (Ok::<Option<TypeView>, Seq<char>>(Some(t@)), final(st)@),
                Ok(None) => s == (Ok::<Option<TypeView>, Seq<char>>(None), final(st)@),
                Err(e) => s == (Err::<Option<TypeView>, Seq<char>>(e@), final(st)@),
            }
        }),
    decreases exprs_view(arguments@), 8int, 0nat,
{
    proof {
        reveal(cg_user_call);
    }
    let signature = match lookup_signature_named(cx.signatures, name) {
        Some(s) => s,
        None => {
            return Err(backend_error(concat3("unknown function `", name.as_str(), "`")));
        },
    };
    let ghost params = signature.parameters@.map_values(|t: Type| t@);
    proof {
        lemma_exprs_view(arguments@);
    }
    if signature.parameters.len() != arguments.len() {
        let count = usize_to_string(signature.parameters.len());
        return Err(backend_error(concat5("function `", name.as_str(), "` expects ", count.as_str(), " argument(s)")));
    }
    if registers_of(&signature.parameters) > 8 {
        return Err(error_str("native backend supports up to 8 argument registers"));
    }
    proof {
        lemma_registers_needed(params);
    }
    push_arguments(floats, cx, st, arguments, &signature.parameters, arguments.len())?;
    let mut code = argument_loads(&signature.parameters, 0, 0);
    let adjust = if signature.parameters.len() == 0 {
        String::new()
    } else {
        add_imm("sp", "sp", 16 * signature.parameters.len())
    };
    code.append(adjust.as_str());
    code.append("    bl ");
    let label = label_of_function(name);
    code.append(label.as_str());
    code.append("\n");
    emit_str(st, code.as_str());
    match &signature.return_type {
        None => Ok(None),
        Some(rt) => {
            if rt.is_struct() {
                Err(error_str("native backend cannot return structs yet"))
            } else {
                let n = normalize(rt);
                emit_str(st, n.as_str());
                Ok(Some(rt.duplicate()))
            }
        },
    }
}

#[verifier::spinoff_prover]
#[verifier::rlimit(50)]
fn push_arguments<F: Fn(FloatRequest) -> FloatReply>(
    floats: &F,
    cx: &Context,
    st: &mut Emitter,
    arguments: &Vec<Expression>,
    parameters: &Vec<Type>,
    k: usize,
) -> (r: Result<(), CompileError>)
    requires
        float_handler(*floats),
    ensures
        unit_step(
            r,
            cg_push_arguments(
                float_semantics(*floats),
                cx@,
                old(st)@,
                exprs_view(arguments@),
                parameters@.map_values(|t: Type| t@),
                k as nat,
            ),
            final(st)@,
        ),
    decreases exprs_view(arguments@), 7int, k,
{
    proof {
        reveal(cg_push_arguments);
    }
    proof {
        lemma_exprs_view(arguments@);
    }
    if k == 0 || k > arguments.len() || k > parameters.len() {
        return Ok(());
    }
    proof {
        assert(decreases_to!(exprs_view(arguments@) => exprs_view(arguments@)[k - 1]));
    }
    compile_expression(floats, cx, st, &arguments[k - 1], Some(&parameters[k - 1]))?;
    let push = push_value(&parameters[k - 1]);
    emit_str(st, push.as_str());
    push_arguments(floats, cx, st, arguments, parameters, k - 1)
}

#[verifier::spinoff_prover]
#[verifier::rlimit(50)]
fn compile_alloc<F: Fn(FloatRequest) -> FloatReply>(
    floats: &F,
    cx: &Context,
    st: &mut Emitter,
    arguments: &Vec<Expression>,
    expected: Option<&Type>,
) -> (r: Result<Type, CompileError>)
    requires
        float_handler(*floats),
    ensures
        type_step(r, cg_alloc(float_semantics(*floats), cx@, old(st)@, exprs_view(arguments@), optional_view(expected)), final(st)@),
    decreases exprs_view(arguments@), 8int, 0nat,
{
    proof {
        reveal(cg_alloc);
    }
    proof {
        lemma_exprs_view(arguments@);
    }
    if arguments.len() != 1 {
        return Err(error_str("function `alloc` expects 1 argument"));
    }
    let pointer_ty = alloc_type(cx, st, arguments, expected)?;
    let inner = match &pointer_ty {
        Type::Pointer(inner) => inner,
        _ => {
            return Err(error_str("function `alloc` returns a pointer"));
        },
    };
    let size = type_size(cx, inner)?;
    let mut call = mov_u64("x0", size as u64);
    call.append("    bl _malloc\n");
    emit_str(st, call.as_str());
    let slot = allocate_local(cx, st, &Type::U64, false)?;
    let store = store_register("x0", slot.offset);
    emit_str(st, store.as_str());
    proof {
        assert(decreases_to!(exprs_view(arguments@) => exprs_view(arguments@)[0]));
    }
    compile_expression(floats, cx, st, &arguments[0], Some(inner))?;
    let load = load_register(slot.offset, "x9");
    emit_str(st, load.as_str());
    let mut text = if inner.is_struct() {
        let n = type_size(cx, inner)?;
        copy_words("x0", "x9", n)
    } else {
        store_to_address(inner, "x9")
    };
    let back = load_register(slot.offset, "x0");
    text.append(back.as_str());
    emit_str(st, text.as_str());
    Ok(pointer_ty)
}

fn find_init(fields: &Vec<StructLiteralField>, name: &String) -> (r: Option<usize>)
    ensures
        match r {
            Some(k) => k < fields@.len() && find_init_from(field_inits_view(fields@), name@, 0) == Some(k as int),
            None => find_init_from(field_inits_view(fields@), name@, 0) is None,
        },
{
    let ghost inits = field_inits_view(fields@);
    proof {
        lemma_field_inits_view(fields@);
    }
    let mut i: usize = 0;
    while i < fields.len()
        invariant
            i <= fields@.len(),
            inits == field_inits_view(fields@),
            inits.len() == fields@.len(),
            forall|k: int|
                0 <= k < fields@.len() ==> #[trigger] inits[k] == (FieldInitView {
                    name: fields@[k].name@,
                    value: expr_view(fields@[k].value),
                }),
            find_init_from(inits, name@, 0) == find_init_from(inits, name@, i as nat),
        decreases fields@.len() - i,
    {
        if fields[i].name == *name {
            return Some(i);
        }
        i = i + 1;
    }
    None
}

fn field_address(local: &Local, field_offset: usize, register: &str) -> (r: Result<String, CompileError>)
    ensures
        match r {
            Ok(t) => field_address_text(local@, field_offset as nat, register@) == Ok::<Seq<char>, Seq<char>>(t@),
            Err(e) => field_address_text(local@, field_offset as nat, register@) == Err::<Seq<char>, Seq<char>>(e@),
        },
{
    if local.indirect {
        return Err(error_str("internal error: indirect local field address"));
    }
    if field_offset > local.offset {
        return Err(error_str("internal error: field outside its local"));
    }
    Ok(sub_imm(register, "x29", local.offset - field_offset))
}

#[verifier::spinoff_prover]
#[verifier::rlimit(50)]
fn compile_struct_literal_to_local<F: Fn(FloatRequest) -> FloatReply>(
    floats: &F,
    cx: &Context,
    st: &mut Emitter,
    name: &String,
    fields: &Vec<StructLiteralField>,
    local: &Local,
) -> (r: Result<(), CompileError>)
    requires
        float_handler(*floats),
    ensures
        unit_step(
            r,
            cg_struct_literal_to_local(float_semantics(*floats), cx@, old(st)@, name@, field_inits_view(fields@), local@),
            final(st)@,
        ),
    decreases field_inits_view(fields@), 8int, 0nat,
{
    proof {
        reveal(cg_struct_literal_to_local);
    }
    let layout = struct_layout(cx, name)?;
    literal_fields(floats, cx, st, name, fields, local, &layout.fields, 0)
}

#[verifier::spinoff_prover]
#[verifier::rlimit(50)]
fn literal_fields<F: Fn(FloatRequest) -> FloatReply>(
    floats: &F,
    cx: &Context,
    st: &mut Emitter,
    name: &String,
    fields: &Vec<StructLiteralField>,
    local: &Local,
    places: &Vec<FieldLayout>,
    j: usize,
) -> (r: Result<(), CompileError>)
    requires
        float_handler(*floats),
    ensures
        unit_step(
            r,
            cg_literal_fields(
                float_semantics(*floats),
                cx@,
                old(st)@,
                name@,
                field_inits_view(fields@),
                local@,
                places@.map_values(|f: FieldLayout| f@),
                j as nat,
            ),
            final(st)@,
        ),
    decreases field_inits_view(fields@), 7int, places@.len() - j,
{
    proof {
        reveal(cg_literal_fields);
    }
    let ghost inits = field_inits_view(fields@);
    proof {
        lemma_field_inits_view(fields@);
    }
    if j >= places.len() {
        return Ok(());
    }
    let place = &places[j];
    let k = match find_init(fields, &place.name) {
        Some(k) => k,
        None => {
            return Err(backend_error(concat5("missing field `", place.name.as_str(), "` in `", name.as_str(), "`")));
        },
    };
    proof {
        assert(decreases_to!(inits => inits[k as int]));
        assert(decreases_to!(inits[k as int] => inits[k as int].value));
    }
    compile_expression(floats, cx, st, &fields[k].value, Some(&place.ty))?;
    let mut code = field_address(local, place.offset, "x9")?;
    let stored = if place.ty.is_struct() {
        let n = type_size(cx, &place.ty)?;
        copy_words("x0", "x9", n)
    } else {
        store_to_address(&place.ty, "x9")
    };
    code.append(stored.as_str());
    emit_str(st, code.as_str());
    literal_fields(floats, cx, st, name, fields, local, places, j + 1)
}

#[verifier::spinoff_prover]
#[verifier::rlimit(50)]
fn compile_lvalue_address<F: Fn(FloatRequest) -> FloatReply>(
    floats: &F,
    cx: &Context,
    st: &mut Emitter,
    expression: &Expression,
) -> (r: Result<Type, CompileError>)
    requires
        float_handler(*floats),
    ensures
        type_step(r, cg_lvalue_address(float_semantics(*floats), cx@, old(st)@, expression@), final(st)@),
    decreases expression@, 9int, 0nat,
{
    proof {
        reveal(cg_lvalue_address);
    }
    match expression {
        Expression::Variable(name) => {
            let local = local_named(st, name)?;
            let code = local_address(&local, "x0");
            emit_str(st, code.as_str());
            Ok(local.ty)
        },
        Expression::FieldAccess(access) => compile_field_address(floats, cx, st, access),
        Expression::Dereference(inner) => {
            proof {
                let e = expression@;
                assert(decreases_to!(e => e->Dereference_0));
            }
            let t = compile_expression(floats, cx, st, inner, None)?;
            match t {
                Type::Pointer(target) => Ok(*target),
                _ => {
                    let n = t.name();
                    Err(backend_error(concat3("cannot dereference `", n.as_str(), "`")))
                },
            }
        },
        _ => Err(error_str("cannot take address of temporary value")),
    }
}

pub open spec fn access_view(a: FieldAccess) -> ExprView {
    ExprView::FieldAccess { object: Box::new(expr_view(*a.object)), field: a.field@ }
}

#[verifier::spinoff_prover]
#[verifier::rlimit(50)]
fn compile_field_address<F: Fn(FloatRequest) -> FloatReply>(
    floats: &F,
    cx: &Context,
    st: &mut Emitter,
    access: &FieldAccess,
) -> (r: Result<Type, CompileError>)
    requires
        float_handler(*floats),
    ensures
        type_step(r, cg_field_address(float_semantics(*floats), cx@, old(st)@, access_view(*access)), final(st)@),
    decreases access_view(*access), 8int, 0nat,
{
    proof {
        reveal(cg_field_address);
    }
    proof {
        let e = access_view(*access);
        assert(decreases_to!(e => e->object));
    }
    let object_ty = expression_type(cx, st, &access.object, None)?;
    let struct_name = match &object_ty {
        Type::Struct(name) => {
            compile_lvalue_address(floats, cx, st, &access.object)?;
            name.clone()
        },
        Type::Pointer(inner) => match &**inner {
            Type::Struct(name) => {
                assert((**inner)@ == TypeView::Struct(name@));
                compile_expression(floats, cx, st, &access.object, None)?;
                name.clone()
            },
            t => {
                let n = t.name();
                return Err(backend_error(concat5("cannot access field `", access.field.as_str(), "` on `&", n.as_str(), "`")));
            },
        },
        t => {
            let n = t.name();
            return Err(backend_error(concat5("cannot access field `", access.field.as_str(), "` on `", n.as_str(), "`")));
        },
    };
    let place = field_place(cx, &struct_name, &access.field)?;
    let code = add_imm("x0", "x0", place.offset);
    emit_str(st, code.as_str());
    Ok(place.ty.duplicate())
}


fn compile_println<F: Fn(FloatRequest) -> FloatReply>(
    floats: &F,
    cx: &Context,
    st: &mut Emitter,
    arguments: &Vec<Expression>,
) -> (r: Result<(), CompileError>)
    requires
        float_handler(*floats),
    ensures
        unit_step(r, cg_println(float_semantics(*floats), cx@, old(st)@, exprs_view(arguments@)), final(st)@),
{
    proof {
        lemma_exprs_view(arguments@);
    }
    if arguments.len() != 1 {
        return Err(error_str("function `println` expects 1 argument"));
    }
    let ty = compile_expression(floats, cx, st, &arguments[0], None)?;
    let code = match &ty {
        Type::Bool => {
            let (f, end) = make_label_pair(st, "println_false", "println_end")?;
            let mut c = String::from_str("    cmp x0, #0\n");
            c.append("    b.eq ");
            c.append(f.as_str());
            c.append("\n");
            let t = load_label("x0", "L_mould_bool_true");
            c.append(t.as_str());
            c.append("    bl _puts\n");
            let b = branch_to(&end);
            c.append(b.as_str());
            let lf = label_line(&f);
            c.append(lf.as_str());
            let fl = load_label("x0", "L_mould_bool_false");
            c.append(fl.as_str());
            c.append("    bl _puts\n");
            let le = label_line(&end);
            c.append(le.as_str());
            c
        },
        Type::Pointer(_) => printf_with_x0("L_mould_fmt_pointer"),
        Type::I128 => String::from_str("    bl _mould_print_i128\n"),
        Type::U128 => String::from_str("    bl _mould_print_u128\n"),
        Type::F16 | Type::F32 => {
            let mut c = String::from_str("    fmov s0, w0\n    fcvt d0, s0\n    fmov x0, d0\n");
            let p = printf_with_x0("L_mould_fmt_float");
            c.append(p.as_str());
            c
        },
        Type::F64 => printf_with_x0("L_mould_fmt_float"),
        Type::Struct(_) => {
            return Err(error_str("native backend cannot print structs yet"));
        },
        _ => {
            if ty.is_signed_integer() {
                printf_with_x0("L_mould_fmt_signed")
            } else if ty.is_integer() {
                printf_with_x0("L_mould_fmt_unsigned")
            } else {
                let n = ty.name();
                return Err(backend_error(concat3("native backend cannot print `", n.as_str(), "` yet")));
            }
        },
    };
    emit_str(st, code.as_str());
    Ok(())
}

fn compile_dealloc<F: Fn(FloatRequest) -> FloatReply>(
    floats: &F,
    cx: &Context,
    st: &mut Emitter,
    arguments: &Vec<Expression>,
) -> (r: Result<(), CompileError>)
    requires
        float_handler(*floats),
    ensures
        unit_step(r, cg_dealloc(float_semantics(*floats), cx@, old(st)@, exprs_view(arguments@)), final(st)@),
{
    proof {
        lemma_exprs_view(arguments@);
    }
    if arguments.len() != 1 {
        return Err(error_str("function `dealloc` expects 1 argument"));
    }
    let ty = compile_expression(floats, cx, st, &arguments[0], None)?;
    if ty.is_pointer() {
        emit_str(st, "    bl _free\n");
        Ok(())
    } else {
        let n = ty.name();
        Err(backend_error(concat3("function `dealloc` expects pointer, found `", n.as_str(), "`")))
    }
}

fn compile_call_statement<F: Fn(FloatRequest) -> FloatReply>(
    floats: &F,
    cx: &Context,
    st: &mut Emitter,
    name: &String,
    arguments: &Vec<Expression>,
) -> (r: Result<(), CompileError>)
    requires
        float_handler(*floats),
    ensures
        unit_step(r, cg_call_statement(float_semantics(*floats), cx@, old(st)@, name@, exprs_view(arguments@)), final(st)@),
{
    if str_eq(name.as_str(), "println") {
        compile_println(floats, cx, st, arguments)
    } else if str_eq(name.as_str(), "dealloc") {
        compile_dealloc(floats, cx, st, arguments)
    } else if str_eq(name.as_str(), "alloc") {
        compile_alloc(floats, cx, st, arguments, None)?;
        Ok(())
    } else {
        compile_user_call(floats, cx, st, name, arguments)?;
        Ok(())
    }
}

fn store_expression_to_local<F: Fn(FloatRequest) -> FloatReply>(
    floats: &F,
    cx: &Context,
    st: &mut Emitter,
    value: &Expression,
    ty: &Type,
    local: &Local,
) -> (r: Result<(), CompileError>)
    requires
        float_handler(*floats),
    ensures
        unit_step(r, cg_store_to_local(float_semantics(*floats), cx@, old(st)@, value@, ty@, local@), final(st)@),
{
    if ty.is_struct() {
        match value {
            Expression::StructLiteral(literal) => compile_struct_literal_to_local(
                floats,
                cx,
                st,
                &literal.name,
                &literal.fields,
                local,
            ),
            _ => {
                compile_expression(floats, cx, st, value, Some(ty))?;
                let n = type_size(cx, ty)?;
                let mut code = local_address(local, "x9");
                let words = copy_words("x0", "x9", n);
                code.append(words.as_str());
                emit_str(st, code.as_str());
                Ok(())
            },
        }
    } else {
        compile_expression(floats, cx, st, value, Some(ty))?;
        if local.indirect {
            return Err(error_str("internal error: cannot store direct value to indirect local"));
        }
        let mut code = sub_imm("x9", "x29", local.offset);
        let s = store_to_address(ty, "x9");
        code.append(s.as_str());
        emit_str(st, code.as_str());
        Ok(())
    }
}

#[verifier::spinoff_prover]
#[verifier::rlimit(100)]
fn compile_statement<F: Fn(FloatRequest) -> FloatReply>(
    floats: &F,
    cx: &Context,
    st: &mut Emitter,
    statement: &Statement,
) -> (r: Result<(), CompileError>)
    requires
        float_handler(*floats),
    ensures
        unit_step(r, cg_statement(float_semantics(*floats), cx@, old(st)@, statement@), final(st)@),
    decreases statement@, 1int,
{
    proof {
        reveal(cg_statement);
    }
    match statement {
        Statement::Let(l) => {
            let local = allocate_local(cx, st, &l.ty, false)?;
            store_expression_to_local(floats, cx, st, &l.value, &l.ty, &local)?;
            insert_local(st, &l.name, local);
            Ok(())
        },
        Statement::Call(c) => compile_call_statement(floats, cx, st, &c.name, &c.arguments),
        Statement::Return(ret) => match &cx.function.return_type {
            None => Err(error_str("cannot return a value from function without return type")),
            Some(rt) => {
                if rt.is_struct() {
                    return Err(error_str("native backend cannot return structs yet"));
                }
                compile_expression(floats, cx, st, &ret.value, Some(rt))?;
                let b = branch_to(&cx.return_label);
                emit_str(st, b.as_str());
                Ok(())
            },
        },
        Statement::If(i) => {
            let (else_label, end_label) = make_label_pair(st, "if_else", "if_end")?;
            compile_expression(floats, cx, st, &i.condition, Some(&Type::Bool))?;
            let mut test = String::from_str("    cmp x0, #0\n");
            test.append("    b.eq ");
            test.append(else_label.as_str());
            test.append("\n");
            emit_str(st, test.as_str());
            compile_block(floats, cx, st, &i.then_block.statements)?;
            let mut middle = branch_to(&end_label);
            let l = label_line(&else_label);
            middle.append(l.as_str());
            emit_str(st, middle.as_str());
            match &i.else_block {
                None => {},
                Some(b) => {
                    proof {
                        let v = statement@;
                        assert(decreases_to!(v => v->else_block));
                        assert(decreases_to!(v->else_block => v->else_block->0));
                    }
                    compile_block(floats, cx, st, &b.statements)?;
                },
            }
            let e = label_line(&end_label);
            emit_str(st, e.as_str());
            Ok(())
        },
        Statement::Loop(l) => {
            let (start, end) = make_label_pair(st, "loop_start", "loop_end")?;
            let ghost before = st.loops@;
            st.loops.push((start.clone(), end.clone()));
            proof {
                assert(st.loops@.map_values(|l: (String, String)| (l.0@, l.1@)) =~= before.map_values(
                    |l: (String, String)| (l.0@, l.1@),
                ).push((start@, end@)));
            }
            let s = label_line(&start);
            emit_str(st, s.as_str());
            compile_block(floats, cx, st, &l.body.statements)?;
            let mut tail = branch_to(&start);
            let e = label_line(&end);
            tail.append(e.as_str());
            emit_str(st, tail.as_str());
            pop_loop_labels(st);
            Ok(())
        },
        Statement::While(w) => {
            let (start, end) = make_label_pair(st, "while_start", "while_end")?;
            let ghost before = st.loops@;
            st.loops.push((start.clone(), end.clone()));
            proof {
                assert(st.loops@.map_values(|l: (String, String)| (l.0@, l.1@)) =~= before.map_values(
                    |l: (String, String)| (l.0@, l.1@),
                ).push((start@, end@)));
            }
            let s = label_line(&start);
            emit_str(st, s.as_str());
            compile_expression(floats, cx, st, &w.condition, Some(&Type::Bool))?;
            let mut test = String::from_str("    cmp x0, #0\n");
            test.append("    b.eq ");
            test.append(end.as_str());
            test.append("\n");
            emit_str(st, test.as_str());
            compile_block(floats, cx, st, &w.body.statements)?;
            let mut tail = branch_to(&start);
            let e = label_line(&end);
            tail.append(e.as_str());
            emit_str(st, tail.as_str());
            pop_loop_labels(st);
            Ok(())
        },
        Statement::Break => {
            if st.loops.len() == 0 {
                return Err(error_str("cannot `break` outside loop"));
            }
            let b = branch_to(&st.loops[st.loops.len() - 1].1);
            emit_str(st, b.as_str());
            Ok(())
        },
        Statement::Continue => {
            if st.loops.len() == 0 {
                return Err(error_str("cannot `continue` outside loop"));
            }
            let b = branch_to(&st.loops[st.loops.len() - 1].0);
            emit_str(st, b.as_str());
            Ok(())
        },
    }
}

fn pop_loop_labels(st: &mut Emitter)
    ensures
        final(st)@ == pop_loop(old(st)@),
{
    let ghost before = st.loops@;
    if st.loops.len() > 0 {
        let _ = st.loops.pop();
        proof {
            assert(st.loops@.map_values(|l: (String, String)| (l.0@, l.1@)) =~= before.map_values(
                |l: (String, String)| (l.0@, l.1@),
            ).drop_last());
        }
    }
}

#[verifier::spinoff_prover]
#[verifier::rlimit(60)]
fn compile_block<F: Fn(FloatRequest) -> FloatReply>(
    floats: &F,
    cx: &Context,
    st: &mut Emitter,
    statements: &Vec<Statement>,
) -> (r: Result<(), CompileError>)
    requires
        float_handler(*floats),
    ensures
        unit_step(r, cg_block(float_semantics(*floats), cx@, old(st)@, stmts_view(statements@)), final(st)@),
    decreases stmts_view(statements@), 2int,
{
    proof {
        reveal(cg_block);
    }
    let ghost before = st.scopes@;
    st.scopes.push(Vec::new());
    proof {
        assert(scope_view(Seq::<(String, Local)>::empty()) =~= Seq::<(Seq<char>, LocalView)>::empty());
        assert(st.scopes@.map_values(|s: Vec<(String, Local)>| scope_view(s@)) =~= before.map_values(
            |s: Vec<(String, Local)>| scope_view(s@),
        ).push(Seq::empty()));
    }
    compile_statements(floats, cx, st, statements)?;
    let ghost inner = st.scopes@;
    if st.scopes.len() > 0 {
        let _ = st.scopes.pop();
        proof {
            assert(st.scopes@.map_values(|s: Vec<(String, Local)>| scope_view(s@)) =~= inner.map_values(
                |s: Vec<(String, Local)>| scope_view(s@),
            ).drop_last());
        }
    }
    Ok(())
}

#[verifier::spinoff_prover]
#[verifier::rlimit(50)]
fn compile_statements<F: Fn(FloatRequest) -> FloatReply>(
    floats: &F,
    cx: &Context,
    st: &mut Emitter,
    statements: &Vec<Statement>,
) -> (r: Result<(), CompileError>)
    requires
        float_handler(*floats),
    ensures
        unit_step(r, cg_statements(float_semantics(*floats), cx@, old(st)@, stmts_view(statements@)), final(st)@),
    decreases stmts_view(statements@), 0int,
{
    proof {
        reveal(cg_statements);
    }
    let ghost fs = float_semantics(*floats);
    let ghost all = stmts_view(statements@);
    let ghost start = st@;
    proof {
        lemma_stmts_view(statements@);
        assert(all.skip(0) =~= all);
    }
    let mut i: usize = 0;
    while i < statements.len()
        invariant
            i <= statements@.len(),
            float_handler(*floats),
            fs == float_semantics(*floats),
            all == stmts_view(statements@),
            all.len() == statements@.len(),
            forall|k: int| 0 <= k < statements@.len() ==> #[trigger] all[k] == stmt_view(statements@[k]),
            start == old(st)@,
            cg_statements(fs, cx@, start, all) == cg_statements(fs, cx@, st@, all.skip(i as int)),
        decreases statements@.len() - i,
    {
        proof {
            reveal(cg_statements);
            assert(all.skip(i as int)[0] == all[i as int]);
            assert(all.skip(i as int).drop_first() =~= all.skip(i + 1));
            assert(decreases_to!(all => all[i as int]));
        }
        compile_statement(floats, cx, st, &statements[i])?;
        i = i + 1;
    }
    proof {
        reveal(cg_statements);
        assert(all.skip(i as int) =~= Seq::<StmtView>::empty());
    }
    Ok(())
}



/// Stores the parameters from index `i` on into their frame slots.
fn compile_parameters(
    cx: &Context,
    st: &mut Emitter,
    parameters: &Vec<FunctionParameter>,
    i: usize,
    register: usize,
) -> (r: Result<(), CompileError>)
    requires
        register <= 8,
    ensures
        unit_step(
            r,
            cg_parameters(cx@, old(st)@, parameters@.map_values(|p: FunctionParameter| p@), i as nat, register as nat),
            final(st)@,
        ),
    decreases parameters@.len() - i,
{
    if i >= parameters.len() {
        return Ok(());
    }
    let p = &parameters[i];
    let count: usize = if is_wide_type(&p.ty) {
        2
    } else {
        1
    };
    if register + count > 8 {
        return Err(error_str("native backend supports up to 8 argument registers"));
    }
    let local = allocate_local(cx, st, &p.ty, p.ty.is_struct())?;
    let offset = local.offset;
    insert_local(st, &p.name, local);
    let first = usize_to_string(register);
    let text = if is_wide_type(&p.ty) {
        let second = usize_to_string(register + 1);
        let mut t = sub_imm("x9", "x29", offset);
        t.append("    str x");
        t.append(first.as_str());
        t.append(", [x9]");
        t.append("\n");
        t.append("    str x");
        t.append(second.as_str());
        t.append(", [x9, #8]");
        t.append("\n");
        t
    } else {
        let name = concat("x", first.as_str());
        store_register(name.as_str(), offset)
    };
    emit_str(st, text.as_str());
    compile_parameters(cx, st, parameters, i + 1, register + count)
}

/// The code of one function and the label counter after it.
fn compile_function<F: Fn(FloatRequest) -> FloatReply>(
    floats: &F,
    function: &Function,
    signatures: &Vec<(String, FunctionSignature)>,
    layouts: &Vec<(String, StructLayout)>,
    next_label: usize,
) -> (r: Result<(String, usize), CompileError>)
    requires
        float_handler(*floats),
    ensures
        ({
            let s = cg_function(
                float_semantics(*floats),
                function@,
                functions_view(signatures@),
                layouts_view(layouts@),
                next_label as nat,
            );
            match r {
                Ok((text, label)) => s == Ok::<(Seq<char>, nat), Seq<char>>((text@, label as nat)),
                Err(e) => s == Err::<(Seq<char>, nat), Seq<char>>(e@),
            }
        }),
{
    if str_eq(function.name.as_str(), "main") && function.parameters.len() != 0 {
        return Err(error_str("function `main` cannot have parameters"));
    }
    let return_label = concat3("L_mould_", function.name.as_str(), "_return");
    let cx = Context { function, signatures, layouts, return_label };
    let mut scopes: Vec<Vec<(String, Local)>> = Vec::new();
    scopes.push(Vec::new());
    let mut st = Emitter { body: String::new(), scopes, loops: Vec::new(), next_offset: 0, next_label };
    proof {
        assert(scope_view(Seq::<(String, Local)>::empty()) =~= Seq::<(Seq<char>, LocalView)>::empty());
        assert(st@.scopes =~= seq![Seq::<(Seq<char>, LocalView)>::empty()]);
        assert(st@.loops =~= Seq::<(Seq<char>, Seq<char>)>::empty());
    }
    compile_parameters(&cx, &mut st, &function.parameters, 0, 0)?;
    compile_block(floats, &cx, &mut st, &function.body.statements)?;
    let frame = match align_up_checked(st.next_offset, 16) {
        Some(f) => f,
        None => {
            return Err(error_str("native backend cannot lay out a value this large"));
        },
    };
    let label = label_of_function(&function.name);
    let mut text = concat3(".globl ", label.as_str(), "\n");
    text.append(".p2align 2\n");
    text.append(label.as_str());
    text.append(":");
    text.append("\n");
    text.append("    stp x29, x30, [sp, #-16]!\n    mov x29, sp\n");
    let prologue = if frame > 0 {
        sub_imm("sp", "sp", frame)
    } else {
        String::new()
    };
    text.append(prologue.as_str());
    text.append(st.body.as_str());
    let ret = label_line(&cx.return_label);
    text.append(ret.as_str());
    let unit = if function.return_type.is_none() {
        String::from_str("    mov x0, #0\n")
    } else {
        String::new()
    };
    text.append(unit.as_str());
    let epilogue = if frame > 0 {
        add_imm("sp", "sp", frame)
    } else {
        String::new()
    };
    text.append(epilogue.as_str());
    text.append("    ldp x29, x30, [sp], #16\n    ret\n\n");
    Ok((text, st.next_label))
}

/// The code of all functions, in declaration order.
fn compile_functions<F: Fn(FloatRequest) -> FloatReply>(
    floats: &F,
    functions: &Vec<Function>,
    signatures: &Vec<(String, FunctionSignature)>,
    layouts: &Vec<(String, StructLayout)>,
) -> (r: Result<String, CompileError>)
    requires
        float_handler(*floats),
    ensures
        ({
            let s = cg_functions(
                float_semantics(*floats),
                functions@.map_values(|f: Function| f@),
                0,
                functions_view(signatures@),
                layouts_view(layouts@),
                0,
                Seq::empty(),
            );
            match r {
                Ok(text) => s == Ok::<Seq<char>, Seq<char>>(text@),
                Err(e) => s == Err::<Seq<char>, Seq<char>>(e@),
            }
        }),
{
    let ghost fs = float_semantics(*floats);
    let ghost all = functions@.map_values(|f: Function| f@);
    let mut text = String::new();
    let mut next_label: usize = 0;
    let mut i: usize = 0;
    while i < functions.len()
        invariant
            i <= functions@.len(),
            float_handler(*floats),
            fs == float_semantics(*floats),
            all == functions@.map_values(|f: Function| f@),
            cg_functions(fs, all, 0, functions_view(signatures@), layouts_view(layouts@), 0, Seq::empty())
                == cg_functions(
                fs,
                all,
                i as nat,
                functions_view(signatures@),
                layouts_view(layouts@),
                next_label as nat,
                text@,
            ),
        decreases functions@.len() - i,
    {
        let (code, label) = compile_function(floats, &functions[i], signatures, layouts, next_label)?;
        text.append(code.as_str());
        next_label = label;
        i = i + 1;
    }
    Ok(text)
}

pub open spec fn names_view(names: Seq<String>) -> Seq<Seq<char>> {
    names.map_values(|s: String| s@)
}

pub open spec fn places_view(places: Seq<FieldLayout>) -> Seq<FieldPlace> {
    places.map_values(|f: FieldLayout| f@)
}

fn contains_name(names: &Vec<String>, name: &String) -> (r: bool)
    ensures
        r == names_view(names@).contains(name@),
{
    let ghost all = names_view(names@);
    let mut i: usize = 0;
    while i < names.len()
        invariant
            i <= names@.len(),
            all == names_view(names@),
            forall|k: int| 0 <= k < i ==> all[k] != name@,
        decreases names@.len() - i,
    {
        if names[i] == *name {
            assert(all[i as int] == name@);
            return true;
        }
        i = i + 1;
    }
    proof {
        if all.contains(name@) {
            let k = choose|k: int| 0 <= k < all.len() && all[k] == name@;
            assert(all[k] != name@);
        }
    }
    false
}

fn struct_named<'a>(structs: &'a Vec<(String, CheckedStruct)>, name: &String) -> (r: Option<&'a CheckedStruct>)
    ensures
        match r {
            Some(s) => lookup_struct(structs_view(structs@), name@) == Some(s@),
            None => lookup_struct(structs_view(structs@), name@) is None,
        },
{
    let mut i: usize = 0;
    while i < structs.len()
        invariant
            i <= structs@.len(),
            lookup_struct(structs_view(structs@), name@) == lookup_struct_from(structs_view(structs@), name@, i as nat),
        decreases structs@.len() - i,
    {
        if structs[i].0 == *name {
            return Some(&structs[i].1);
        }
        i = i + 1;
    }
    None
}

/// Lays out the struct `name`, after the structs it holds.
fn build_layout(
    structs: &Vec<(String, CheckedStruct)>,
    name: &String,
    layouts: &mut Vec<(String, StructLayout)>,
    visiting: &mut Vec<String>,
) -> (r: Result<(), CompileError>)
    ensures
        ({
            let s = cg_layout(structs_view(structs@), name@, layouts_view(old(layouts)@), names_view(old(visiting)@));
            match r {
                Ok(_) => s == Ok::<Layouts, Seq<char>>(layouts_view(final(layouts)@)) && names_view(final(visiting)@)
                    == names_view(old(visiting)@),
                Err(e) => s == Err::<Layouts, Seq<char>>(e@),
            }
        }),
    decreases structs@.len() - old(visiting)@.len(), 1int, 0int,
{
    if layout_named(layouts, name).is_some() {
        return Ok(());
    }
    if contains_name(visiting, name) || visiting.len() >= structs.len() {
        return Err(backend_error(concat3("recursive struct `", name.as_str(), "` is not supported")));
    }
    let structure = match struct_named(structs, name) {
        Some(s) => s,
        None => {
            return Err(backend_error(concat3("unknown type `", name.as_str(), "`")));
        },
    };
    let ghost before = visiting@;
    visiting.push(name.clone());
    proof {
        assert(names_view(visiting@) =~= names_view(before).push(name@));
    }
    let mut places: Vec<FieldLayout> = Vec::new();
    proof {
        assert(places_view(places@) =~= Seq::<FieldPlace>::empty());
    }
    let end = layout_fields(structs, &structure.fields, 0, layouts, visiting, 0, &mut places)?;
    let ghost inner = visiting@;
    let _ = visiting.pop();
    proof {
        assert(names_view(visiting@) =~= names_view(inner).drop_last());
        assert(names_view(visiting@) =~= names_view(before));
    }
    let size = match align_up_checked(end, 8) {
        Some(s) => s,
        None => {
            return Err(error_str("native backend cannot lay out a value this large"));
        },
    };
    let ghost done = layouts@;
    let entry = StructLayout { size, fields: places };
    proof {
        assert(entry@ == LayoutView { size: size as nat, fields: places_view(places@) });
    }
    layouts.push((name.clone(), entry));
    proof {
        assert(layouts_view(layouts@) =~= layouts_view(done).push((name@, entry@)));
    }
    Ok(())
}

/// Places the fields from index `i` on, from `offset`; the result is the end offset.
fn layout_fields(
    structs: &Vec<(String, CheckedStruct)>,
    fields: &Vec<StructField>,
    i: usize,
    layouts: &mut Vec<(String, StructLayout)>,
    visiting: &mut Vec<String>,
    offset: usize,
    places: &mut Vec<FieldLayout>,
) -> (r: Result<usize, CompileError>)
    ensures
        ({
            let s = cg_layout_fields(
                structs_view(structs@),
                fields@.map_values(|f: StructField| f@),
                i as nat,
                layouts_view(old(layouts)@),
                names_view(old(visiting)@),
                offset as nat,
                places_view(old(places)@),
            );
            match r {
                Ok(end) => s == Ok::<(Layouts, nat, Seq<FieldPlace>), Seq<char>>(
                    (layouts_view(final(layouts)@), end as nat, places_view(final(places)@)),
                ) && names_view(final(visiting)@) == names_view(old(visiting)@),
                Err(e) => s == Err::<(Layouts, nat, Seq<FieldPlace>), Seq<char>>(e@),
            }
        }),
    decreases structs@.len() + 1 - old(visiting)@.len(), 0int, fields@.len() - i,
{
    if i >= fields.len() || visiting.len() > structs.len() {
        return Ok(offset);
    }
    let field = &fields[i];
    let size: usize = match &field.ty {
        Type::Struct(inner) => {
            build_layout(structs, inner, layouts, visiting)?;
            match layout_named(layouts, inner) {
                Some(l) => l.size,
                None => 0,
            }
        },
        Type::I128 | Type::U128 => 16,
        _ => 8,
    };
    let padded = match align_up_checked(size, 8) {
        Some(p) => p,
        None => {
            return Err(error_str("native backend cannot lay out a value this large"));
        },
    };
    let next = match offset.checked_add(padded) {
        Some(n) => n,
        None => {
            return Err(error_str("native backend cannot lay out a value this large"));
        },
    };
    let ghost before = places@;
    let place = FieldLayout { name: field.name.clone(), offset, ty: field.ty.duplicate() };
    places.push(place);
    proof {
        assert(places_view(places@) =~= places_view(before).push(
            FieldPlace { name: field.name@, offset: offset as nat, ty: field.ty@ },
        ));
    }
    layout_fields(structs, fields, i + 1, layouts, visiting, next, places)
}

/// The layouts of all structs, in declaration order.
fn build_layouts(structs: &Vec<(String, CheckedStruct)>) -> (r: Result<Vec<(String, StructLayout)>, CompileError>)
    ensures
        match r {
            Ok(l) => cg_layouts(structs_view(structs@), 0, Seq::empty()) == Ok::<Layouts, Seq<char>>(layouts_view(l@)),
            Err(e) => cg_layouts(structs_view(structs@), 0, Seq::empty()) == Err::<Layouts, Seq<char>>(e@),
        },
{
    let mut layouts: Vec<(String, StructLayout)> = Vec::new();
    let mut visiting: Vec<String> = Vec::new();
    proof {
        assert(layouts_view(layouts@) =~= Seq::<(Seq<char>, LayoutView)>::empty());
    }
    let mut i: usize = 0;
    while i < structs.len()
        invariant
            i <= structs@.len(),
            visiting@.len() == 0,
            cg_layouts(structs_view(structs@), 0, Seq::empty()) == cg_layouts(
                structs_view(structs@),
                i as nat,
                layouts_view(layouts@),
            ),
        decreases structs@.len() - i,
    {
        proof {
            assert(names_view(visiting@) =~= Seq::<Seq<char>>::empty());
        }
        build_layout(structs, &structs[i].0, &mut layouts, &mut visiting)?;
        i = i + 1;
    }
    Ok(layouts)
}

/// Compiles a parsed program to assembly text: the checker first, then the
/// backend. Float literals are turned into their bits by `floats`.
pub fn compile_program_to_assembly<F: Fn(FloatRequest) -> FloatReply>(program: &Program, floats: &F) -> (r: Result<
    String,
    CompileError,
>)
    requires
        float_handler(*floats),
    ensures
        match r {
            Ok(text) => spec_compile_program(float_semantics(*floats), program@) == Ok::<Seq<char>, Seq<char>>(text@),
            Err(e) => spec_compile_program(float_semantics(*floats), program@) == Err::<Seq<char>, Seq<char>>(e@),
        },
{
    let checked = match check_program(program) {
        Ok(c) => c,
        Err(e) => {
            return Err(CompileError { message: e.message });
        },
    };
    let main = String::from_str("main");
    proof {
        reveal_strlit("main");
    }
    if function_named(program, &main).is_none() {
        return Err(error_str("function `main` not found"));
    }
    let layouts = build_layouts(&checked.structs)?;
    let text = compile_functions(floats, &program.functions, &checked.functions, &layouts)?;
    let mut assembly = String::from_str(ASSEMBLY_HEADER);
    assembly.append(text.as_str());
    assembly.append(RUNTIME_HELPERS);
    assembly.append(".subsections_via_symbols\n");
    Ok(assembly)
}

fn parse_failure(e: &ParseError) -> (r: CompileError)
    ensures
        r@ == parse_error_message(e@),
{
    let start = usize_to_string(e.span.start);
    let end = usize_to_string(e.span.end);
    let mut message = concat5("parse error at ", start.as_str(), "..", end.as_str(), ": ");
    message.append(e.message.as_str());
    CompileError { message }
}

/// Parses and compiles source text to assembly text.
pub fn compile_source_to_assembly<F: Fn(FloatRequest) -> FloatReply>(source: &str, floats: &F) -> (r: Result<
    String,
    CompileError,
>)
    requires
        float_handler(*floats),
        utf8_len(source@) <= usize::MAX,
    ensures
        match r {
            Ok(text) => spec_compile_source(float_semantics(*floats), source@) == Ok::<Seq<char>, Seq<char>>(text@),
            Err(e) => spec_compile_source(float_semantics(*floats), source@) == Err::<Seq<char>, Seq<char>>(e@),
        },
{
    match parse_source(source) {
        Err(e) => Err(parse_failure(&e)),
        Ok(program) => compile_program_to_assembly(&program, floats),
    }
}

pub open spec fn msg_unsupported_target() -> Seq<char> {
    "native backend currently supports only macOS arm64"@
}

/// What building an executable from a parsed program gives before the
/// assembler runs: the target check first, then the assembly text.
pub open spec fn spec_compile_program_to_executable(
    fs: spec_fn(FloatQuery) -> FloatAnswer,
    p: ProgramView,
    native_target: bool,
) -> Result<Seq<char>, Seq<char>> {
    if !native_target {
        Err(msg_unsupported_target())
    } else {
        spec_compile_program(fs, p)
    }
}

/// What building an executable from source text gives before the assembler
/// runs: a parse error first, then what the parsed program gives.
pub open spec fn spec_compile_source_to_executable(
    fs: spec_fn(FloatQuery) -> FloatAnswer,
    source: Seq<char>,
    native_target: bool,
) -> Result<Seq<char>, Seq<char>> {
    match spec_parse_source(source) {
        Err(e) => Err(parse_error_message(e)),
        Ok(p) => spec_compile_program_to_executable(fs, p, native_target),
    }
}

/// The part of building an executable from a parsed program that decides:
/// the assembly text to hand to the assembler, or the error.
/// `native_target` says whether the machine is the backend's target (macOS
/// on arm64).
pub fn compile_program_to_executable<F: Fn(FloatRequest) -> FloatReply>(
    program: &Program,
    native_target: bool,
    floats: &F,
) -> (r: Result<String, CompileError>)
    requires
        float_handler(*floats),
    ensures
        match r {
            Ok(text) => spec_compile_program_to_executable(float_semantics(*floats), program@, native_target) == Ok::<
                Seq<char>,
                Seq<char>,
            >(text@),
            Err(e) => spec_compile_program_to_executable(float_semantics(*floats), program@, native_target) == Err::<
                Seq<char>,
                Seq<char>,
            >(e@),
        },
{
    if !native_target {
        return Err(error_str("native backend currently supports only macOS arm64"));
    }
    compile_program_to_assembly(program, floats)
}

/// The part of building an executable from source text that decides: the
/// assembly text to hand to the assembler, or the error. `native_target`
/// says whether the machine is the backend's target (macOS on arm64).
pub fn compile_source_to_executable<F: Fn(FloatRequest) -> FloatReply>(
    source: &str,
    native_target: bool,
    floats: &F,
) -> (r: Result<String, CompileError>)
    requires
        float_handler(*floats),
        utf8_len(source@) <= usize::MAX,
    ensures
        match r {
            Ok(text) => spec_compile_source_to_executable(float_semantics(*floats), source@, native_target) == Ok::<
                Seq<char>,
                Seq<char>,
            >(text@),
            Err(e) => spec_compile_source_to_executable(float_semantics(*floats), source@, native_target) == Err::<
                Seq<char>,
                Seq<char>,
            >(e@),
        },
{
    match parse_source(source) {
        Err(e) => Err(parse_failure(&e)),
        Ok(program) => compile_program_to_executable(&program, native_target, floats),
    }
}
} // verus!
