//! What every step of code generation keeps: code is only appended, frame
//! slots and label numbers only grow, and expressions leave the variables
//! in scope and the enclosing loops as they found them; blocks restore
//! them. Since the label counter never goes back, no label is made twice.
use vstd::prelude::*;
use crate::ast::{ExprView, FieldInitView, StmtView, TypeView};
use crate::compiler::{
    align_up, cg_alloc, cg_allocate_local, cg_binary, cg_block, cg_call_statement, cg_dealloc, cg_equality, cg_expr,
    cg_field_address, cg_function, cg_functions, cg_insert_local, cg_label, cg_literal_fields, cg_logic,
    cg_lvalue_address, cg_parameters, cg_println, cg_push_arguments, cg_statement, cg_statements, cg_store_to_local,
    cg_struct_literal_to_local, cg_user_call, cg_value_binary, cg_wide_operator, emit, label_pair, pop_loop,
    pop_scope, push_scope, spec_compile_program, ContextView, EmitView, FieldPlace, Layouts, LocalView,
    ASSEMBLY_HEADER, RUNTIME_HELPERS,
};
use crate::runtime::{FloatAnswer, FloatQuery};
use crate::typechecker::{spec_check_program, SignatureView};
use crate::ast::{BinaryOperator, BindingView, FunctionView, ProgramView};

verus! {

/// `after` starts with `before`.
pub open spec fn starts_with(after: Seq<char>, before: Seq<char>) -> bool {
    &&& before.len() <= after.len()
    &&& forall|i: int| 0 <= i < before.len() ==> #[trigger] after[i] == before[i]
}

/// Generation moved forward from `before` to `after`: the code was only
/// appended to, and the frame size and the label counter did not go back.
pub open spec fn moved_forward(before: EmitView, after: EmitView) -> bool {
    &&& starts_with(after.body, before.body)
    &&& before.next_label <= after.next_label
    &&& before.next_offset <= after.next_offset
}

/// Moved forward, with the variables in scope and the loop labels unchanged.
pub open spec fn frame_kept(before: EmitView, after: EmitView) -> bool {
    &&& moved_forward(before, after)
    &&& after.scopes == before.scopes
    &&& after.loops == before.loops
}

proof fn lemma_align_up_grows(value: nat, alignment: nat)
    requires
        alignment > 0,
    ensures
        value <= align_up(value, alignment),
{
    if value % alignment != 0 {
        assert(value <= (value / alignment + 1) * alignment) by (nonlinear_arith)
            requires
                alignment > 0,
        {
            assert(value == alignment * (value / alignment) + value % alignment);
        }
    }
}

proof fn lemma_emit(st: EmitView, text: Seq<char>)
    ensures
        frame_kept(st, emit(st, text)),
{
    assert forall|i: int| 0 <= i < st.body.len() implies #[trigger] emit(st, text).body[i] == st.body[i] by {}
}

proof fn lemma_label(st: EmitView, prefix: Seq<char>)
    ensures
        frame_kept(st, cg_label(st, prefix).1),
{
}

proof fn lemma_label_pair(st: EmitView, first: Seq<char>, second: Seq<char>)
    ensures
        frame_kept(st, label_pair(st, first, second).1),
{
    lemma_label(st, first);
    lemma_label(cg_label(st, first).1, second);
}

proof fn lemma_allocate(cx: ContextView, st: EmitView, ty: TypeView, indirect: bool)
    ensures
        frame_kept(st, cg_allocate_local(cx, st, ty, indirect).1),
{
    lemma_align_up_grows(st.next_offset, 8);
}

proof fn lemma_wide_operator(st: EmitView, operator: crate::ast::BinaryOperator, ty: TypeView)
    ensures
        frame_kept(st, cg_wide_operator(st, operator, ty).1),
{
    match operator {
        crate::ast::BinaryOperator::Divide => {
            if ty.is_signed_integer() {
                lemma_label_pair(st, "i128_div_left_positive"@, "i128_div_right_positive"@);
                let (p, st1) = label_pair(st, "i128_div_left_positive"@, "i128_div_right_positive"@);
                lemma_label_pair(st1, "i128_div_positive_result"@, "i128_div_end"@);
                let (q, st2) = label_pair(st1, "i128_div_positive_result"@, "i128_div_end"@);
                if p is Ok && q is Ok {
                    let (a, b) = p->Ok_0;
                    let (c, d) = q->Ok_0;
                    lemma_emit(st2, crate::compiler::signed_division_text(a, b, c, d));
                }
            } else {
                lemma_emit(st, "    bl L_mould_udivmod_u128\n"@);
            }
        },
        crate::ast::BinaryOperator::ShiftLeft => {
            lemma_label_pair(st, "shl128_ge64"@, "shl128_end"@);
            let (p, st1) = label_pair(st, "shl128_ge64"@, "shl128_end"@);
            if p is Ok {
                let (a, b) = p->Ok_0;
                lemma_emit(st1, crate::compiler::shift_left_text(a, b));
            }
        },
        crate::ast::BinaryOperator::ShiftRight => {
            lemma_label_pair(st, "shr128_ge64"@, "shr128_end"@);
            let (p, st1) = label_pair(st, "shr128_ge64"@, "shr128_end"@);
            if p is Ok {
                let (a, b) = p->Ok_0;
                lemma_emit(st1, crate::compiler::shift_right_text(a, b, ty.is_signed_integer()));
            }
        },
        _ => {
            lemma_emit(st, "    adds x0, x0, x2\n    adc x1, x1, x3\n"@);
            lemma_emit(st, "    subs x0, x0, x2\n    sbc x1, x1, x3\n"@);
            lemma_emit(
                st,
                "    mul x4, x0, x2\n    umulh x5, x0, x2\n    madd x5, x0, x3, x5\n    madd x1, x1, x2, x5\n    mov x0, x4\n"@,
            );
            lemma_emit(st, "    and x0, x0, x2\n    and x1, x1, x3\n"@);
            lemma_emit(st, "    orr x0, x0, x2\n    orr x1, x1, x3\n"@);
            lemma_emit(st, "    eor x0, x0, x2\n    eor x1, x1, x3\n"@);
        },
    }
}

/// Generating an expression's code only appends code and takes frame slots
/// and labels; the variables in scope and the loop labels are as before.
/// This holds whether generation succeeds or stops with an error.
#[verifier::spinoff_prover]
pub proof fn law_expression_keeps_frame(
    fs: spec_fn(FloatQuery) -> FloatAnswer,
    cx: ContextView,
    st: EmitView,
    e: ExprView,
    expected: Option<TypeView>,
)
    ensures
        frame_kept(st, cg_expr(fs, cx, st, e, expected).1),
    decreases e, 10int, 0nat,
{
    reveal(cg_expr);
    match crate::compiler::cg_type(cx, st, e, expected) {
        Err(_) => {},
        Ok(ty) => match e {
            ExprView::Integer(v) => lemma_emit(st, crate::compiler::integer_literal_text(v, ty)),
            ExprView::Float(text) => match crate::compiler::cg_float_bits(fs, text, ty) {
                Err(_) => {},
                Ok(bits) => lemma_emit(st, crate::compiler::mov_u64_text("x0"@, bits)),
            },
            ExprView::Bool(b) => {
                lemma_emit(st, "    mov x0, #1\n"@);
                lemma_emit(st, "    mov x0, #0\n"@);
            },
            ExprView::Variable(name) => match crate::compiler::cg_local(st, name) {
                Err(_) => {},
                Ok(local) => {
                    lemma_emit(st, crate::compiler::local_address_text(local, "x0"@));
                    lemma_emit(st, crate::compiler::load_frame_value_text(local.offset, local.ty));
                },
            },
            ExprView::Call { name, arguments } => {
                if name == "alloc"@ {
                    law_alloc_keeps_frame(fs, cx, st, arguments, expected);
                } else if name != "println"@ && name != "dealloc"@ {
                    law_user_call_keeps_frame(fs, cx, st, name, arguments);
                }
            },
            ExprView::StructLiteral { name, fields } => {
                lemma_allocate(cx, st, ty, false);
                let (r, st1) = cg_allocate_local(cx, st, ty, false);
                if r is Ok {
                    let local = r->Ok_0;
                    law_struct_literal_keeps_frame(fs, cx, st1, name, fields, local);
                    let (r2, st2) = cg_struct_literal_to_local(fs, cx, st1, name, fields, local);
                    lemma_emit(st2, crate::compiler::local_address_text(local, "x0"@));
                }
            },
            ExprView::FieldAccess { .. } => {
                law_field_address_keeps_frame(fs, cx, st, e);
                let (r, st1) = cg_field_address(fs, cx, st, e);
                if r is Ok {
                    lemma_emit(st1, crate::compiler::load_from_x0_text(r->Ok_0));
                }
            },
            ExprView::AddressOf(inner) => {
                law_lvalue_keeps_frame(fs, cx, st, *inner);
            },
            ExprView::Dereference(inner) => {
                law_expression_keeps_frame(fs, cx, st, *inner, None);
                let (r, st1) = cg_expr(fs, cx, st, *inner, None);
                if r is Ok {
                    match r->Ok_0 {
                        TypeView::Pointer(target) => lemma_emit(st1, crate::compiler::load_from_x0_text(*target)),
                        _ => {},
                    }
                }
            },
            ExprView::BitNot(inner) => {
                law_expression_keeps_frame(fs, cx, st, *inner, Some(ty));
                let (r, st1) = cg_expr(fs, cx, st, *inner, Some(ty));
                lemma_emit(st1, "    cmp x0, #0\n    cset x0, eq\n"@);
                lemma_emit(st1, "    mvn x0, x0\n    mvn x1, x1\n"@);
                lemma_emit(st1, "    mvn x0, x0\n"@ + crate::compiler::normalize_text(ty));
            },
            ExprView::Binary { .. } => {
                law_binary_keeps_frame(fs, cx, st, e, ty);
            },
        },
    }
}

#[verifier::spinoff_prover]
proof fn law_binary_keeps_frame(
    fs: spec_fn(FloatQuery) -> FloatAnswer,
    cx: ContextView,
    st: EmitView,
    e: ExprView,
    ty: TypeView,
)
    ensures
        frame_kept(st, cg_binary(fs, cx, st, e, ty).1),
    decreases e, 9int, 0nat,
{
    reveal(cg_binary);
    match e {
        ExprView::Binary { operator, .. } => {
            if operator is BoolAnd || operator is BoolOr {
                law_logic_keeps_frame(fs, cx, st, e);
            } else if operator is Equal || operator is NotEqual {
                law_equality_keeps_frame(fs, cx, st, e);
            } else {
                law_value_binary_keeps_frame(fs, cx, st, e, ty);
            }
        },
        _ => {},
    }
}

#[verifier::spinoff_prover]
proof fn law_logic_keeps_frame(fs: spec_fn(FloatQuery) -> FloatAnswer, cx: ContextView, st: EmitView, e: ExprView)
    ensures
        frame_kept(st, cg_logic(fs, cx, st, e).1),
    decreases e, 8int, 0nat,
{
    reveal(cg_logic);
    match e {
        ExprView::Binary { left, operator, right } => {
            let and = operator is BoolAnd;
            let p1 = if and { "bool_and_false"@ } else { "bool_or_true"@ };
            let p2 = if and { "bool_and_end"@ } else { "bool_or_end"@ };
            lemma_label(st, p1);
            let (l1, st1) = cg_label(st, p1);
            lemma_label(st1, p2);
            let (l2, st2) = cg_label(st1, p2);
            if l1 is Ok && l2 is Ok {
                let short_label = l1->Ok_0;
                let end_label = l2->Ok_0;
                law_expression_keeps_frame(fs, cx, st2, *left, Some(TypeView::Bool));
                let (r1, st3) = cg_expr(fs, cx, st2, *left, Some(TypeView::Bool));
                let test = "    cmp x0, #0\n"@ + (if and { "    b.eq "@ } else { "    b.ne "@ }) + short_label
                    + crate::compiler::nl();
                lemma_emit(st3, test);
                let st4 = emit(st3, test);
                law_expression_keeps_frame(fs, cx, st4, *right, Some(TypeView::Bool));
                let (r2, st5) = cg_expr(fs, cx, st4, *right, Some(TypeView::Bool));
                lemma_emit(
                    st5,
                    "    cmp x0, #0\n    cset x0, ne\n"@ + crate::compiler::branch_text(end_label)
                        + crate::compiler::label_text(short_label) + (if and {
                        "    mov x0, #0\n"@
                    } else {
                        "    mov x0, #1\n"@
                    }) + crate::compiler::label_text(end_label),
                );
            }
        },
        _ => {},
    }
}

#[verifier::spinoff_prover]
proof fn law_equality_keeps_frame(fs: spec_fn(FloatQuery) -> FloatAnswer, cx: ContextView, st: EmitView, e: ExprView)
    ensures
        frame_kept(st, cg_equality(fs, cx, st, e).1),
    decreases e, 8int, 0nat,
{
    reveal(cg_equality);
    match e {
        ExprView::Binary { left, operator, right } => match crate::compiler::cg_operand_type(cx, st, e, None) {
            Err(_) => {},
            Ok(operand_ty) => {
                if !(operand_ty is Struct) {
                    law_expression_keeps_frame(fs, cx, st, *left, Some(operand_ty));
                    let (r1, st1) = cg_expr(fs, cx, st, *left, Some(operand_ty));
                    lemma_emit(st1, crate::compiler::push_text(operand_ty));
                    let st2 = emit(st1, crate::compiler::push_text(operand_ty));
                    law_expression_keeps_frame(fs, cx, st2, *right, Some(operand_ty));
                    let (r2, st3) = cg_expr(fs, cx, st2, *right, Some(operand_ty));
                    lemma_emit(
                        st3,
                        "    mov x2, x0\n    mov x3, x1\n"@ + crate::compiler::pop_text(operand_ty)
                            + "    eor x0, x0, x2\n    eor x1, x1, x3\n    orr x0, x0, x1\n    cmp x0, #0\n"@
                            + "    cset x0, "@ + crate::compiler::condition_code(operator) + crate::compiler::nl(),
                    );
                    lemma_emit(
                        st3,
                        "    mov x1, x0\n"@ + crate::compiler::pop_text(operand_ty) + (if operand_ty is F16
                            || operand_ty is F32 {
                            "    fmov s0, w0\n    fmov s1, w1\n    fcmp s0, s1\n"@
                        } else if operand_ty is F64 {
                            "    fmov d0, x0\n    fmov d1, x1\n    fcmp d0, d1\n"@
                        } else {
                            "    cmp x0, x1\n"@
                        }) + "    cset x0, "@ + crate::compiler::condition_code(operator) + crate::compiler::nl(),
                    );
                }
            },
        },
        _ => {},
    }
}

#[verifier::spinoff_prover]
proof fn law_value_binary_keeps_frame(
    fs: spec_fn(FloatQuery) -> FloatAnswer,
    cx: ContextView,
    st: EmitView,
    e: ExprView,
    ty: TypeView,
)
    ensures
        frame_kept(st, cg_value_binary(fs, cx, st, e, ty).1),
    decreases e, 8int, 0nat,
{
    reveal(cg_value_binary);
    match e {
        ExprView::Binary { left, operator, right } => {
            law_expression_keeps_frame(fs, cx, st, *left, Some(ty));
            let (r1, st1) = cg_expr(fs, cx, st, *left, Some(ty));
            lemma_emit(st1, crate::compiler::push_text(ty));
            let st2 = emit(st1, crate::compiler::push_text(ty));
            law_expression_keeps_frame(fs, cx, st2, *right, Some(ty));
            let (r2, st3) = cg_expr(fs, cx, st2, *right, Some(ty));
            let wide = emit(st3, "    mov x2, x0\n    mov x3, x1\n"@ + crate::compiler::pop_text(ty));
            lemma_emit(st3, "    mov x2, x0\n    mov x3, x1\n"@ + crate::compiler::pop_text(ty));
            lemma_wide_operator(wide, operator, ty);
            let st4 = emit(st3, "    mov x1, x0\n"@ + crate::compiler::pop_text(ty));
            lemma_emit(st3, "    mov x1, x0\n"@ + crate::compiler::pop_text(ty));
            match crate::compiler::float_operator_text(operator, ty) {
                Ok(text) => lemma_emit(st4, text),
                Err(_) => {},
            }
            match crate::compiler::integer_operator_text(operator, ty) {
                Ok(text) => lemma_emit(st4, text + crate::compiler::normalize_text(ty)),
                Err(_) => {},
            }
        },
        _ => {},
    }
}

#[verifier::spinoff_prover]
proof fn law_user_call_keeps_frame(
    fs: spec_fn(FloatQuery) -> FloatAnswer,
    cx: ContextView,
    st: EmitView,
    name: Seq<char>,
    arguments: Seq<ExprView>,
)
    ensures
        frame_kept(st, cg_user_call(fs, cx, st, name, arguments).1),
    decreases arguments, 8int, 0nat,
{
    reveal(cg_user_call);
    match crate::typechecker::lookup_signature(cx.signatures, name) {
        None => {},
        Some(signature) => {
            law_push_arguments_keeps_frame(fs, cx, st, arguments, signature.parameters, arguments.len());
            let (r, st1) = cg_push_arguments(fs, cx, st, arguments, signature.parameters, arguments.len());
            let text = crate::compiler::argument_loads_text(signature.parameters, 0, 0) + (if signature.parameters.len()
                == 0 {
                Seq::empty()
            } else {
                crate::compiler::add_imm_text("sp"@, "sp"@, 16 * signature.parameters.len())
            }) + "    bl "@ + crate::compiler::function_label(name) + crate::compiler::nl();
            lemma_emit(st1, text);
            let st2 = emit(st1, text);
            match signature.return_type {
                Some(rt) => lemma_emit(st2, crate::compiler::normalize_text(rt)),
                None => {},
            }
        },
    }
}

#[verifier::spinoff_prover]
proof fn law_push_arguments_keeps_frame(
    fs: spec_fn(FloatQuery) -> FloatAnswer,
    cx: ContextView,
    st: EmitView,
    arguments: Seq<ExprView>,
    parameters: Seq<TypeView>,
    k: nat,
)
    ensures
        frame_kept(st, cg_push_arguments(fs, cx, st, arguments, parameters, k).1),
    decreases arguments, 7int, k,
{
    reveal(cg_push_arguments);
    if !(k == 0 || k > arguments.len() || k > parameters.len()) {
        law_expression_keeps_frame(fs, cx, st, arguments[k - 1], Some(parameters[k - 1]));
        let (r, st1) = cg_expr(fs, cx, st, arguments[k - 1], Some(parameters[k - 1]));
        lemma_emit(st1, crate::compiler::push_text(parameters[k - 1]));
        let st2 = emit(st1, crate::compiler::push_text(parameters[k - 1]));
        law_push_arguments_keeps_frame(fs, cx, st2, arguments, parameters, (k - 1) as nat);
    }
}

#[verifier::spinoff_prover]
proof fn law_alloc_keeps_frame(
    fs: spec_fn(FloatQuery) -> FloatAnswer,
    cx: ContextView,
    st: EmitView,
    arguments: Seq<ExprView>,
    expected: Option<TypeView>,
)
    ensures
        frame_kept(st, cg_alloc(fs, cx, st, arguments, expected).1),
    decreases arguments, 8int, 0nat,
{
    reveal(cg_alloc);
    if arguments.len() == 1 {
        match cg_type_call(cx, st, arguments, expected) {
            Err(_) => {},
            Ok(pointer_ty) => match pointer_ty {
                TypeView::Pointer(inner) => match crate::compiler::cg_type_size(cx, *inner) {
                    Err(_) => {},
                    Ok(size) => {
                        let call = crate::compiler::mov_u64_text("x0"@, size as u64) + "    bl _malloc\n"@;
                        lemma_emit(st, call);
                        let st1 = emit(st, call);
                        lemma_allocate(cx, st1, TypeView::U64, false);
                        let (slot, st2) = cg_allocate_local(cx, st1, TypeView::U64, false);
                        if slot is Ok {
                            let local = slot->Ok_0;
                            let store = crate::compiler::store_register_text("x0"@, local.offset);
                            lemma_emit(st2, store);
                            let st3 = emit(st2, store);
                            law_expression_keeps_frame(fs, cx, st3, arguments[0], Some(*inner));
                            let (r, st4) = cg_expr(fs, cx, st3, arguments[0], Some(*inner));
                            let load = crate::compiler::load_register_text(local.offset, "x9"@);
                            lemma_emit(st4, load);
                            let st5 = emit(st4, load);
                            let back = crate::compiler::load_register_text(local.offset, "x0"@);
                            lemma_emit(st5, crate::compiler::store_to_address_text(*inner, "x9"@) + back);
                            match crate::compiler::cg_type_size(cx, *inner) {
                                Ok(n) => lemma_emit(
                                    st5,
                                    crate::compiler::copy_words_text("x0"@, "x9"@, 0, (n + 7) / 8) + back,
                                ),
                                Err(_) => {},
                            }
                        }
                    },
                },
                _ => {},
            },
        }
    }
}

/// The type `alloc(arguments)` is given.
pub open spec fn cg_type_call(cx: ContextView, st: EmitView, arguments: Seq<ExprView>, expected: Option<TypeView>) -> Result<
    TypeView,
    Seq<char>,
> {
    crate::compiler::cg_type(cx, st, ExprView::Call { name: "alloc"@, arguments }, expected)
}

#[verifier::spinoff_prover]
proof fn law_struct_literal_keeps_frame(
    fs: spec_fn(FloatQuery) -> FloatAnswer,
    cx: ContextView,
    st: EmitView,
    name: Seq<char>,
    fields: Seq<FieldInitView>,
    local: LocalView,
)
    ensures
        frame_kept(st, cg_struct_literal_to_local(fs, cx, st, name, fields, local).1),
    decreases fields, 8int, 0nat,
{
    reveal(cg_struct_literal_to_local);
    match crate::compiler::cg_struct_layout(cx, name) {
        Err(_) => {},
        Ok(layout) => law_literal_fields_keeps_frame(fs, cx, st, name, fields, local, layout.fields, 0),
    }
}

#[verifier::spinoff_prover]
proof fn law_literal_fields_keeps_frame(
    fs: spec_fn(FloatQuery) -> FloatAnswer,
    cx: ContextView,
    st: EmitView,
    name: Seq<char>,
    fields: Seq<FieldInitView>,
    local: LocalView,
    places: Seq<FieldPlace>,
    j: nat,
)
    ensures
        frame_kept(st, cg_literal_fields(fs, cx, st, name, fields, local, places, j).1),
    decreases fields, 7int, places.len() - j,
{
    reveal(cg_literal_fields);
    if j < places.len() {
        let place = places[j as int];
        match crate::compiler::find_init_from(fields, place.name, 0) {
            None => {},
            Some(k) => {
                if 0 <= k < fields.len() {
                    law_expression_keeps_frame(fs, cx, st, fields[k].value, Some(place.ty));
                    let (r, st1) = cg_expr(fs, cx, st, fields[k].value, Some(place.ty));
                    match crate::compiler::field_address_text(local, place.offset, "x9"@) {
                        Err(_) => {},
                        Ok(address) => {
                            let text1 = crate::compiler::store_to_address_text(place.ty, "x9"@);
                            lemma_emit(st1, address + text1);
                            law_literal_fields_keeps_frame(
                                fs,
                                cx,
                                emit(st1, address + text1),
                                name,
                                fields,
                                local,
                                places,
                                j + 1,
                            );
                            match crate::compiler::cg_type_size(cx, place.ty) {
                                Ok(n) => {
                                    let text2 = crate::compiler::copy_words_text("x0"@, "x9"@, 0, (n + 7) / 8);
                                    lemma_emit(st1, address + text2);
                                    law_literal_fields_keeps_frame(
                                        fs,
                                        cx,
                                        emit(st1, address + text2),
                                        name,
                                        fields,
                                        local,
                                        places,
                                        j + 1,
                                    );
                                },
                                Err(_) => {},
                            }
                        },
                    }
                }
            },
        }
    }
}

#[verifier::spinoff_prover]
proof fn law_lvalue_keeps_frame(fs: spec_fn(FloatQuery) -> FloatAnswer, cx: ContextView, st: EmitView, e: ExprView)
    ensures
        frame_kept(st, cg_lvalue_address(fs, cx, st, e).1),
    decreases e, 9int, 0nat,
{
    reveal(cg_lvalue_address);
    match e {
        ExprView::Variable(name) => match crate::compiler::cg_local(st, name) {
            Err(_) => {},
            Ok(local) => lemma_emit(st, crate::compiler::local_address_text(local, "x0"@)),
        },
        ExprView::FieldAccess { .. } => law_field_address_keeps_frame(fs, cx, st, e),
        ExprView::Dereference(inner) => law_expression_keeps_frame(fs, cx, st, *inner, None),
        _ => {},
    }
}

#[verifier::spinoff_prover]
proof fn law_field_address_keeps_frame(fs: spec_fn(FloatQuery) -> FloatAnswer, cx: ContextView, st: EmitView, e: ExprView)
    ensures
        frame_kept(st, cg_field_address(fs, cx, st, e).1),
    decreases e, 8int, 0nat,
{
    reveal(cg_field_address);
    match e {
        ExprView::FieldAccess { object, field } => match crate::compiler::cg_type(cx, st, *object, None) {
            Err(_) => {},
            Ok(object_ty) => {
                law_lvalue_keeps_frame(fs, cx, st, *object);
                law_expression_keeps_frame(fs, cx, st, *object, None);
                let s1 = cg_lvalue_address(fs, cx, st, *object).1;
                let s2 = cg_expr(fs, cx, st, *object, None).1;
                match object_ty {
                    TypeView::Struct(name) => match crate::compiler::cg_field_place(cx, name, field) {
                        Ok(place) => lemma_emit(s1, crate::compiler::add_imm_text("x0"@, "x0"@, place.offset)),
                        Err(_) => {},
                    },
                    TypeView::Pointer(inner) => match *inner {
                        TypeView::Struct(name) => match crate::compiler::cg_field_place(cx, name, field) {
                            Ok(place) => lemma_emit(s2, crate::compiler::add_imm_text("x0"@, "x0"@, place.offset)),
                            Err(_) => {},
                        },
                        _ => {},
                    },
                    _ => {},
                }
            },
        },
        _ => {},
    }
}

/// All scopes but the innermost are unchanged, and there are as many.
pub open spec fn outer_scopes_kept(before: EmitView, after: EmitView) -> bool {
    &&& after.scopes.len() == before.scopes.len()
    &&& forall|i: int| 0 <= i < before.scopes.len() - 1 ==> #[trigger] after.scopes[i] == before.scopes[i]
}

proof fn lemma_println(fs: spec_fn(FloatQuery) -> FloatAnswer, cx: ContextView, st: EmitView, arguments: Seq<ExprView>)
    ensures
        frame_kept(st, cg_println(fs, cx, st, arguments).1),
{
    if arguments.len() == 1 {
        law_expression_keeps_frame(fs, cx, st, arguments[0], None);
        let (r, st1) = cg_expr(fs, cx, st, arguments[0], None);
        if r is Ok {
            let ty = r->Ok_0;
            lemma_label_pair(st1, "println_false"@, "println_end"@);
            let (p, st2) = label_pair(st1, "println_false"@, "println_end"@);
            if p is Ok {
                let (f, end) = p->Ok_0;
                lemma_emit(
                    st2,
                    "    cmp x0, #0\n"@ + "    b.eq "@ + f + crate::compiler::nl() + crate::compiler::load_label_text(
                        "x0"@,
                        "L_mould_bool_true"@,
                    ) + "    bl _puts\n"@ + crate::compiler::branch_text(end) + crate::compiler::label_text(f)
                        + crate::compiler::load_label_text("x0"@, "L_mould_bool_false"@) + "    bl _puts\n"@
                        + crate::compiler::label_text(end),
                );
            }
            lemma_emit(st1, crate::compiler::printf_text("L_mould_fmt_pointer"@));
            lemma_emit(st1, "    bl _mould_print_i128\n"@);
            lemma_emit(st1, "    bl _mould_print_u128\n"@);
            lemma_emit(
                st1,
                "    fmov s0, w0\n    fcvt d0, s0\n    fmov x0, d0\n"@ + crate::compiler::printf_text("L_mould_fmt_float"@),
            );
            lemma_emit(st1, crate::compiler::printf_text("L_mould_fmt_float"@));
            lemma_emit(st1, crate::compiler::printf_text("L_mould_fmt_signed"@));
            lemma_emit(st1, crate::compiler::printf_text("L_mould_fmt_unsigned"@));
        }
    }
}

proof fn lemma_dealloc(fs: spec_fn(FloatQuery) -> FloatAnswer, cx: ContextView, st: EmitView, arguments: Seq<ExprView>)
    ensures
        frame_kept(st, cg_dealloc(fs, cx, st, arguments).1),
{
    if arguments.len() == 1 {
        law_expression_keeps_frame(fs, cx, st, arguments[0], None);
        let (r, st1) = cg_expr(fs, cx, st, arguments[0], None);
        lemma_emit(st1, "    bl _free\n"@);
    }
}

proof fn lemma_call_statement(
    fs: spec_fn(FloatQuery) -> FloatAnswer,
    cx: ContextView,
    st: EmitView,
    name: Seq<char>,
    arguments: Seq<ExprView>,
)
    ensures
        frame_kept(st, cg_call_statement(fs, cx, st, name, arguments).1),
{
    lemma_println(fs, cx, st, arguments);
    lemma_dealloc(fs, cx, st, arguments);
    law_alloc_keeps_frame(fs, cx, st, arguments, None);
    law_user_call_keeps_frame(fs, cx, st, name, arguments);
}

proof fn lemma_store_to_local(
    fs: spec_fn(FloatQuery) -> FloatAnswer,
    cx: ContextView,
    st: EmitView,
    value: ExprView,
    ty: TypeView,
    local: LocalView,
)
    ensures
        frame_kept(st, cg_store_to_local(fs, cx, st, value, ty, local).1),
{
    law_expression_keeps_frame(fs, cx, st, value, Some(ty));
    let (r, st1) = cg_expr(fs, cx, st, value, Some(ty));
    match value {
        ExprView::StructLiteral { name, fields } => law_struct_literal_keeps_frame(fs, cx, st, name, fields, local),
        _ => {},
    }
    match crate::compiler::cg_type_size(cx, ty) {
        Ok(n) => lemma_emit(
            st1,
            crate::compiler::local_address_text(local, "x9"@) + crate::compiler::copy_words_text(
                "x0"@,
                "x9"@,
                0,
                (n + 7) / 8,
            ),
        ),
        Err(_) => {},
    }
    lemma_emit(
        st1,
        crate::compiler::sub_imm_text("x9"@, "x29"@, local.offset) + crate::compiler::store_to_address_text(ty, "x9"@),
    );
}

proof fn lemma_insert_local(st: EmitView, name: Seq<char>, local: LocalView)
    ensures
        moved_forward(st, cg_insert_local(st, name, local)),
        outer_scopes_kept(st, cg_insert_local(st, name, local)),
        cg_insert_local(st, name, local).loops == st.loops,
{
    assert forall|i: int| 0 <= i < st.body.len() implies #[trigger] cg_insert_local(st, name, local).body[i]
        == st.body[i] by {}
}

/// A statement's code only appends code and takes frame slots and labels;
/// when it is generated without error, the enclosing loops are as before
/// and of the variables in scope only the innermost scope may have grown.
#[verifier::spinoff_prover]
pub proof fn law_statement_keeps_outer_scopes(
    fs: spec_fn(FloatQuery) -> FloatAnswer,
    cx: ContextView,
    st: EmitView,
    s: StmtView,
)
    ensures
        moved_forward(st, cg_statement(fs, cx, st, s).1),
        cg_statement(fs, cx, st, s).0 is Ok ==> outer_scopes_kept(st, cg_statement(fs, cx, st, s).1)
            && cg_statement(fs, cx, st, s).1.loops == st.loops,
    decreases s, 1int,
{
    reveal(cg_statement);
    assert forall|i: int| 0 <= i < st.scopes.len() - 1 implies #[trigger] st.scopes[i] == st.scopes[i] by {}
    match s {
        StmtView::Let { name, ty, value } => {
            lemma_allocate(cx, st, ty, false);
            let (r, st1) = cg_allocate_local(cx, st, ty, false);
            if r is Ok {
                let local = r->Ok_0;
                lemma_store_to_local(fs, cx, st1, value, ty, local);
                let (r2, st2) = cg_store_to_local(fs, cx, st1, value, ty, local);
                lemma_insert_local(st2, name, local);
            }
        },
        StmtView::Call { name, arguments } => lemma_call_statement(fs, cx, st, name, arguments),
        StmtView::Return(value) => match cx.function.return_type {
            None => {},
            Some(rt) => {
                law_expression_keeps_frame(fs, cx, st, value, Some(rt));
                let (r, st1) = cg_expr(fs, cx, st, value, Some(rt));
                lemma_emit(st1, crate::compiler::branch_text(cx.return_label));
            },
        },
        StmtView::If { condition, then_block, else_block } => {
            lemma_label_pair(st, "if_else"@, "if_end"@);
            let (p, st1) = label_pair(st, "if_else"@, "if_end"@);
            if p is Ok {
                let (else_label, end_label) = p->Ok_0;
                law_expression_keeps_frame(fs, cx, st1, condition, Some(TypeView::Bool));
                let (r, st2) = cg_expr(fs, cx, st1, condition, Some(TypeView::Bool));
                let test = "    cmp x0, #0\n"@ + "    b.eq "@ + else_label + crate::compiler::nl();
                lemma_emit(st2, test);
                let st3 = emit(st2, test);
                law_block_restores_scopes(fs, cx, st3, then_block);
                let (r2, st4) = cg_block(fs, cx, st3, then_block);
                let middle = crate::compiler::branch_text(end_label) + crate::compiler::label_text(else_label);
                lemma_emit(st4, middle);
                let st5 = emit(st4, middle);
                lemma_emit(st5, crate::compiler::label_text(end_label));
                match else_block {
                    None => {},
                    Some(b) => {
                        law_block_restores_scopes(fs, cx, st5, b);
                        let (r3, st6) = cg_block(fs, cx, st5, b);
                        lemma_emit(st6, crate::compiler::label_text(end_label));
                    },
                }
            }
        },
        StmtView::Loop(body) => {
            lemma_label_pair(st, "loop_start"@, "loop_end"@);
            let (p, st1) = label_pair(st, "loop_start"@, "loop_end"@);
            if p is Ok {
                let (start, end) = p->Ok_0;
                let pushed = EmitView { loops: st1.loops.push((start, end)), ..st1 };
                lemma_emit(pushed, crate::compiler::label_text(start));
                let st2 = emit(pushed, crate::compiler::label_text(start));
                law_block_restores_scopes(fs, cx, st2, body);
                let (r, st3) = cg_block(fs, cx, st2, body);
                let tail = crate::compiler::branch_text(start) + crate::compiler::label_text(end);
                lemma_emit(st3, tail);
                let st4 = emit(st3, tail);
                if r is Ok {
                    assert(pop_loop(st4).loops =~= st1.loops);
                }
            }
        },
        StmtView::While { condition, body } => {
            lemma_label_pair(st, "while_start"@, "while_end"@);
            let (p, st1) = label_pair(st, "while_start"@, "while_end"@);
            if p is Ok {
                let (start, end) = p->Ok_0;
                let pushed = EmitView { loops: st1.loops.push((start, end)), ..st1 };
                lemma_emit(pushed, crate::compiler::label_text(start));
                let st2 = emit(pushed, crate::compiler::label_text(start));
                law_expression_keeps_frame(fs, cx, st2, condition, Some(TypeView::Bool));
                let (r, st3) = cg_expr(fs, cx, st2, condition, Some(TypeView::Bool));
                let test = "    cmp x0, #0\n"@ + "    b.eq "@ + end + crate::compiler::nl();
                lemma_emit(st3, test);
                let st4 = emit(st3, test);
                law_block_restores_scopes(fs, cx, st4, body);
                let (r2, st5) = cg_block(fs, cx, st4, body);
                let tail = crate::compiler::branch_text(start) + crate::compiler::label_text(end);
                lemma_emit(st5, tail);
                let st6 = emit(st5, tail);
                if r2 is Ok {
                    assert(pop_loop(st6).loops =~= st1.loops);
                }
            }
        },
        StmtView::Break => {
            if st.loops.len() > 0 {
                lemma_emit(st, crate::compiler::branch_text(st.loops.last().1));
            }
        },
        StmtView::Continue => {
            if st.loops.len() > 0 {
                lemma_emit(st, crate::compiler::branch_text(st.loops.last().0));
            }
        },
    }
}

/// A block's code only appends code and takes frame slots and labels; when
/// it is generated without error, the variables in scope and the enclosing
/// loops are exactly as before: the block's own variables are gone.
#[verifier::spinoff_prover]
pub proof fn law_block_restores_scopes(
    fs: spec_fn(FloatQuery) -> FloatAnswer,
    cx: ContextView,
    st: EmitView,
    statements: Seq<StmtView>,
)
    ensures
        moved_forward(st, cg_block(fs, cx, st, statements).1),
        cg_block(fs, cx, st, statements).0 is Ok ==> cg_block(fs, cx, st, statements).1.scopes == st.scopes
            && cg_block(fs, cx, st, statements).1.loops == st.loops,
    decreases statements, 2int,
{
    reveal(cg_block);
    let inner = push_scope(st);
    law_statements_keep_outer_scopes(fs, cx, inner, statements);
    let (r, st1) = cg_statements(fs, cx, inner, statements);
    if r is Ok {
        assert(pop_scope(st1).scopes =~= st.scopes) by {
            assert forall|i: int| 0 <= i < st.scopes.len() implies pop_scope(st1).scopes[i] == st.scopes[i] by {
                assert(st1.scopes[i] == inner.scopes[i]);
            }
        }
    }
}

#[verifier::spinoff_prover]
proof fn law_statements_keep_outer_scopes(
    fs: spec_fn(FloatQuery) -> FloatAnswer,
    cx: ContextView,
    st: EmitView,
    statements: Seq<StmtView>,
)
    ensures
        moved_forward(st, cg_statements(fs, cx, st, statements).1),
        cg_statements(fs, cx, st, statements).0 is Ok ==> outer_scopes_kept(st, cg_statements(fs, cx, st, statements).1)
            && cg_statements(fs, cx, st, statements).1.loops == st.loops,
    decreases statements, 0int,
{
    reveal(cg_statements);
    assert forall|i: int| 0 <= i < st.body.len() implies #[trigger] st.body[i] == st.body[i] by {}
    assert forall|i: int| 0 <= i < st.scopes.len() - 1 implies #[trigger] st.scopes[i] == st.scopes[i] by {}
    if statements.len() > 0 {
        law_statement_keeps_outer_scopes(fs, cx, st, statements[0]);
        let (r, st1) = cg_statement(fs, cx, st, statements[0]);
        law_statements_keep_outer_scopes(fs, cx, st1, statements.drop_first());
    }
}

proof fn lemma_parameters(cx: ContextView, st: EmitView, parameters: Seq<BindingView>, i: nat, register: nat)
    ensures
        moved_forward(st, cg_parameters(cx, st, parameters, i, register).1),
    decreases parameters.len() - i,
{
    assert forall|k: int| 0 <= k < st.body.len() implies #[trigger] st.body[k] == st.body[k] by {}
    if i < parameters.len() {
        let p = parameters[i as int];
        let count = crate::compiler::register_count(p.ty);
        if register + count <= 8 {
            lemma_allocate(cx, st, p.ty, p.ty is Struct);
            let (r, st1) = cg_allocate_local(cx, st, p.ty, p.ty is Struct);
            if r is Ok {
                let local = r->Ok_0;
                lemma_insert_local(st1, p.name, local);
                let st2 = cg_insert_local(st1, p.name, local);
                let wide = crate::compiler::sub_imm_text("x9"@, "x29"@, local.offset) + "    str x"@
                    + crate::text::decimal(register) + ", [x9]"@ + crate::compiler::nl() + "    str x"@
                    + crate::text::decimal(register + 1) + ", [x9, #8]"@ + crate::compiler::nl();
                let narrow = crate::compiler::store_register_text("x"@ + crate::text::decimal(register), local.offset);
                lemma_emit(st2, wide);
                lemma_emit(st2, narrow);
                lemma_parameters(cx, emit(st2, wide), parameters, i + 1, register + count);
                lemma_parameters(cx, emit(st2, narrow), parameters, i + 1, register + count);
            }
        }
    }
}

/// Generating a function never moves the label counter back: the counter
/// it hands on is at least the one it was given, so the labels of later
/// functions are numbered after its own.
pub proof fn law_function_label_counter(
    fs: spec_fn(FloatQuery) -> FloatAnswer,
    f: FunctionView,
    signatures: Seq<(Seq<char>, SignatureView)>,
    layouts: Layouts,
    next_label: nat,
)
    ensures
        cg_function(fs, f, signatures, layouts, next_label) is Ok ==> next_label <= cg_function(
            fs,
            f,
            signatures,
            layouts,
            next_label,
        )->Ok_0.1,
{
    if !(f.name == "main"@ && f.parameters.len() != 0) {
        let cx = ContextView {
            function: f,
            signatures,
            layouts,
            return_label: "L_mould_"@ + f.name + "_return"@,
        };
        let st0 = EmitView {
            body: Seq::empty(),
            scopes: seq![Seq::empty()],
            loops: Seq::empty(),
            next_offset: 0,
            next_label,
        };
        lemma_parameters(cx, st0, f.parameters, 0, 0);
        let (r, st1) = cg_parameters(cx, st0, f.parameters, 0, 0);
        law_block_restores_scopes(fs, cx, st1, f.body);
    }
}

/// The functions' code is generated in declaration order: the code of the
/// functions before is kept, unchanged, at the front.
pub proof fn law_functions_in_order(
    fs: spec_fn(FloatQuery) -> FloatAnswer,
    functions: Seq<FunctionView>,
    i: nat,
    signatures: Seq<(Seq<char>, SignatureView)>,
    layouts: Layouts,
    next_label: nat,
    text: Seq<char>,
)
    ensures
        cg_functions(fs, functions, i, signatures, layouts, next_label, text) is Ok ==> starts_with(
            cg_functions(fs, functions, i, signatures, layouts, next_label, text)->Ok_0,
            text,
        ),
    decreases functions.len() - i,
{
    assert forall|k: int| 0 <= k < text.len() implies #[trigger] text[k] == text[k] by {}
    if i < functions.len() {
        law_function_label_counter(fs, functions[i as int], signatures, layouts, next_label);
        match cg_function(fs, functions[i as int], signatures, layouts, next_label) {
            Err(_) => {},
            Ok((code, label)) => {
                law_functions_in_order(fs, functions, i + 1, signatures, layouts, label, text + code);
                assert forall|k: int| 0 <= k < text.len() implies #[trigger] (text + code)[k] == text[k] by {}
            },
        }
    }
}

/// Compiled assembly starts with the data section and the start of the
/// text section, and ends with the 128-bit helpers and the closing directive.
pub proof fn law_assembly_framing(fs: spec_fn(FloatQuery) -> FloatAnswer, p: ProgramView)
    ensures
        spec_compile_program(fs, p) is Ok ==> {
            let text = spec_compile_program(fs, p)->Ok_0;
            let tail = RUNTIME_HELPERS@ + ".subsections_via_symbols\n"@;
            &&& ASSEMBLY_HEADER@.len() + tail.len() <= text.len()
            &&& text.subrange(0, ASSEMBLY_HEADER@.len() as int) == ASSEMBLY_HEADER@
            &&& text.subrange(text.len() - tail.len(), text.len() as int) == tail
        },
{
    if spec_compile_program(fs, p) is Ok {
        let text = spec_compile_program(fs, p)->Ok_0;
        let checked = spec_check_program(p)->Ok_0;
        let layouts = crate::compiler::cg_layouts(checked.structs, 0, Seq::empty())->Ok_0;
        let body = cg_functions(fs, p.functions, 0, checked.functions, layouts, 0, Seq::empty())->Ok_0;
        let tail = RUNTIME_HELPERS@ + ".subsections_via_symbols\n"@;
        assert(text == ASSEMBLY_HEADER@ + body + RUNTIME_HELPERS@ + ".subsections_via_symbols\n"@);
        assert(text =~= ASSEMBLY_HEADER@ + body + tail);
        assert(text.subrange(0, ASSEMBLY_HEADER@.len() as int) =~= ASSEMBLY_HEADER@);
        assert(text.subrange(text.len() - tail.len(), text.len() as int) =~= tail);
    }
}

/// A program compiles only if the checker accepts it and it has a `main`;
/// a program the checker refuses is refused with the checker's message.
pub proof fn law_compiled_programs_are_checked(fs: spec_fn(FloatQuery) -> FloatAnswer, p: ProgramView)
    ensures
        spec_compile_program(fs, p) is Ok ==> spec_check_program(p) is Ok && crate::runtime::find_function(
            p,
            "main"@,
        ) is Some,
        spec_check_program(p) is Err ==> spec_compile_program(fs, p) == Err::<Seq<char>, Seq<char>>(
            spec_check_program(p)->Err_0,
        ),
{
}

/// The lines that open a function's code: its global label, alignment and label.
pub open spec fn label_lines(name: Seq<char>) -> Seq<char> {
    ".globl "@ + crate::compiler::function_label(name) + crate::compiler::nl() + ".p2align 2\n"@
        + crate::compiler::function_label(name) + ":"@ + crate::compiler::nl()
}

/// The code of each function from index `i` on, in order, as long as each
/// is generated without error.
pub open spec fn function_codes(
    fs: spec_fn(FloatQuery) -> FloatAnswer,
    functions: Seq<FunctionView>,
    i: nat,
    signatures: Seq<(Seq<char>, SignatureView)>,
    layouts: Layouts,
    next_label: nat,
) -> Seq<Seq<char>>
    decreases functions.len() - i,
{
    if i >= functions.len() {
        Seq::empty()
    } else {
        match cg_function(fs, functions[i as int], signatures, layouts, next_label) {
            Ok((code, label)) => seq![code] + function_codes(fs, functions, i + 1, signatures, layouts, label),
            Err(_) => Seq::empty(),
        }
    }
}

/// The code of each function of a program, in declaration order.
pub open spec fn program_codes(fs: spec_fn(FloatQuery) -> FloatAnswer, p: ProgramView) -> Seq<Seq<char>> {
    let checked = spec_check_program(p)->Ok_0;
    let layouts = crate::compiler::cg_layouts(checked.structs, 0, Seq::empty())->Ok_0;
    function_codes(fs, p.functions, 0, checked.functions, layouts, 0)
}

proof fn lemma_function_code_opens_with_label(
    fs: spec_fn(FloatQuery) -> FloatAnswer,
    f: FunctionView,
    signatures: Seq<(Seq<char>, SignatureView)>,
    layouts: Layouts,
    next_label: nat,
)
    ensures
        cg_function(fs, f, signatures, layouts, next_label) is Ok ==> starts_with(
            cg_function(fs, f, signatures, layouts, next_label)->Ok_0.0,
            label_lines(f.name),
        ),
{
    if cg_function(fs, f, signatures, layouts, next_label) is Ok {
        let code = cg_function(fs, f, signatures, layouts, next_label)->Ok_0.0;
        let head = label_lines(f.name);
        assert(code.subrange(0, head.len() as int) =~= head);
        assert forall|k: int| 0 <= k < head.len() implies #[trigger] code[k] == head[k] by {
            assert(code.subrange(0, head.len() as int)[k] == code[k]);
        }
    }
}

proof fn lemma_function_codes(
    fs: spec_fn(FloatQuery) -> FloatAnswer,
    functions: Seq<FunctionView>,
    i: nat,
    signatures: Seq<(Seq<char>, SignatureView)>,
    layouts: Layouts,
    next_label: nat,
    text: Seq<char>,
)
    requires
        i <= functions.len(),
    ensures
        cg_functions(fs, functions, i, signatures, layouts, next_label, text) is Ok ==> {
            let codes = function_codes(fs, functions, i, signatures, layouts, next_label);
            &&& codes.len() == functions.len() - i
            &&& cg_functions(fs, functions, i, signatures, layouts, next_label, text)->Ok_0 == text + codes.flatten()
            &&& forall|k: int| 0 <= k < codes.len() ==> starts_with(#[trigger] codes[k], label_lines(functions[i + k].name))
        },
    decreases functions.len() - i,
{
    let codes = function_codes(fs, functions, i, signatures, layouts, next_label);
    if i >= functions.len() {
        assert(text + codes.flatten() =~= text);
    } else {
        lemma_function_code_opens_with_label(fs, functions[i as int], signatures, layouts, next_label);
        match cg_function(fs, functions[i as int], signatures, layouts, next_label) {
            Err(_) => {},
            Ok((code, label)) => if cg_functions(fs, functions, i, signatures, layouts, next_label, text) is Ok {
                lemma_function_codes(fs, functions, i + 1, signatures, layouts, label, text + code);
                assert(cg_functions(fs, functions, i + 1, signatures, layouts, label, text + code) is Ok);
                let rest = function_codes(fs, functions, i + 1, signatures, layouts, label);
                assert(codes.drop_first() =~= rest);
                assert(codes.first() == code);
                assert(codes.flatten() == code + rest.flatten());
                assert(text + code + rest.flatten() =~= text + (code + rest.flatten()));
                assert forall|k: int| 0 <= k < codes.len() implies starts_with(
                    #[trigger] codes[k],
                    label_lines(functions[i + k].name),
                ) by {
                    if k > 0 {
                        let j = k - 1;
                        assert(0 <= j < rest.len());
                        assert(starts_with(rest[j], label_lines(functions[(i + 1) + j].name)));
                        assert(codes[k] == rest[j]);
                        assert((i + 1) + j == i + k);
                    } else {
                        assert(codes[0] == code);
                        assert(starts_with(code, label_lines(functions[i as int].name)));
                    }
                }
            },
        }
    }
}

/// Compiled assembly is the header, then the code of each function of the
/// program in declaration order, each opening with its label lines
/// (`.globl`, `.p2align 2` and the label), then the 128-bit helpers and the
/// closing directive.
pub proof fn law_assembly_lists_functions(fs: spec_fn(FloatQuery) -> FloatAnswer, p: ProgramView)
    ensures
        spec_compile_program(fs, p) is Ok ==> {
            let codes = program_codes(fs, p);
            &&& codes.len() == p.functions.len()
            &&& spec_compile_program(fs, p)->Ok_0 == ASSEMBLY_HEADER@ + codes.flatten() + RUNTIME_HELPERS@
                + ".subsections_via_symbols\n"@
            &&& forall|k: int| 0 <= k < codes.len() ==> starts_with(#[trigger] codes[k], label_lines(p.functions[k].name))
        },
{
    if spec_compile_program(fs, p) is Ok {
        let checked = spec_check_program(p)->Ok_0;
        let layouts = crate::compiler::cg_layouts(checked.structs, 0, Seq::empty())->Ok_0;
        lemma_function_codes(fs, p.functions, 0, checked.functions, layouts, 0, Seq::empty());
        let codes = program_codes(fs, p);
        assert(Seq::<char>::empty() + codes.flatten() =~= codes.flatten());
        assert forall|k: int| 0 <= k < codes.len() implies starts_with(#[trigger] codes[k], label_lines(p.functions[k].name)) by {
            assert(p.functions[0 + k] == p.functions[k]);
        }
    }
}

/// An expression the generator cannot give a type is refused with that
/// type error before any code is emitted, any frame slot is taken or any
/// label is made: the generation state is left as it was.
pub proof fn law_type_error_emits_nothing(
    fs: spec_fn(FloatQuery) -> FloatAnswer,
    cx: ContextView,
    st: EmitView,
    e: ExprView,
    expected: Option<TypeView>,
)
    requires
        crate::compiler::cg_type(cx, st, e, expected) is Err,
    ensures
        cg_expr(fs, cx, st, e, expected) == (
            Err::<TypeView, Seq<char>>(crate::compiler::cg_type(cx, st, e, expected)->Err_0),
            st,
        ),
{
    reveal(cg_expr);
}


/// An arm64 instruction with a destination and two source registers,
/// `op d, n, m`: it computes `d := n op m`, so the first source is the
/// left operand and the second the right one.
pub open spec fn three_register(mnemonic: Seq<char>, d: Seq<char>, n: Seq<char>, m: Seq<char>) -> Seq<char> {
    "    "@ + mnemonic + " "@ + d + ", "@ + n + ", "@ + m + "\n"@
}

/// The arm64 instruction that computes an integer operator on 64-bit
/// registers, by signedness where it matters.
pub open spec fn arm_mnemonic(operator: BinaryOperator, signed: bool) -> Option<Seq<char>> {
    match operator {
        BinaryOperator::Add => Some("add"@),
        BinaryOperator::Subtract => Some("sub"@),
        BinaryOperator::Multiply => Some("mul"@),
        BinaryOperator::Divide => Some(if signed { "sdiv"@ } else { "udiv"@ }),
        BinaryOperator::BitAnd => Some("and"@),
        BinaryOperator::BitOr => Some("orr"@),
        BinaryOperator::BitXor => Some("eor"@),
        BinaryOperator::ShiftLeft => Some("lsl"@),
        BinaryOperator::ShiftRight => Some(if signed { "asr"@ } else { "lsr"@ }),
        _ => None,
    }
}

/// An integer operator on operands of at most 64 bits is one instruction
/// that reads the left operand from `x0` and the right one from `x1`, in
/// that order, and leaves the result in `x0`: `a - b` is `sub x0, x0, x1`,
/// `a / b` divides `x0` by `x1`, `a << b` shifts `x0` by `x1`. Operators
/// with no such instruction are refused.
pub proof fn law_integer_instruction_operands(operator: BinaryOperator, ty: TypeView)
    ensures
        match arm_mnemonic(operator, ty.is_signed_integer()) {
            Some(m) => crate::compiler::integer_operator_text(operator, ty) == Ok::<Seq<char>, Seq<char>>(
                three_register(m, "x0"@, "x0"@, "x1"@),
            ),
            None => crate::compiler::integer_operator_text(operator, ty) is Err,
        },
{
    reveal_strlit("    ");
    reveal_strlit(" ");
    reveal_strlit(", ");
    reveal_strlit("\n");
    reveal_strlit("x0");
    reveal_strlit("x1");
    let signed = ty.is_signed_integer();
    match operator {
        BinaryOperator::Add => {
            reveal_strlit("add");
            reveal_strlit("    add x0, x0, x1\n");
            assert(three_register("add"@, "x0"@, "x0"@, "x1"@) =~= "    add x0, x0, x1\n"@);
        },
        BinaryOperator::Subtract => {
            reveal_strlit("sub");
            reveal_strlit("    sub x0, x0, x1\n");
            assert(three_register("sub"@, "x0"@, "x0"@, "x1"@) =~= "    sub x0, x0, x1\n"@);
        },
        BinaryOperator::Multiply => {
            reveal_strlit("mul");
            reveal_strlit("    mul x0, x0, x1\n");
            assert(three_register("mul"@, "x0"@, "x0"@, "x1"@) =~= "    mul x0, x0, x1\n"@);
        },
        BinaryOperator::Divide => {
            reveal_strlit("sdiv");
            reveal_strlit("    sdiv x0, x0, x1\n");
            reveal_strlit("udiv");
            reveal_strlit("    udiv x0, x0, x1\n");
            assert(three_register("sdiv"@, "x0"@, "x0"@, "x1"@) =~= "    sdiv x0, x0, x1\n"@);
            assert(three_register("udiv"@, "x0"@, "x0"@, "x1"@) =~= "    udiv x0, x0, x1\n"@);
        },
        BinaryOperator::BitAnd => {
            reveal_strlit("and");
            reveal_strlit("    and x0, x0, x1\n");
            assert(three_register("and"@, "x0"@, "x0"@, "x1"@) =~= "    and x0, x0, x1\n"@);
        },
        BinaryOperator::BitOr => {
            reveal_strlit("orr");
            reveal_strlit("    orr x0, x0, x1\n");
            assert(three_register("orr"@, "x0"@, "x0"@, "x1"@) =~= "    orr x0, x0, x1\n"@);
        },
        BinaryOperator::BitXor => {
            reveal_strlit("eor");
            reveal_strlit("    eor x0, x0, x1\n");
            assert(three_register("eor"@, "x0"@, "x0"@, "x1"@) =~= "    eor x0, x0, x1\n"@);
        },
        BinaryOperator::ShiftLeft => {
            reveal_strlit("lsl");
            reveal_strlit("    lsl x0, x0, x1\n");
            assert(three_register("lsl"@, "x0"@, "x0"@, "x1"@) =~= "    lsl x0, x0, x1\n"@);
        },
        BinaryOperator::ShiftRight => {
            reveal_strlit("asr");
            reveal_strlit("    asr x0, x0, x1\n");
            reveal_strlit("lsr");
            reveal_strlit("    lsr x0, x0, x1\n");
            assert(three_register("asr"@, "x0"@, "x0"@, "x1"@) =~= "    asr x0, x0, x1\n"@);
            assert(three_register("lsr"@, "x0"@, "x0"@, "x1"@) =~= "    lsr x0, x0, x1\n"@);
        },
        _ => {},
    }
}


/// On 128-bit operands, the left one in `x0:x1` (low, high) and the right
/// one in `x2:x3`, `+ - & | ^` are an instruction on the low halves, then
/// one on the high halves, each reading the left operand's register first:
/// `a - b` is `subs x0, x0, x2` then `sbc x1, x1, x3`.
pub proof fn law_wide_instruction_operands(st: EmitView, operator: BinaryOperator, ty: TypeView)
    ensures
        ({
            let pair = match operator {
                BinaryOperator::Add => Some(("adds"@, "adc"@)),
                BinaryOperator::Subtract => Some(("subs"@, "sbc"@)),
                BinaryOperator::BitAnd => Some(("and"@, "and"@)),
                BinaryOperator::BitOr => Some(("orr"@, "orr"@)),
                BinaryOperator::BitXor => Some(("eor"@, "eor"@)),
                _ => None,
            };
            match pair {
                Some((low, high)) => cg_wide_operator(st, operator, ty) == (
                    Ok::<(), Seq<char>>(()),
                    emit(st, three_register(low, "x0"@, "x0"@, "x2"@) + three_register(high, "x1"@, "x1"@, "x3"@)),
                ),
                None => true,
            }
        }),
{
    reveal_strlit("    ");
    reveal_strlit(" ");
    reveal_strlit(", ");
    reveal_strlit("\n");
    reveal_strlit("x0");
    reveal_strlit("x1");
    reveal_strlit("x2");
    reveal_strlit("x3");
    match operator {
        BinaryOperator::Add => {
            reveal_strlit("adds");
            reveal_strlit("adc");
            reveal_strlit("    adds x0, x0, x2\n    adc x1, x1, x3\n");
            assert(three_register("adds"@, "x0"@, "x0"@, "x2"@) + three_register("adc"@, "x1"@, "x1"@, "x3"@)
                =~= "    adds x0, x0, x2\n    adc x1, x1, x3\n"@);
        },
        BinaryOperator::Subtract => {
            reveal_strlit("subs");
            reveal_strlit("sbc");
            reveal_strlit("    subs x0, x0, x2\n    sbc x1, x1, x3\n");
            assert(three_register("subs"@, "x0"@, "x0"@, "x2"@) + three_register("sbc"@, "x1"@, "x1"@, "x3"@)
                =~= "    subs x0, x0, x2\n    sbc x1, x1, x3\n"@);
        },
        BinaryOperator::BitAnd => {
            reveal_strlit("and");
            reveal_strlit("    and x0, x0, x2\n    and x1, x1, x3\n");
            assert(three_register("and"@, "x0"@, "x0"@, "x2"@) + three_register("and"@, "x1"@, "x1"@, "x3"@)
                =~= "    and x0, x0, x2\n    and x1, x1, x3\n"@);
        },
        BinaryOperator::BitOr => {
            reveal_strlit("orr");
            reveal_strlit("    orr x0, x0, x2\n    orr x1, x1, x3\n");
            assert(three_register("orr"@, "x0"@, "x0"@, "x2"@) + three_register("orr"@, "x1"@, "x1"@, "x3"@)
                =~= "    orr x0, x0, x2\n    orr x1, x1, x3\n"@);
        },
        BinaryOperator::BitXor => {
            reveal_strlit("eor");
            reveal_strlit("    eor x0, x0, x2\n    eor x1, x1, x3\n");
            assert(three_register("eor"@, "x0"@, "x0"@, "x2"@) + three_register("eor"@, "x1"@, "x1"@, "x3"@)
                =~= "    eor x0, x0, x2\n    eor x1, x1, x3\n"@);
        },
        _ => {},
    }
}


/// Where the operands of an integer operator on at most 64 bits come from:
/// the left operand's code runs first and its value is pushed; the right
/// operand's code then leaves its value in `x0`, which moves to `x1`, and
/// the pushed left value is loaded back into `x0`. Only then comes the
/// operator's instruction, so it reads the left operand from `x0` and the
/// right one from `x1`.
#[verifier::spinoff_prover]
pub proof fn law_binary_operands_reach_registers(
    fs: spec_fn(FloatQuery) -> FloatAnswer,
    cx: ContextView,
    st: EmitView,
    left: ExprView,
    operator: BinaryOperator,
    right: ExprView,
    ty: TypeView,
)
    requires
        ty.is_integer(),
        !crate::compiler::is_wide(ty),
        arm_mnemonic(operator, ty.is_signed_integer()) is Some,
    ensures
        ({
            let e = ExprView::Binary { left: Box::new(left), operator, right: Box::new(right) };
            let (r, after) = cg_value_binary(fs, cx, st, e, ty);
            let st1 = cg_expr(fs, cx, st, left, Some(ty)).1;
            let st3 = cg_expr(fs, cx, emit(st1, crate::compiler::push_text(ty)), right, Some(ty)).1;
            r is Ok ==> after.body == st3.body + "    mov x1, x0\n"@ + crate::compiler::pop_text(ty) + three_register(
                arm_mnemonic(operator, ty.is_signed_integer()).unwrap(),
                "x0"@,
                "x0"@,
                "x1"@,
            ) + crate::compiler::normalize_text(ty)
        }),
{
    law_integer_instruction_operands(operator, ty);
    let e = ExprView::Binary { left: Box::new(left), operator, right: Box::new(right) };
    let (r1, st1) = cg_expr(fs, cx, st, left, Some(ty));
    let st2 = emit(st1, crate::compiler::push_text(ty));
    let (r2, st3) = cg_expr(fs, cx, st2, right, Some(ty));
    let st4 = emit(st3, "    mov x1, x0\n"@ + crate::compiler::pop_text(ty));
    let text = three_register(arm_mnemonic(operator, ty.is_signed_integer()).unwrap(), "x0"@, "x0"@, "x1"@);
    assert(!ty.is_float());
    assert(cg_value_binary(fs, cx, st, e, ty) == if r1 is Err || r2 is Err {
        (cg_value_binary(fs, cx, st, e, ty).0, cg_value_binary(fs, cx, st, e, ty).1)
    } else {
        (Ok::<(), Seq<char>>(()), emit(st4, text + crate::compiler::normalize_text(ty)))
    }) by {
        reveal(cg_value_binary);
    }
    if r1 is Ok && r2 is Ok {
        assert(st3.body + ("    mov x1, x0\n"@ + crate::compiler::pop_text(ty)) + (text + crate::compiler::normalize_text(
            ty,
        )) =~= st3.body + "    mov x1, x0\n"@ + crate::compiler::pop_text(ty) + text + crate::compiler::normalize_text(
            ty,
        ));
    } else {
        assert(cg_value_binary(fs, cx, st, e, ty).0 is Err) by {
            reveal(cg_value_binary);
        }
    }
}

} // verus!
