//! What holds of every run. The budget only stops a run: whatever a run
//! gives without error under some budget, it gives unchanged under every
//! larger budget. And printing only ever adds whole lines. The bitwise
//! operators act bit by bit on two's complement values in the type's width,
//! for signed and unsigned types alike.
use vstd::prelude::*;
use crate::ast::{BindingView, ExprView, FieldInitView, ProgramView, StmtView, TypeView};
use crate::runtime::{
    ensure_operator, find_struct, is_untyped, rt_alloc, rt_alloc_as, rt_arguments, rt_binary, rt_binary_as,
    rt_call_expression, rt_call_function, rt_call_statement, rt_dealloc, rt_equality, rt_eval, rt_eval_as,
    rt_field_inits, rt_logic, rt_loop, rt_println, rt_statement, rt_statements, rt_struct_literal, rt_while,
    spec_run_main, value_type, as_bool, apply_binary, from_bits, to_bits, low_mask, IntegerValue, ValueView, FloatAnswer,
    FloatQuery, Machine, Vars,
};
use crate::ast::BinaryOperator;
use crate::ast::operator_result_is_bool;

verus! {

/// With a larger budget, an expression that was evaluated without error
/// has the same value and leaves the same machine.
pub proof fn law_eval_budget(
    fs: spec_fn(FloatQuery) -> FloatAnswer,
    p: ProgramView,
    fuel: nat,
    more: nat,
    m: Machine,
    vars: Vars,
    e: ExprView,
)
    requires
        fuel <= more,
        rt_eval(fs, p, fuel, m, vars, e).0 is Ok,
    ensures
        rt_eval(fs, p, more, m, vars, e) == rt_eval(fs, p, fuel, m, vars, e),
    decreases fuel, 0int, e, 10int,
{
    match e {
        ExprView::Call { name, arguments } => lemma_call_expression(fs, p, fuel, more, m, vars, name, arguments),
        ExprView::StructLiteral { name, fields } => lemma_struct_literal(fs, p, fuel, more, m, vars, name, fields),
        ExprView::FieldAccess { object, .. } => law_eval_budget(fs, p, fuel, more, m, vars, *object),
        ExprView::AddressOf(inner) => law_eval_budget(fs, p, fuel, more, m, vars, *inner),
        ExprView::Dereference(inner) => law_eval_budget(fs, p, fuel, more, m, vars, *inner),
        ExprView::BitNot(inner) => law_eval_budget(fs, p, fuel, more, m, vars, *inner),
        ExprView::Binary { .. } => lemma_binary(fs, p, fuel, more, m, vars, e),
        _ => {},
    }
}

proof fn lemma_eval_as(
    fs: spec_fn(FloatQuery) -> FloatAnswer,
    p: ProgramView,
    fuel: nat,
    more: nat,
    m: Machine,
    vars: Vars,
    e: ExprView,
    ty: TypeView,
)
    requires
        fuel <= more,
        rt_eval_as(fs, p, fuel, m, vars, e, ty).0 is Ok,
    ensures
        rt_eval_as(fs, p, more, m, vars, e, ty) == rt_eval_as(fs, p, fuel, m, vars, e, ty),
    decreases fuel, 0int, e, 11int,
{
    match e {
        ExprView::Integer(_) => {},
        ExprView::Float(_) => {},
        ExprView::Bool(_) => {},
        ExprView::Call { name, arguments } => {
            if name == "alloc"@ {
                lemma_alloc_as(fs, p, fuel, more, m, vars, arguments, ty);
            } else {
                law_eval_budget(fs, p, fuel, more, m, vars, e);
            }
        },
        ExprView::BitNot(inner) => {
            if ty.is_bool() || ty.is_integer() {
                lemma_eval_as(fs, p, fuel, more, m, vars, *inner, ty);
            }
        },
        ExprView::Binary { .. } => lemma_binary_as(fs, p, fuel, more, m, vars, e, ty),
        _ => law_eval_budget(fs, p, fuel, more, m, vars, e),
    }
}

proof fn lemma_binary(
    fs: spec_fn(FloatQuery) -> FloatAnswer,
    p: ProgramView,
    fuel: nat,
    more: nat,
    m: Machine,
    vars: Vars,
    e: ExprView,
)
    requires
        fuel <= more,
        rt_binary(fs, p, fuel, m, vars, e).0 is Ok,
    ensures
        rt_binary(fs, p, more, m, vars, e) == rt_binary(fs, p, fuel, m, vars, e),
    decreases fuel, 0int, e, 9int,
{
    match e {
        ExprView::Binary { left, operator, right } => {
            if operator is BoolAnd || operator is BoolOr {
                lemma_logic(fs, p, fuel, more, m, vars, e);
            } else if operator is Equal || operator is NotEqual {
                lemma_equality(fs, p, fuel, more, m, vars, e);
            } else if is_untyped(*left) && !is_untyped(*right) {
                law_eval_budget(fs, p, fuel, more, m, vars, *right);
                let (rr, m1) = rt_eval(fs, p, fuel, m, vars, *right);
                let rv = rr->Ok_0;
                if ensure_operator(operator, value_type(rv)) is Ok {
                    lemma_eval_as(fs, p, fuel, more, m1, vars, *left, value_type(rv));
                }
            } else {
                law_eval_budget(fs, p, fuel, more, m, vars, *left);
                let (lr, m1) = rt_eval(fs, p, fuel, m, vars, *left);
                let lv = lr->Ok_0;
                if ensure_operator(operator, value_type(lv)) is Ok {
                    lemma_eval_as(fs, p, fuel, more, m1, vars, *right, value_type(lv));
                }
            }
        },
        _ => {},
    }
}

proof fn lemma_binary_as(
    fs: spec_fn(FloatQuery) -> FloatAnswer,
    p: ProgramView,
    fuel: nat,
    more: nat,
    m: Machine,
    vars: Vars,
    e: ExprView,
    ty: TypeView,
)
    requires
        fuel <= more,
        rt_binary_as(fs, p, fuel, m, vars, e, ty).0 is Ok,
    ensures
        rt_binary_as(fs, p, more, m, vars, e, ty) == rt_binary_as(fs, p, fuel, m, vars, e, ty),
    decreases fuel, 0int, e, 10int,
{
    match e {
        ExprView::Binary { left, operator, right } => {
            if operator_result_is_bool(operator) {
                lemma_binary(fs, p, fuel, more, m, vars, e);
            } else if ensure_operator(operator, ty) is Ok {
                lemma_eval_as(fs, p, fuel, more, m, vars, *left, ty);
                let (lr, m1) = rt_eval_as(fs, p, fuel, m, vars, *left, ty);
                lemma_eval_as(fs, p, fuel, more, m1, vars, *right, ty);
            }
        },
        _ => {},
    }
}

proof fn lemma_logic(
    fs: spec_fn(FloatQuery) -> FloatAnswer,
    p: ProgramView,
    fuel: nat,
    more: nat,
    m: Machine,
    vars: Vars,
    e: ExprView,
)
    requires
        fuel <= more,
        rt_logic(fs, p, fuel, m, vars, e).0 is Ok,
    ensures
        rt_logic(fs, p, more, m, vars, e) == rt_logic(fs, p, fuel, m, vars, e),
    decreases fuel, 0int, e, 8int,
{
    match e {
        ExprView::Binary { left, operator, right } => {
            lemma_eval_as(fs, p, fuel, more, m, vars, *left, TypeView::Bool);
            let (lr, m1) = rt_eval_as(fs, p, fuel, m, vars, *left, TypeView::Bool);
            let lv = lr->Ok_0;
            if !((operator is BoolAnd && !as_bool(lv)) || (operator is BoolOr && as_bool(lv))) {
                lemma_eval_as(fs, p, fuel, more, m1, vars, *right, TypeView::Bool);
            }
        },
        _ => {},
    }
}

proof fn lemma_equality(
    fs: spec_fn(FloatQuery) -> FloatAnswer,
    p: ProgramView,
    fuel: nat,
    more: nat,
    m: Machine,
    vars: Vars,
    e: ExprView,
)
    requires
        fuel <= more,
        rt_equality(fs, p, fuel, m, vars, e).0 is Ok,
    ensures
        rt_equality(fs, p, more, m, vars, e) == rt_equality(fs, p, fuel, m, vars, e),
    decreases fuel, 0int, e, 8int,
{
    match e {
        ExprView::Binary { left, operator, right } => {
            let flipped = is_untyped(*left) && !is_untyped(*right);
            let first_e = if flipped { *right } else { *left };
            let second_e = if flipped { *left } else { *right };
            law_eval_budget(fs, p, fuel, more, m, vars, first_e);
            let (fr, m1) = rt_eval(fs, p, fuel, m, vars, first_e);
            lemma_eval_as(fs, p, fuel, more, m1, vars, second_e, value_type(fr->Ok_0));
        },
        _ => {},
    }
}

proof fn lemma_call_expression(
    fs: spec_fn(FloatQuery) -> FloatAnswer,
    p: ProgramView,
    fuel: nat,
    more: nat,
    m: Machine,
    vars: Vars,
    name: Seq<char>,
    arguments: Seq<ExprView>,
)
    requires
        fuel <= more,
        rt_call_expression(fs, p, fuel, m, vars, name, arguments).0 is Ok,
    ensures
        rt_call_expression(fs, p, more, m, vars, name, arguments) == rt_call_expression(
            fs,
            p,
            fuel,
            m,
            vars,
            name,
            arguments,
        ),
    decreases fuel, 0int, arguments, 9int,
{
    if name == "alloc"@ {
        lemma_alloc(fs, p, fuel, more, m, vars, arguments);
    } else if name != "println"@ && name != "dealloc"@ && fuel > 0 {
        law_call_budget(fs, p, (fuel - 1) as nat, (more - 1) as nat, m, vars, name, arguments);
    }
}

proof fn lemma_call_statement(
    fs: spec_fn(FloatQuery) -> FloatAnswer,
    p: ProgramView,
    fuel: nat,
    more: nat,
    m: Machine,
    vars: Vars,
    name: Seq<char>,
    arguments: Seq<ExprView>,
)
    requires
        fuel <= more,
        rt_call_statement(fs, p, fuel, m, vars, name, arguments).0 is Ok,
    ensures
        rt_call_statement(fs, p, more, m, vars, name, arguments) == rt_call_statement(
            fs,
            p,
            fuel,
            m,
            vars,
            name,
            arguments,
        ),
    decreases fuel, 0int, arguments, 9int,
{
    if name == "println"@ {
        lemma_println(fs, p, fuel, more, m, vars, arguments);
    } else if name == "dealloc"@ {
        lemma_dealloc(fs, p, fuel, more, m, vars, arguments);
    } else if name == "alloc"@ {
        lemma_alloc(fs, p, fuel, more, m, vars, arguments);
    } else if fuel > 0 {
        law_call_budget(fs, p, (fuel - 1) as nat, (more - 1) as nat, m, vars, name, arguments);
    }
}

proof fn lemma_println(
    fs: spec_fn(FloatQuery) -> FloatAnswer,
    p: ProgramView,
    fuel: nat,
    more: nat,
    m: Machine,
    vars: Vars,
    arguments: Seq<ExprView>,
)
    requires
        fuel <= more,
        rt_println(fs, p, fuel, m, vars, arguments).0 is Ok,
    ensures
        rt_println(fs, p, more, m, vars, arguments) == rt_println(fs, p, fuel, m, vars, arguments),
    decreases fuel, 0int, arguments, 8int,
{
    if arguments.len() == 1 {
        law_eval_budget(fs, p, fuel, more, m, vars, arguments[0]);
    }
}

proof fn lemma_alloc(
    fs: spec_fn(FloatQuery) -> FloatAnswer,
    p: ProgramView,
    fuel: nat,
    more: nat,
    m: Machine,
    vars: Vars,
    arguments: Seq<ExprView>,
)
    requires
        fuel <= more,
        rt_alloc(fs, p, fuel, m, vars, arguments).0 is Ok,
    ensures
        rt_alloc(fs, p, more, m, vars, arguments) == rt_alloc(fs, p, fuel, m, vars, arguments),
    decreases fuel, 0int, arguments, 8int,
{
    if arguments.len() == 1 {
        law_eval_budget(fs, p, fuel, more, m, vars, arguments[0]);
    }
}

proof fn lemma_alloc_as(
    fs: spec_fn(FloatQuery) -> FloatAnswer,
    p: ProgramView,
    fuel: nat,
    more: nat,
    m: Machine,
    vars: Vars,
    arguments: Seq<ExprView>,
    ty: TypeView,
)
    requires
        fuel <= more,
        rt_alloc_as(fs, p, fuel, m, vars, arguments, ty).0 is Ok,
    ensures
        rt_alloc_as(fs, p, more, m, vars, arguments, ty) == rt_alloc_as(fs, p, fuel, m, vars, arguments, ty),
    decreases fuel, 0int, arguments, 8int,
{
    match ty {
        TypeView::Pointer(target) => {
            if arguments.len() == 1 {
                lemma_eval_as(fs, p, fuel, more, m, vars, arguments[0], *target);
            }
        },
        _ => {},
    }
}

proof fn lemma_dealloc(
    fs: spec_fn(FloatQuery) -> FloatAnswer,
    p: ProgramView,
    fuel: nat,
    more: nat,
    m: Machine,
    vars: Vars,
    arguments: Seq<ExprView>,
)
    requires
        fuel <= more,
        rt_dealloc(fs, p, fuel, m, vars, arguments).0 is Ok,
    ensures
        rt_dealloc(fs, p, more, m, vars, arguments) == rt_dealloc(fs, p, fuel, m, vars, arguments),
    decreases fuel, 0int, arguments, 8int,
{
    if arguments.len() == 1 {
        law_eval_budget(fs, p, fuel, more, m, vars, arguments[0]);
    }
}

proof fn lemma_struct_literal(
    fs: spec_fn(FloatQuery) -> FloatAnswer,
    p: ProgramView,
    fuel: nat,
    more: nat,
    m: Machine,
    vars: Vars,
    name: Seq<char>,
    fields: Seq<FieldInitView>,
)
    requires
        fuel <= more,
        rt_struct_literal(fs, p, fuel, m, vars, name, fields).0 is Ok,
    ensures
        rt_struct_literal(fs, p, more, m, vars, name, fields) == rt_struct_literal(fs, p, fuel, m, vars, name, fields),
    decreases fuel, 0int, fields, 9int,
{
    match find_struct(p, name) {
        None => {},
        Some(definition) => lemma_field_inits(fs, p, fuel, more, m, vars, name, definition, fields, Seq::empty()),
    }
}

proof fn lemma_field_inits(
    fs: spec_fn(FloatQuery) -> FloatAnswer,
    p: ProgramView,
    fuel: nat,
    more: nat,
    m: Machine,
    vars: Vars,
    literal: Seq<char>,
    definition: Seq<BindingView>,
    fields: Seq<FieldInitView>,
    given: Seq<(Seq<char>, crate::runtime::ValueView)>,
)
    requires
        fuel <= more,
        rt_field_inits(fs, p, fuel, m, vars, literal, definition, fields, given).0 is Ok,
    ensures
        rt_field_inits(fs, p, more, m, vars, literal, definition, fields, given) == rt_field_inits(
            fs,
            p,
            fuel,
            m,
            vars,
            literal,
            definition,
            fields,
            given,
        ),
    decreases fuel, 0int, fields, 8int,
{
    if fields.len() > 0 {
        let field = fields[0];
        if crate::runtime::find_field_value_from(given, field.name, 0) is None {
            match crate::runtime::find_binding_from(definition, field.name, 0) {
                None => {},
                Some(ty) => {
                    lemma_eval_as(fs, p, fuel, more, m, vars, field.value, ty);
                    let (r, m1) = rt_eval_as(fs, p, fuel, m, vars, field.value, ty);
                    lemma_field_inits(
                        fs,
                        p,
                        fuel,
                        more,
                        m1,
                        vars,
                        literal,
                        definition,
                        fields.drop_first(),
                        given.push((field.name, r->Ok_0)),
                    );
                },
            }
        }
    }
}

/// With a larger budget, a call of a function of the program that ran
/// without error returns the same and leaves the same machine.
pub proof fn law_call_budget(
    fs: spec_fn(FloatQuery) -> FloatAnswer,
    p: ProgramView,
    fuel: nat,
    more: nat,
    m: Machine,
    caller: Vars,
    name: Seq<char>,
    arguments: Seq<ExprView>,
)
    requires
        fuel <= more,
        rt_call_function(fs, p, fuel, m, caller, name, arguments).0 is Ok,
    ensures
        rt_call_function(fs, p, more, m, caller, name, arguments) == rt_call_function(
            fs,
            p,
            fuel,
            m,
            caller,
            name,
            arguments,
        ),
    decreases fuel, 2int, arguments, 0int,
{
    match crate::runtime::find_function(p, name) {
        None => {},
        Some(f) => {
            if f.parameters.len() == arguments.len() {
                lemma_arguments(fs, p, fuel, more, m, caller, f.parameters, arguments, Seq::empty());
                let (r, m1) = rt_arguments(fs, p, fuel, m, caller, f.parameters, arguments, Seq::empty());
                lemma_statements(fs, p, fuel, more, m1, r->Ok_0, f.body, f.return_type);
            }
        },
    }
}

proof fn lemma_arguments(
    fs: spec_fn(FloatQuery) -> FloatAnswer,
    p: ProgramView,
    fuel: nat,
    more: nat,
    m: Machine,
    caller: Vars,
    parameters: Seq<BindingView>,
    arguments: Seq<ExprView>,
    bound: Vars,
)
    requires
        fuel <= more,
        rt_arguments(fs, p, fuel, m, caller, parameters, arguments, bound).0 is Ok,
    ensures
        rt_arguments(fs, p, more, m, caller, parameters, arguments, bound) == rt_arguments(
            fs,
            p,
            fuel,
            m,
            caller,
            parameters,
            arguments,
            bound,
        ),
    decreases fuel, 0int, arguments, 7int,
{
    if arguments.len() > 0 && parameters.len() > 0 {
        lemma_eval_as(fs, p, fuel, more, m, caller, arguments[0], parameters[0].ty);
        let (r, m1) = rt_eval_as(fs, p, fuel, m, caller, arguments[0], parameters[0].ty);
        lemma_arguments(
            fs,
            p,
            fuel,
            more,
            m1,
            caller,
            parameters.drop_first(),
            arguments.drop_first(),
            bound.push((parameters[0].name, r->Ok_0)),
        );
    }
}

proof fn lemma_statements(
    fs: spec_fn(FloatQuery) -> FloatAnswer,
    p: ProgramView,
    fuel: nat,
    more: nat,
    m: Machine,
    vars: Vars,
    statements: Seq<StmtView>,
    return_type: Option<TypeView>,
)
    requires
        fuel <= more,
        rt_statements(fs, p, fuel, m, vars, statements, return_type).0 is Ok,
    ensures
        rt_statements(fs, p, more, m, vars, statements, return_type) == rt_statements(
            fs,
            p,
            fuel,
            m,
            vars,
            statements,
            return_type,
        ),
    decreases fuel, 1int, statements, 0int,
{
    if statements.len() > 0 {
        lemma_statement(fs, p, fuel, more, m, vars, statements[0], return_type);
        let (r, m1) = rt_statement(fs, p, fuel, m, vars, statements[0], return_type);
        let (signal, next) = r->Ok_0;
        if signal is Normal {
            lemma_statements(fs, p, fuel, more, m1, next, statements.drop_first(), return_type);
        }
    }
}

proof fn lemma_statement(
    fs: spec_fn(FloatQuery) -> FloatAnswer,
    p: ProgramView,
    fuel: nat,
    more: nat,
    m: Machine,
    vars: Vars,
    s: StmtView,
    return_type: Option<TypeView>,
)
    requires
        fuel <= more,
        rt_statement(fs, p, fuel, m, vars, s, return_type).0 is Ok,
    ensures
        rt_statement(fs, p, more, m, vars, s, return_type) == rt_statement(fs, p, fuel, m, vars, s, return_type),
    decreases fuel, 1int, s, 1int,
{
    match s {
        StmtView::Let { value, ty, .. } => lemma_eval_as(fs, p, fuel, more, m, vars, value, ty),
        StmtView::Call { name, arguments } => lemma_call_statement(fs, p, fuel, more, m, vars, name, arguments),
        StmtView::Return(value) => match return_type {
            None => {},
            Some(ty) => lemma_eval_as(fs, p, fuel, more, m, vars, value, ty),
        },
        StmtView::If { condition, then_block, else_block } => {
            lemma_eval_as(fs, p, fuel, more, m, vars, condition, TypeView::Bool);
            let (r, m1) = rt_eval_as(fs, p, fuel, m, vars, condition, TypeView::Bool);
            if as_bool(r->Ok_0) {
                lemma_statements(fs, p, fuel, more, m1, vars, then_block, return_type);
            } else {
                match else_block {
                    None => {},
                    Some(block) => lemma_statements(fs, p, fuel, more, m1, vars, block, return_type),
                }
            }
        },
        StmtView::Loop(body) => lemma_loop(fs, p, fuel, more, m, vars, body, return_type),
        StmtView::While { condition, body } => lemma_while(fs, p, fuel, more, m, vars, condition, body, return_type),
        _ => {},
    }
}

proof fn lemma_loop(
    fs: spec_fn(FloatQuery) -> FloatAnswer,
    p: ProgramView,
    fuel: nat,
    more: nat,
    m: Machine,
    vars: Vars,
    body: Seq<StmtView>,
    return_type: Option<TypeView>,
)
    requires
        fuel <= more,
        rt_loop(fs, p, fuel, m, vars, body, return_type).0 is Ok,
    ensures
        rt_loop(fs, p, more, m, vars, body, return_type) == rt_loop(fs, p, fuel, m, vars, body, return_type),
    decreases fuel, 1int, body, 2int,
{
    if fuel > 0 {
        let f1 = (fuel - 1) as nat;
        let m1_more = (more - 1) as nat;
        lemma_statements(fs, p, f1, m1_more, m, vars, body, return_type);
        let (r, m1) = rt_statements(fs, p, f1, m, vars, body, return_type);
        match r->Ok_0 {
            crate::runtime::Signal::Break => {},
            crate::runtime::Signal::Return(_) => {},
            _ => lemma_loop(fs, p, f1, m1_more, m1, vars, body, return_type),
        }
    }
}

proof fn lemma_while(
    fs: spec_fn(FloatQuery) -> FloatAnswer,
    p: ProgramView,
    fuel: nat,
    more: nat,
    m: Machine,
    vars: Vars,
    condition: ExprView,
    body: Seq<StmtView>,
    return_type: Option<TypeView>,
)
    requires
        fuel <= more,
        rt_while(fs, p, fuel, m, vars, condition, body, return_type).0 is Ok,
    ensures
        rt_while(fs, p, more, m, vars, condition, body, return_type) == rt_while(
            fs,
            p,
            fuel,
            m,
            vars,
            condition,
            body,
            return_type,
        ),
    decreases fuel, 1int, body, 2int,
{
    if fuel > 0 {
        let f1 = (fuel - 1) as nat;
        let m1_more = (more - 1) as nat;
        lemma_eval_as(fs, p, f1, m1_more, m, vars, condition, TypeView::Bool);
        let (c, m1) = rt_eval_as(fs, p, f1, m, vars, condition, TypeView::Bool);
        if as_bool(c->Ok_0) {
            lemma_statements(fs, p, f1, m1_more, m1, vars, body, return_type);
            let (r, m2) = rt_statements(fs, p, f1, m1, vars, body, return_type);
            match r->Ok_0 {
                crate::runtime::Signal::Break => {},
                crate::runtime::Signal::Return(_) => {},
                _ => lemma_while(fs, p, f1, m1_more, m2, vars, condition, body, return_type),
            }
        }
    }
}

/// A run that ends without error under some budget prints the same under
/// any larger budget: the budget only stops runs, it never changes what
/// they print.
pub proof fn law_budget_only_stops_runs(fs: spec_fn(FloatQuery) -> FloatAnswer, p: ProgramView, budget: nat, larger: nat)
    requires
        budget <= larger,
        spec_run_main(fs, p, budget) is Ok,
    ensures
        spec_run_main(fs, p, larger) == spec_run_main(fs, p, budget),
{
    let start = Machine { heap: Seq::empty(), output: Seq::empty() };
    law_call_budget(fs, p, budget, larger, start, Seq::empty(), "main"@, Seq::empty());
}

/// `after` starts with `before`.
pub open spec fn text_extends(after: Seq<char>, before: Seq<char>) -> bool {
    &&& before.len() <= after.len()
    &&& forall|i: int| 0 <= i < before.len() ==> #[trigger] after[i] == before[i]
}

/// Text made of whole lines: empty, or ending with a newline.
pub open spec fn whole_lines(text: Seq<char>) -> bool {
    text.len() == 0 || text.last() == '\n'
}

/// From `before` to `after`, printed text was only added to, in whole lines.
pub open spec fn prints_lines(before: Machine, after: Machine) -> bool {
    &&& text_extends(after.output, before.output)
    &&& whole_lines(before.output) ==> whole_lines(after.output)
}

proof fn lemma_same_output(m: Machine, m2: Machine)
    requires
        m2.output == m.output,
    ensures
        prints_lines(m, m2),
{
}

proof fn lemma_print_line(m: Machine, text: Seq<char>)
    ensures
        prints_lines(m, Machine { heap: m.heap, output: m.output + text + "\n"@ }),
{
    let out = m.output + text + "\n"@;
    assert forall|i: int| 0 <= i < m.output.len() implies #[trigger] out[i] == m.output[i] by {}
    reveal_strlit("\n");
}

/// Evaluating an expression only adds whole lines to what was printed,
/// whether it ends with a value or with an error.
pub proof fn law_eval_prints_lines(
    fs: spec_fn(FloatQuery) -> FloatAnswer,
    p: ProgramView,
    fuel: nat,
    m: Machine,
    vars: Vars,
    e: ExprView,
)
    ensures
        prints_lines(m, rt_eval(fs, p, fuel, m, vars, e).1),
    decreases fuel, 0int, e, 10int,
{
    lemma_same_output(m, m);
    match e {
        ExprView::Call { name, arguments } => lines_call_expression(fs, p, fuel, m, vars, name, arguments),
        ExprView::StructLiteral { name, fields } => lines_struct_literal(fs, p, fuel, m, vars, name, fields),
        ExprView::FieldAccess { object, .. } => law_eval_prints_lines(fs, p, fuel, m, vars, *object),
        ExprView::AddressOf(inner) => law_eval_prints_lines(fs, p, fuel, m, vars, *inner),
        ExprView::Dereference(inner) => law_eval_prints_lines(fs, p, fuel, m, vars, *inner),
        ExprView::BitNot(inner) => law_eval_prints_lines(fs, p, fuel, m, vars, *inner),
        ExprView::Binary { .. } => lines_binary(fs, p, fuel, m, vars, e),
        _ => {},
    }
}

proof fn lines_eval_as(
    fs: spec_fn(FloatQuery) -> FloatAnswer,
    p: ProgramView,
    fuel: nat,
    m: Machine,
    vars: Vars,
    e: ExprView,
    ty: TypeView,
)
    ensures
        prints_lines(m, rt_eval_as(fs, p, fuel, m, vars, e, ty).1),
    decreases fuel, 0int, e, 11int,
{
    lemma_same_output(m, m);
    match e {
        ExprView::Integer(_) => {},
        ExprView::Float(_) => {},
        ExprView::Bool(_) => {},
        ExprView::Call { name, arguments } => {
            lines_alloc_as(fs, p, fuel, m, vars, arguments, ty);
            law_eval_prints_lines(fs, p, fuel, m, vars, e);
        },
        ExprView::BitNot(inner) => lines_eval_as(fs, p, fuel, m, vars, *inner, ty),
        ExprView::Binary { .. } => lines_binary_as(fs, p, fuel, m, vars, e, ty),
        _ => law_eval_prints_lines(fs, p, fuel, m, vars, e),
    }
}

proof fn lines_binary(fs: spec_fn(FloatQuery) -> FloatAnswer, p: ProgramView, fuel: nat, m: Machine, vars: Vars, e: ExprView)
    ensures
        prints_lines(m, rt_binary(fs, p, fuel, m, vars, e).1),
    decreases fuel, 0int, e, 9int,
{
    lemma_same_output(m, m);
    match e {
        ExprView::Binary { left, operator, right } => {
            if operator is BoolAnd || operator is BoolOr {
                lines_logic(fs, p, fuel, m, vars, e);
            } else if operator is Equal || operator is NotEqual {
                lines_equality(fs, p, fuel, m, vars, e);
            } else if is_untyped(*left) && !is_untyped(*right) {
                law_eval_prints_lines(fs, p, fuel, m, vars, *right);
                let (rr, m1) = rt_eval(fs, p, fuel, m, vars, *right);
                if rr is Ok {
                    lines_eval_as(fs, p, fuel, m1, vars, *left, value_type(rr->Ok_0));
                }
            } else {
                law_eval_prints_lines(fs, p, fuel, m, vars, *left);
                let (lr, m1) = rt_eval(fs, p, fuel, m, vars, *left);
                if lr is Ok {
                    lines_eval_as(fs, p, fuel, m1, vars, *right, value_type(lr->Ok_0));
                }
            }
        },
        _ => {},
    }
}

proof fn lines_binary_as(
    fs: spec_fn(FloatQuery) -> FloatAnswer,
    p: ProgramView,
    fuel: nat,
    m: Machine,
    vars: Vars,
    e: ExprView,
    ty: TypeView,
)
    ensures
        prints_lines(m, rt_binary_as(fs, p, fuel, m, vars, e, ty).1),
    decreases fuel, 0int, e, 10int,
{
    lemma_same_output(m, m);
    match e {
        ExprView::Binary { left, operator, right } => {
            if operator_result_is_bool(operator) {
                lines_binary(fs, p, fuel, m, vars, e);
            } else {
                lines_eval_as(fs, p, fuel, m, vars, *left, ty);
                let (lr, m1) = rt_eval_as(fs, p, fuel, m, vars, *left, ty);
                lines_eval_as(fs, p, fuel, m1, vars, *right, ty);
            }
        },
        _ => {},
    }
}

proof fn lines_logic(fs: spec_fn(FloatQuery) -> FloatAnswer, p: ProgramView, fuel: nat, m: Machine, vars: Vars, e: ExprView)
    ensures
        prints_lines(m, rt_logic(fs, p, fuel, m, vars, e).1),
    decreases fuel, 0int, e, 8int,
{
    lemma_same_output(m, m);
    match e {
        ExprView::Binary { left, right, .. } => {
            lines_eval_as(fs, p, fuel, m, vars, *left, TypeView::Bool);
            let (lr, m1) = rt_eval_as(fs, p, fuel, m, vars, *left, TypeView::Bool);
            lines_eval_as(fs, p, fuel, m1, vars, *right, TypeView::Bool);
        },
        _ => {},
    }
}

proof fn lines_equality(fs: spec_fn(FloatQuery) -> FloatAnswer, p: ProgramView, fuel: nat, m: Machine, vars: Vars, e: ExprView)
    ensures
        prints_lines(m, rt_equality(fs, p, fuel, m, vars, e).1),
    decreases fuel, 0int, e, 8int,
{
    lemma_same_output(m, m);
    match e {
        ExprView::Binary { left, right, .. } => {
            let flipped = is_untyped(*left) && !is_untyped(*right);
            let first_e = if flipped { *right } else { *left };
            let second_e = if flipped { *left } else { *right };
            law_eval_prints_lines(fs, p, fuel, m, vars, first_e);
            let (fr, m1) = rt_eval(fs, p, fuel, m, vars, first_e);
            if fr is Ok {
                lines_eval_as(fs, p, fuel, m1, vars, second_e, value_type(fr->Ok_0));
            }
        },
        _ => {},
    }
}

proof fn lines_call_expression(
    fs: spec_fn(FloatQuery) -> FloatAnswer,
    p: ProgramView,
    fuel: nat,
    m: Machine,
    vars: Vars,
    name: Seq<char>,
    arguments: Seq<ExprView>,
)
    ensures
        prints_lines(m, rt_call_expression(fs, p, fuel, m, vars, name, arguments).1),
    decreases fuel, 0int, arguments, 9int,
{
    lemma_same_output(m, m);
    lines_alloc(fs, p, fuel, m, vars, arguments);
    if fuel > 0 {
        law_call_prints_lines(fs, p, (fuel - 1) as nat, m, vars, name, arguments);
    }
}

proof fn lines_call_statement(
    fs: spec_fn(FloatQuery) -> FloatAnswer,
    p: ProgramView,
    fuel: nat,
    m: Machine,
    vars: Vars,
    name: Seq<char>,
    arguments: Seq<ExprView>,
)
    ensures
        prints_lines(m, rt_call_statement(fs, p, fuel, m, vars, name, arguments).1),
    decreases fuel, 0int, arguments, 9int,
{
    lemma_same_output(m, m);
    lines_println(fs, p, fuel, m, vars, arguments);
    lines_dealloc(fs, p, fuel, m, vars, arguments);
    lines_alloc(fs, p, fuel, m, vars, arguments);
    if fuel > 0 {
        law_call_prints_lines(fs, p, (fuel - 1) as nat, m, vars, name, arguments);
    }
}

proof fn lines_println(
    fs: spec_fn(FloatQuery) -> FloatAnswer,
    p: ProgramView,
    fuel: nat,
    m: Machine,
    vars: Vars,
    arguments: Seq<ExprView>,
)
    ensures
        prints_lines(m, rt_println(fs, p, fuel, m, vars, arguments).1),
    decreases fuel, 0int, arguments, 8int,
{
    lemma_same_output(m, m);
    if arguments.len() == 1 {
        law_eval_prints_lines(fs, p, fuel, m, vars, arguments[0]);
        let (r, m1) = rt_eval(fs, p, fuel, m, vars, arguments[0]);
        if r is Ok {
            lemma_print_line(m1, crate::runtime::printable(fs, r->Ok_0));
        }
    }
}

proof fn lines_alloc(
    fs: spec_fn(FloatQuery) -> FloatAnswer,
    p: ProgramView,
    fuel: nat,
    m: Machine,
    vars: Vars,
    arguments: Seq<ExprView>,
)
    ensures
        prints_lines(m, rt_alloc(fs, p, fuel, m, vars, arguments).1),
    decreases fuel, 0int, arguments, 8int,
{
    lemma_same_output(m, m);
    if arguments.len() == 1 {
        law_eval_prints_lines(fs, p, fuel, m, vars, arguments[0]);
    }
}

proof fn lines_alloc_as(
    fs: spec_fn(FloatQuery) -> FloatAnswer,
    p: ProgramView,
    fuel: nat,
    m: Machine,
    vars: Vars,
    arguments: Seq<ExprView>,
    ty: TypeView,
)
    ensures
        prints_lines(m, rt_alloc_as(fs, p, fuel, m, vars, arguments, ty).1),
    decreases fuel, 0int, arguments, 8int,
{
    lemma_same_output(m, m);
    match ty {
        TypeView::Pointer(target) => {
            if arguments.len() == 1 {
                lines_eval_as(fs, p, fuel, m, vars, arguments[0], *target);
            }
        },
        _ => {},
    }
}

proof fn lines_dealloc(
    fs: spec_fn(FloatQuery) -> FloatAnswer,
    p: ProgramView,
    fuel: nat,
    m: Machine,
    vars: Vars,
    arguments: Seq<ExprView>,
)
    ensures
        prints_lines(m, rt_dealloc(fs, p, fuel, m, vars, arguments).1),
    decreases fuel, 0int, arguments, 8int,
{
    lemma_same_output(m, m);
    if arguments.len() == 1 {
        law_eval_prints_lines(fs, p, fuel, m, vars, arguments[0]);
    }
}

proof fn lines_struct_literal(
    fs: spec_fn(FloatQuery) -> FloatAnswer,
    p: ProgramView,
    fuel: nat,
    m: Machine,
    vars: Vars,
    name: Seq<char>,
    fields: Seq<FieldInitView>,
)
    ensures
        prints_lines(m, rt_struct_literal(fs, p, fuel, m, vars, name, fields).1),
    decreases fuel, 0int, fields, 9int,
{
    lemma_same_output(m, m);
    match find_struct(p, name) {
        None => {},
        Some(definition) => lines_field_inits(fs, p, fuel, m, vars, name, definition, fields, Seq::empty()),
    }
}

proof fn lines_field_inits(
    fs: spec_fn(FloatQuery) -> FloatAnswer,
    p: ProgramView,
    fuel: nat,
    m: Machine,
    vars: Vars,
    literal: Seq<char>,
    definition: Seq<BindingView>,
    fields: Seq<FieldInitView>,
    given: Seq<(Seq<char>, crate::runtime::ValueView)>,
)
    ensures
        prints_lines(m, rt_field_inits(fs, p, fuel, m, vars, literal, definition, fields, given).1),
    decreases fuel, 0int, fields, 8int,
{
    lemma_same_output(m, m);
    if fields.len() > 0 {
        let field = fields[0];
        match crate::runtime::find_binding_from(definition, field.name, 0) {
            None => {},
            Some(ty) => {
                lines_eval_as(fs, p, fuel, m, vars, field.value, ty);
                let (r, m1) = rt_eval_as(fs, p, fuel, m, vars, field.value, ty);
                if r is Ok {
                    lines_field_inits(
                        fs,
                        p,
                        fuel,
                        m1,
                        vars,
                        literal,
                        definition,
                        fields.drop_first(),
                        given.push((field.name, r->Ok_0)),
                    );
                }
            },
        }
    }
}

/// A call of a function of the program only adds whole lines to what was
/// printed, whether it returns or stops with an error.
pub proof fn law_call_prints_lines(
    fs: spec_fn(FloatQuery) -> FloatAnswer,
    p: ProgramView,
    fuel: nat,
    m: Machine,
    caller: Vars,
    name: Seq<char>,
    arguments: Seq<ExprView>,
)
    ensures
        prints_lines(m, rt_call_function(fs, p, fuel, m, caller, name, arguments).1),
    decreases fuel, 2int, arguments, 0int,
{
    lemma_same_output(m, m);
    match crate::runtime::find_function(p, name) {
        None => {},
        Some(f) => {
            if f.parameters.len() == arguments.len() {
                lines_arguments(fs, p, fuel, m, caller, f.parameters, arguments, Seq::empty());
                let (r, m1) = rt_arguments(fs, p, fuel, m, caller, f.parameters, arguments, Seq::empty());
                if r is Ok {
                    lines_statements(fs, p, fuel, m1, r->Ok_0, f.body, f.return_type);
                }
            }
        },
    }
}

proof fn lines_arguments(
    fs: spec_fn(FloatQuery) -> FloatAnswer,
    p: ProgramView,
    fuel: nat,
    m: Machine,
    caller: Vars,
    parameters: Seq<BindingView>,
    arguments: Seq<ExprView>,
    bound: Vars,
)
    ensures
        prints_lines(m, rt_arguments(fs, p, fuel, m, caller, parameters, arguments, bound).1),
    decreases fuel, 0int, arguments, 7int,
{
    lemma_same_output(m, m);
    if arguments.len() > 0 && parameters.len() > 0 {
        lines_eval_as(fs, p, fuel, m, caller, arguments[0], parameters[0].ty);
        let (r, m1) = rt_eval_as(fs, p, fuel, m, caller, arguments[0], parameters[0].ty);
        if r is Ok {
            lines_arguments(
                fs,
                p,
                fuel,
                m1,
                caller,
                parameters.drop_first(),
                arguments.drop_first(),
                bound.push((parameters[0].name, r->Ok_0)),
            );
        }
    }
}

proof fn lines_statements(
    fs: spec_fn(FloatQuery) -> FloatAnswer,
    p: ProgramView,
    fuel: nat,
    m: Machine,
    vars: Vars,
    statements: Seq<StmtView>,
    return_type: Option<TypeView>,
)
    ensures
        prints_lines(m, rt_statements(fs, p, fuel, m, vars, statements, return_type).1),
    decreases fuel, 1int, statements, 0int,
{
    lemma_same_output(m, m);
    if statements.len() > 0 {
        law_statement_prints_lines(fs, p, fuel, m, vars, statements[0], return_type);
        let (r, m1) = rt_statement(fs, p, fuel, m, vars, statements[0], return_type);
        if r is Ok {
            let (signal, next) = r->Ok_0;
            lines_statements(fs, p, fuel, m1, next, statements.drop_first(), return_type);
        }
    }
}

/// Running a statement only adds whole lines to what was printed, whether
/// it ends normally, by a jump, or with an error; nothing printed before is
/// changed.
pub proof fn law_statement_prints_lines(
    fs: spec_fn(FloatQuery) -> FloatAnswer,
    p: ProgramView,
    fuel: nat,
    m: Machine,
    vars: Vars,
    s: StmtView,
    return_type: Option<TypeView>,
)
    ensures
        prints_lines(m, rt_statement(fs, p, fuel, m, vars, s, return_type).1),
    decreases fuel, 1int, s, 1int,
{
    lemma_same_output(m, m);
    match s {
        StmtView::Let { value, ty, .. } => lines_eval_as(fs, p, fuel, m, vars, value, ty),
        StmtView::Call { name, arguments } => lines_call_statement(fs, p, fuel, m, vars, name, arguments),
        StmtView::Return(value) => match return_type {
            None => {},
            Some(ty) => lines_eval_as(fs, p, fuel, m, vars, value, ty),
        },
        StmtView::If { condition, then_block, else_block } => {
            lines_eval_as(fs, p, fuel, m, vars, condition, TypeView::Bool);
            let (r, m1) = rt_eval_as(fs, p, fuel, m, vars, condition, TypeView::Bool);
            lines_statements(fs, p, fuel, m1, vars, then_block, return_type);
            match else_block {
                None => {},
                Some(block) => lines_statements(fs, p, fuel, m1, vars, block, return_type),
            }
        },
        StmtView::Loop(body) => lines_loop(fs, p, fuel, m, vars, body, return_type),
        StmtView::While { condition, body } => lines_while(fs, p, fuel, m, vars, condition, body, return_type),
        _ => {},
    }
}

proof fn lines_loop(
    fs: spec_fn(FloatQuery) -> FloatAnswer,
    p: ProgramView,
    fuel: nat,
    m: Machine,
    vars: Vars,
    body: Seq<StmtView>,
    return_type: Option<TypeView>,
)
    ensures
        prints_lines(m, rt_loop(fs, p, fuel, m, vars, body, return_type).1),
    decreases fuel, 1int, body, 2int,
{
    lemma_same_output(m, m);
    if fuel > 0 {
        let f1 = (fuel - 1) as nat;
        lines_statements(fs, p, f1, m, vars, body, return_type);
        let (r, m1) = rt_statements(fs, p, f1, m, vars, body, return_type);
        lines_loop(fs, p, f1, m1, vars, body, return_type);
    }
}

proof fn lines_while(
    fs: spec_fn(FloatQuery) -> FloatAnswer,
    p: ProgramView,
    fuel: nat,
    m: Machine,
    vars: Vars,
    condition: ExprView,
    body: Seq<StmtView>,
    return_type: Option<TypeView>,
)
    ensures
        prints_lines(m, rt_while(fs, p, fuel, m, vars, condition, body, return_type).1),
    decreases fuel, 1int, body, 2int,
{
    lemma_same_output(m, m);
    if fuel > 0 {
        let f1 = (fuel - 1) as nat;
        lines_eval_as(fs, p, f1, m, vars, condition, TypeView::Bool);
        let (c, m1) = rt_eval_as(fs, p, f1, m, vars, condition, TypeView::Bool);
        lines_statements(fs, p, f1, m1, vars, body, return_type);
        let (r, m2) = rt_statements(fs, p, f1, m1, vars, body, return_type);
        lines_while(fs, p, f1, m2, vars, condition, body, return_type);
    }
}

/// What a run prints is whole lines: each `println` adds its text and a
/// newline, and nothing printed is ever taken back.
pub proof fn law_output_is_whole_lines(fs: spec_fn(FloatQuery) -> FloatAnswer, p: ProgramView, budget: nat)
    ensures
        spec_run_main(fs, p, budget) is Ok ==> whole_lines(spec_run_main(fs, p, budget)->Ok_0),
{
    let start = Machine { heap: Seq::empty(), output: Seq::empty() };
    law_call_prints_lines(fs, p, budget, start, Seq::empty(), "main"@, Seq::empty());
}

/// The zero of an integer type.
pub open spec fn zero_of(ty: TypeView) -> IntegerValue {
    if ty.is_signed_integer() {
        IntegerValue::Signed(0)
    } else {
        IntegerValue::Unsigned(0)
    }
}

/// An integer value of the right kind and in range for its type.
pub open spec fn fits(v: IntegerValue, ty: TypeView) -> bool {
    match v {
        IntegerValue::Signed(x) => ty.is_signed_integer() && ty.min_integer_value() <= x && x
            <= ty.max_integer_value().unwrap(),
        IntegerValue::Unsigned(x) => ty.is_unsigned_integer() && x <= ty.max_integer_value().unwrap(),
    }
}

pub open spec fn integer(v: IntegerValue, ty: TypeView) -> ValueView {
    ValueView::Integer { value: v, ty }
}

proof fn lemma_bit_algebra()
    ensures
        forall|t: u128| #[trigger] (t ^ t) == 0u128,
        forall|t: u128| #[trigger] (t ^ 0u128) == t,
        forall|t: u128| #[trigger] (t | 0u128) == t,
        forall|t: u128| #[trigger] (t & t) == t,
        forall|t: u128| #[trigger] (t & 0u128) == 0u128,
        forall|t: u128| #[trigger] (0u128 & t) == 0u128,
{
    assert(forall|t: u128| #[trigger] (t ^ t) == 0u128) by (bit_vector);
    assert(forall|t: u128| #[trigger] (t ^ 0u128) == t) by (bit_vector);
    assert(forall|t: u128| #[trigger] (t | 0u128) == t) by (bit_vector);
    assert(forall|t: u128| #[trigger] (t & t) == t) by (bit_vector);
    assert(forall|t: u128| #[trigger] (t & 0u128) == 0u128) by (bit_vector);
    assert(forall|t: u128| #[trigger] (0u128 & t) == 0u128) by (bit_vector);
}

proof fn lemma_masks(ty: TypeView)
    requires
        ty.is_integer(),
    ensures
        ty.integer_bits() is Some,
        low_mask(ty.integer_bits().unwrap()) == ty.max_integer_value().unwrap() || ty.is_signed_integer(),
        ty.is_signed_integer() ==> (ty.integer_bits().unwrap() == 8 && low_mask(8) == 0xffu128) || (
        ty.integer_bits().unwrap() == 16 && low_mask(16) == 0xffffu128) || (ty.integer_bits().unwrap() == 32
            && low_mask(32) == 0xffff_ffffu128) || (ty.integer_bits().unwrap() == 64 && low_mask(64)
            == 0xffff_ffff_ffff_ffffu128) || (ty.integer_bits().unwrap() == 128 && low_mask(128) == u128::MAX),
{
    assert(((1u128 << 8u32) - 1) as u128 == 0xffu128) by (bit_vector);
    assert(((1u128 << 16u32) - 1) as u128 == 0xffffu128) by (bit_vector);
    assert(((1u128 << 32u32) - 1) as u128 == 0xffff_ffffu128) by (bit_vector);
    assert(((1u128 << 64u32) - 1) as u128 == 0xffff_ffff_ffff_ffffu128) by (bit_vector);
}

proof fn lemma_signed_zero(bits: u32)
    ensures
        from_bits(0u128, bits) == 0i128,
        to_bits(0i128, bits) == 0u128,
{
    lemma_bit_algebra();
    assert(forall|k: u32| #[trigger] (0u128 & (1u128 << k)) == 0u128) by (bit_vector);
    assert((0i128 as u128) == 0u128) by (bit_vector);
    assert((0u128 as i128) == 0i128) by (bit_vector);
    assert(0u128 & low_mask(bits) == 0u128);
    if bits < 128 {
        assert(0u128 & (1u128 << ((bits - 1) as u32)) == 0u128);
    }
}

/// Two's complement bits in a type's width give back the value, for every
/// value in the type's range.
proof fn lemma_round_trip(x: i128, ty: TypeView)
    requires
        ty.is_signed_integer(),
        ty.min_integer_value() <= x <= ty.max_integer_value().unwrap(),
    ensures
        from_bits(to_bits(x, ty.integer_bits().unwrap()), ty.integer_bits().unwrap()) == x,
{
    lemma_masks(ty);
    let bits = ty.integer_bits().unwrap();
    if bits == 8 {
        assert(((((x as u128) & 0xff) & 0xff) & (1u128 << 7u32) == 0 ==> (((x as u128) & 0xff) & 0xff) as i128 == x)
            && ((((x as u128) & 0xff) & 0xff) & (1u128 << 7u32) != 0 ==> (((((x as u128) & 0xff) & 0xff) as i128)
            - (1i128 << 8u32)) as i128 == x)) by (bit_vector)
            requires
                -0x80 <= x < 0x80,
        ;
    } else if bits == 16 {
        assert(((((x as u128) & 0xffff) & 0xffff) & (1u128 << 15u32) == 0 ==> (((x as u128) & 0xffff) & 0xffff)
            as i128 == x) && ((((x as u128) & 0xffff) & 0xffff) & (1u128 << 15u32) != 0 ==> (((((x as u128)
            & 0xffff) & 0xffff) as i128) - (1i128 << 16u32)) as i128 == x)) by (bit_vector)
            requires
                -0x8000 <= x < 0x8000,
        ;
    } else if bits == 32 {
        assert(((((x as u128) & 0xffff_ffff) & 0xffff_ffff) & (1u128 << 31u32) == 0 ==> (((x as u128)
            & 0xffff_ffff) & 0xffff_ffff) as i128 == x) && ((((x as u128) & 0xffff_ffff) & 0xffff_ffff) & (1u128
            << 31u32) != 0 ==> (((((x as u128) & 0xffff_ffff) & 0xffff_ffff) as i128) - (1i128 << 32u32)) as i128
            == x)) by (bit_vector)
            requires
                -0x8000_0000 <= x < 0x8000_0000,
        ;
    } else if bits == 64 {
        assert(((((x as u128) & 0xffff_ffff_ffff_ffff) & 0xffff_ffff_ffff_ffff) & (1u128 << 63u32) == 0
            ==> (((x as u128) & 0xffff_ffff_ffff_ffff) & 0xffff_ffff_ffff_ffff) as i128 == x) && ((((x as u128)
            & 0xffff_ffff_ffff_ffff) & 0xffff_ffff_ffff_ffff) & (1u128 << 63u32) != 0 ==> (((((x as u128)
            & 0xffff_ffff_ffff_ffff) & 0xffff_ffff_ffff_ffff) as i128) - (1i128 << 64u32)) as i128 == x))
            by (bit_vector)
            requires
                -0x8000_0000_0000_0000 <= x < 0x8000_0000_0000_0000,
        ;
    } else {
        assert((((x as u128) & 0xffff_ffff_ffff_ffff_ffff_ffff_ffff_ffff) & 0xffff_ffff_ffff_ffff_ffff_ffff_ffff_ffff)
            as i128 == x) by (bit_vector);
    }
}

/// An integer value combined with itself by `^` gives zero, for signed and
/// unsigned types alike: `^` is exclusive or, bit by bit in the type's width.
pub proof fn law_xor_cancels(fs: spec_fn(FloatQuery) -> FloatAnswer, x: IntegerValue, ty: TypeView)
    requires
        ty.is_integer(),
    ensures
        apply_binary(fs, integer(x, ty), BinaryOperator::BitXor, integer(x, ty)) == Ok::<ValueView, Seq<char>>(
            integer(zero_of(ty), ty),
        ),
{
    lemma_bit_algebra();
    lemma_masks(ty);
    let bits = ty.integer_bits().unwrap();
    lemma_signed_zero(bits);
}

/// The identities of the bitwise operators on every value in range: `x ^ 0`
/// and `x | 0` are `x`, `x & x` is `x`, and `x & 0` is zero, for signed and
/// unsigned types alike.
pub proof fn law_bitwise_identities(fs: spec_fn(FloatQuery) -> FloatAnswer, x: IntegerValue, ty: TypeView)
    requires
        ty.is_integer(),
        fits(x, ty),
    ensures
        apply_binary(fs, integer(x, ty), BinaryOperator::BitXor, integer(zero_of(ty), ty)) == Ok::<
            ValueView,
            Seq<char>,
        >(integer(x, ty)),
        apply_binary(fs, integer(x, ty), BinaryOperator::BitOr, integer(zero_of(ty), ty)) == Ok::<
            ValueView,
            Seq<char>,
        >(integer(x, ty)),
        apply_binary(fs, integer(x, ty), BinaryOperator::BitAnd, integer(x, ty)) == Ok::<ValueView, Seq<char>>(
            integer(x, ty),
        ),
        apply_binary(fs, integer(x, ty), BinaryOperator::BitAnd, integer(zero_of(ty), ty)) == Ok::<
            ValueView,
            Seq<char>,
        >(integer(zero_of(ty), ty)),
{
    lemma_bit_algebra();
    lemma_masks(ty);
    let bits = ty.integer_bits().unwrap();
    lemma_signed_zero(bits);
    match x {
        IntegerValue::Signed(v) => {
            lemma_round_trip(v, ty);
        },
        IntegerValue::Unsigned(v) => {
            assert(v & low_mask(bits) == v) by {
                if bits == 8 {
                    assert(v <= 0xff ==> v & 0xffu128 == v) by (bit_vector);
                } else if bits == 16 {
                    assert(v <= 0xffff ==> v & 0xffffu128 == v) by (bit_vector);
                } else if bits == 32 {
                    assert(v <= 0xffff_ffff ==> v & 0xffff_ffffu128 == v) by (bit_vector);
                } else if bits == 64 {
                    assert(v <= 0xffff_ffff_ffff_ffff ==> v & 0xffff_ffff_ffff_ffffu128 == v) by (bit_vector);
                } else {
                    assert(v & 0xffff_ffff_ffff_ffff_ffff_ffff_ffff_ffffu128 == v) by (bit_vector);
                }
            }
        },
    }
}


/// The unsigned integer type of the same width as a signed one.
pub open spec fn unsigned_of(ty: TypeView) -> TypeView {
    match ty {
        TypeView::I8 => TypeView::U8,
        TypeView::I16 => TypeView::U16,
        TypeView::I32 => TypeView::U32,
        TypeView::I64 => TypeView::U64,
        TypeView::I128 => TypeView::U128,
        _ => TypeView::Usize,
    }
}

/// Reading bits as a signed value and taking its bits again keeps the bits
/// of the width.
proof fn lemma_bits_round_trip(t: u128, ty: TypeView)
    requires
        ty.is_signed_integer(),
    ensures
        to_bits(from_bits(t, ty.integer_bits().unwrap()), ty.integer_bits().unwrap()) == t & low_mask(
            ty.integer_bits().unwrap(),
        ),
{
    lemma_masks(ty);
    let bits = ty.integer_bits().unwrap();
    if bits == 8 {
        assert(((t & 0xff) & (1u128 << 7u32) == 0 ==> (((t & 0xff) as i128) as u128) & 0xff == t & 0xff) && ((t
            & 0xff) & (1u128 << 7u32) != 0 ==> (((((t & 0xff) as i128) - (1i128 << 8u32)) as i128) as u128) & 0xff
            == t & 0xff)) by (bit_vector);
    } else if bits == 16 {
        assert(((t & 0xffff) & (1u128 << 15u32) == 0 ==> (((t & 0xffff) as i128) as u128) & 0xffff == t & 0xffff)
            && ((t & 0xffff) & (1u128 << 15u32) != 0 ==> (((((t & 0xffff) as i128) - (1i128 << 16u32)) as i128)
            as u128) & 0xffff == t & 0xffff)) by (bit_vector);
    } else if bits == 32 {
        assert(((t & 0xffff_ffff) & (1u128 << 31u32) == 0 ==> (((t & 0xffff_ffff) as i128) as u128) & 0xffff_ffff
            == t & 0xffff_ffff) && ((t & 0xffff_ffff) & (1u128 << 31u32) != 0 ==> (((((t & 0xffff_ffff) as i128)
            - (1i128 << 32u32)) as i128) as u128) & 0xffff_ffff == t & 0xffff_ffff)) by (bit_vector);
    } else if bits == 64 {
        assert(((t & 0xffff_ffff_ffff_ffff) & (1u128 << 63u32) == 0 ==> (((t & 0xffff_ffff_ffff_ffff) as i128)
            as u128) & 0xffff_ffff_ffff_ffff == t & 0xffff_ffff_ffff_ffff) && ((t & 0xffff_ffff_ffff_ffff) & (1u128
            << 63u32) != 0 ==> (((((t & 0xffff_ffff_ffff_ffff) as i128) - (1i128 << 64u32)) as i128) as u128)
            & 0xffff_ffff_ffff_ffff == t & 0xffff_ffff_ffff_ffff)) by (bit_vector);
    } else {
        assert((((t & 0xffff_ffff_ffff_ffff_ffff_ffff_ffff_ffff) as i128) as u128)
            & 0xffff_ffff_ffff_ffff_ffff_ffff_ffff_ffff == t & 0xffff_ffff_ffff_ffff_ffff_ffff_ffff_ffff)
            by (bit_vector);
    }
}

/// `&`, `|` and `^` on signed operands act on their two's complement bits:
/// the bits of the signed result are what the same operator gives on the
/// operands' bits taken as values of the unsigned type of the same width.
pub proof fn law_signed_bitwise_is_unsigned_bitwise(
    fs: spec_fn(FloatQuery) -> FloatAnswer,
    op: BinaryOperator,
    x: i128,
    y: i128,
    ty: TypeView,
)
    requires
        ty.is_signed_integer(),
        op is BitAnd || op is BitOr || op is BitXor,
    ensures
        ({
            let bits = ty.integer_bits().unwrap();
            let u = unsigned_of(ty);
            match apply_binary(fs, integer(IntegerValue::Signed(x), ty), op, integer(IntegerValue::Signed(y), ty)) {
                Ok(ValueView::Integer { value: IntegerValue::Signed(r), ty: t }) => t == ty && apply_binary(
                    fs,
                    integer(IntegerValue::Unsigned(to_bits(x, bits)), u),
                    op,
                    integer(IntegerValue::Unsigned(to_bits(y, bits)), u),
                ) == Ok::<ValueView, Seq<char>>(integer(IntegerValue::Unsigned(to_bits(r, bits)), u)),
                _ => false,
            }
        }),
{
    lemma_masks(ty);
    let bits = ty.integer_bits().unwrap();
    let a = to_bits(x, bits);
    let b = to_bits(y, bits);
    let t: u128 = if op is BitAnd {
        a & b
    } else if op is BitOr {
        a | b
    } else {
        a ^ b
    };
    lemma_bits_round_trip(t, ty);
}

} // verus!
