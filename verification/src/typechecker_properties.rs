//! What the checker's tables hold for a program it accepts: every struct
//! and every function, in declaration order, each name once; and every
//! function with a return type returns on every path through its body.
use vstd::prelude::*;
use crate::ast::{BindingView, FunctionView, ProgramView, StmtView, StructDefView};
use crate::typechecker::{
    block_returns, lookup_signature_from, lookup_struct_from, signature_of, spec_check_program, statement_returns,
    tc_collect_functions, tc_collect_structs, tc_function, tc_functions, CheckedProgramView, SignatureView,
};

verus! {

/// The structs of a table, each name once, as declared.
pub open spec fn struct_table_of(table: Seq<(Seq<char>, Seq<BindingView>)>, structs: Seq<StructDefView>) -> bool {
    &&& table.len() == structs.len()
    &&& forall|k: int| 0 <= k < structs.len() ==> #[trigger] table[k] == (structs[k].name, structs[k].fields)
    &&& forall|i: int, j: int| 0 <= i < j < table.len() ==> #[trigger] table[i].0 != #[trigger] table[j].0
}

/// The functions of a table, each name once, with their declared signatures.
pub open spec fn function_table_of(table: Seq<(Seq<char>, SignatureView)>, functions: Seq<FunctionView>) -> bool {
    &&& table.len() == functions.len()
    &&& forall|k: int| 0 <= k < functions.len() ==> #[trigger] table[k] == (functions[k].name, signature_of(functions[k]))
    &&& forall|i: int, j: int| 0 <= i < j < table.len() ==> #[trigger] table[i].0 != #[trigger] table[j].0
}

proof fn lemma_struct_absent(table: Seq<(Seq<char>, Seq<BindingView>)>, name: Seq<char>, i: nat)
    requires
        lookup_struct_from(table, name, i) is None,
    ensures
        forall|k: int| i <= k < table.len() ==> table[k].0 != name,
    decreases table.len() - i,
{
    if i < table.len() {
        lemma_struct_absent(table, name, i + 1);
    }
}

proof fn lemma_signature_absent(table: Seq<(Seq<char>, SignatureView)>, name: Seq<char>, i: nat)
    requires
        lookup_signature_from(table, name, i) is None,
    ensures
        forall|k: int| i <= k < table.len() ==> table[k].0 != name,
    decreases table.len() - i,
{
    if i < table.len() {
        lemma_signature_absent(table, name, i + 1);
    }
}

proof fn lemma_collect_structs(structs: Seq<StructDefView>, i: nat, acc: Seq<(Seq<char>, Seq<BindingView>)>)
    requires
        i <= structs.len(),
        struct_table_of(acc, structs.take(i as int)),
    ensures
        tc_collect_structs(structs, i, acc) is Ok ==> struct_table_of(tc_collect_structs(structs, i, acc)->Ok_0, structs),
    decreases structs.len() - i,
{
    if i >= structs.len() {
        assert(structs.take(i as int) =~= structs);
    } else {
        let s = structs[i as int];
        if tc_collect_structs(structs, i, acc) is Ok {
            lemma_struct_absent(acc, s.name, 0);
            let next = acc.push((s.name, s.fields));
            assert(struct_table_of(next, structs.take(i + 1int))) by {
                assert forall|k: int| 0 <= k < i + 1 implies #[trigger] next[k] == (
                    structs.take(i + 1int)[k].name,
                    structs.take(i + 1int)[k].fields,
                ) by {
                    if k < i {
                        assert(acc[k] == (structs.take(i as int)[k].name, structs.take(i as int)[k].fields));
                    }
                }
                assert forall|a: int, b: int| 0 <= a < b < next.len() implies #[trigger] next[a].0
                    != #[trigger] next[b].0 by {
                    if b < acc.len() {
                        assert(acc[a].0 != acc[b].0);
                    }
                }
            }
            lemma_collect_structs(structs, i + 1, next);
        }
    }
}

proof fn lemma_collect_functions(functions: Seq<FunctionView>, i: nat, acc: Seq<(Seq<char>, SignatureView)>)
    requires
        i <= functions.len(),
        function_table_of(acc, functions.take(i as int)),
    ensures
        tc_collect_functions(functions, i, acc) is Ok ==> function_table_of(
            tc_collect_functions(functions, i, acc)->Ok_0,
            functions,
        ),
    decreases functions.len() - i,
{
    if i >= functions.len() {
        assert(functions.take(i as int) =~= functions);
    } else {
        let f = functions[i as int];
        if tc_collect_functions(functions, i, acc) is Ok {
            lemma_signature_absent(acc, f.name, 0);
            let next = acc.push((f.name, signature_of(f)));
            assert(function_table_of(next, functions.take(i + 1int))) by {
                assert forall|k: int| 0 <= k < i + 1 implies #[trigger] next[k] == (
                    functions.take(i + 1int)[k].name,
                    signature_of(functions.take(i + 1int)[k]),
                ) by {
                    if k < i {
                        assert(acc[k] == (functions.take(i as int)[k].name, signature_of(functions.take(i as int)[k])));
                    }
                }
                assert forall|a: int, b: int| 0 <= a < b < next.len() implies #[trigger] next[a].0
                    != #[trigger] next[b].0 by {
                    if b < acc.len() {
                        assert(acc[a].0 != acc[b].0);
                    }
                }
            }
            lemma_collect_functions(functions, i + 1, next);
        }
    }
}

/// A program the checker accepts declares every struct and every function
/// once: the checker's tables list the declarations in order, each with
/// its fields or its signature, and no name twice.
pub proof fn law_checked_tables_are_the_declarations(p: ProgramView)
    ensures
        spec_check_program(p) is Ok ==> struct_table_of(spec_check_program(p)->Ok_0.structs, p.structs)
            && function_table_of(spec_check_program(p)->Ok_0.functions, p.functions),
{
    assert(struct_table_of(Seq::empty(), p.structs.take(0)));
    assert(function_table_of(Seq::empty(), p.functions.take(0)));
    lemma_collect_structs(p.structs, 0, Seq::empty());
    lemma_collect_functions(p.functions, 0, Seq::empty());
}


/// Whether some path through a statement runs to its end without
/// returning: `return` lets none through; an `if` without `else` lets one
/// through (its condition may be false); an `if` with `else` lets one
/// through when either of its blocks does; a `loop` goes round again after
/// each pass through its body, so a path leaves it only where one leaves its
/// body; every other statement is passed through.
pub open spec fn falls_through(s: StmtView) -> bool
    decreases s, 1int,
{
    match s {
        StmtView::Return(_) => false,
        StmtView::If { then_block, else_block, .. } => match else_block {
            None => true,
            Some(b) => block_falls_through(then_block) || block_falls_through(b),
        },
        StmtView::Loop(body) => block_falls_through(body),
        _ => true,
    }
}

/// Whether some path runs through every statement of a block to its end.
pub open spec fn block_falls_through(statements: Seq<StmtView>) -> bool
    decreases statements, 0int,
{
    if statements.len() == 0 {
        true
    } else {
        falls_through(statements[0]) && block_falls_through(statements.drop_first())
    }
}

/// The checker takes a statement, or a block, to return exactly when no
/// path runs through it without returning. So an `if` with an `else`
/// returns only when both of its blocks do.
pub proof fn law_returns_on_every_path(s: StmtView)
    ensures
        statement_returns(s) == !falls_through(s),
    decreases s, 1int,
{
    match s {
        StmtView::If { then_block, else_block, .. } => {
            law_block_returns_on_every_path(then_block);
            match else_block {
                Some(b) => law_block_returns_on_every_path(b),
                None => {},
            }
        },
        StmtView::Loop(body) => law_block_returns_on_every_path(body),
        _ => {},
    }
}

/// A block returns exactly when no path runs through all of it.
pub proof fn law_block_returns_on_every_path(statements: Seq<StmtView>)
    ensures
        block_returns(statements) == !block_falls_through(statements),
    decreases statements, 0int,
{
    if statements.len() > 0 {
        law_returns_on_every_path(statements[0]);
        law_block_returns_on_every_path(statements.drop_first());
    }
}

proof fn lemma_functions_checked(env: CheckedProgramView, functions: Seq<FunctionView>, i: nat)
    requires
        tc_functions(env, functions, i) is Ok,
    ensures
        forall|k: int| i <= k < functions.len() ==> #[trigger] tc_function(env, functions[k]) is Ok,
    decreases functions.len() - i,
{
    if i < functions.len() {
        lemma_functions_checked(env, functions, i + 1);
    }
}

/// In a program that the checker accepts, every function with a return type
/// returns on every path: no path runs through its body to the end.
pub proof fn law_checked_functions_return(p: ProgramView)
    requires
        spec_check_program(p) is Ok,
    ensures
        forall|k: int|
            0 <= k < p.functions.len() && (#[trigger] p.functions[k]).return_type is Some ==> !block_falls_through(
                p.functions[k].body,
            ),
{
    let env = spec_check_program(p)->Ok_0;
    lemma_functions_checked(env, p.functions, 0);
    assert forall|k: int|
        0 <= k < p.functions.len() && (#[trigger] p.functions[k]).return_type is Some implies !block_falls_through(
            p.functions[k].body,
        ) by {
        assert(tc_function(env, p.functions[k]) is Ok);
        law_block_returns_on_every_path(p.functions[k].body);
    }
}

} // verus!
