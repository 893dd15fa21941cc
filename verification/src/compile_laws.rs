//! Properties of the generated Rust text.
use vstd::prelude::*;
use crate::ast::{AssignmentV, BinaryOp, ExprV, ItemV, ProgramV, StmtV};
use crate::compile_spec::{
    CompState, MAIN_WRAPPER, assignment_text, bumped, entries_text, expr_text, exprs_text,
    functions_text, has_main, inc, line, loop_body_text, program_text, stmt_text, stmts_text,
    with_loop,
};
use crate::runtime::runtime_text;
use crate::text::has_prefix;

verus! {

/// Inside a classic `for` loop, `continue` runs the loop's update before it continues:
/// its text is the update's assignment followed by `continue;`.
pub proof fn law_continue_runs_update(st: CompState, update: AssignmentV, ind: usize)
    requires
        st.loops.len() > 0,
        st.loops.last() == Some(update),
    ensures
        stmt_text(st, StmtV::Continue, ind) == Ok::<(Seq<char>, CompState), Seq<char>>(
            (
                assignment_text(st, update, ind).0 + line(ind, "continue;"@),
                assignment_text(st, update, ind).1,
            ),
        ),
{
}

/// Outside a classic `for` loop (no loop, or a `while` or for-each loop innermost),
/// `continue` is compiled as `continue;` alone and leaves the compiler's state as it was.
pub proof fn law_continue_without_update(st: CompState, ind: usize)
    requires
        st.loops.len() == 0 || st.loops.last() is None,
    ensures
        stmt_text(st, StmtV::Continue, ind) == Ok::<(Seq<char>, CompState), Seq<char>>(
            (line(ind, "continue;"@), st),
        ),
{
}

/// The body of a classic `for` loop is compiled with that loop's update innermost.
pub proof fn law_for_body_sees_update(st: CompState, update: AssignmentV)
    ensures
        with_loop(st, Some(update)).loops.last() == Some(update),
{
}

/// Only a program with a `main` function compiles.
pub proof fn law_compiled_programs_have_main(st: CompState, p: ProgramV)
    requires
        program_text(st, p) is Ok,
    ensures
        has_main(p.items),
{
}

/// Whether an expression calls a function whose name starts with `gui_`.
pub open spec fn expr_calls_gui(e: ExprV) -> bool
    decreases e, 1nat,
{
    match e {
        ExprV::ArrayLiteral(values) => exprs_call_gui(values),
        ExprV::DictLiteral(pairs) => entries_call_gui(pairs),
        ExprV::Index { target, index } => expr_calls_gui(*target) || expr_calls_gui(*index),
        ExprV::Call { name, args } => has_prefix(name, "gui_"@) || exprs_call_gui(args),
        ExprV::Unary { expr, .. } => expr_calls_gui(*expr),
        ExprV::Binary { left, right, .. } => expr_calls_gui(*left) || expr_calls_gui(*right),
        _ => false,
    }
}

/// Whether one of the expressions calls a `gui_` function.
pub open spec fn exprs_call_gui(es: Seq<ExprV>) -> bool
    decreases es, 0nat,
{
    es.len() > 0 && (exprs_call_gui(es.drop_last()) || expr_calls_gui(es.last()))
}

/// Whether one of the values of the entries calls a `gui_` function.
pub open spec fn entries_call_gui(pairs: Seq<(Seq<char>, ExprV)>) -> bool
    decreases pairs, 0nat,
{
    pairs.len() > 0 && (entries_call_gui(pairs.drop_last()) || expr_calls_gui(pairs.last().1))
}

/// Whether a statement calls a `gui_` function, in itself or in a nested block.
pub open spec fn stmt_calls_gui(s: StmtV) -> bool
    decreases s, 1nat,
{
    match s {
        StmtV::VarDecl(d) => expr_calls_gui(d.value),
        StmtV::MacroCall { args, .. } => exprs_call_gui(args),
        StmtV::FunctionCall { name, args } => has_prefix(name, "gui_"@) || exprs_call_gui(args),
        StmtV::Assignment(a) => expr_calls_gui(a.value),
        StmtV::If { condition, then_body, else_body } => expr_calls_gui(condition)
            || stmts_call_gui(then_body) || match else_body {
                Some(b) => stmts_call_gui(b),
                None => false,
            },
        StmtV::While { condition, body } => expr_calls_gui(condition) || stmts_call_gui(body),
        StmtV::For { initializer, condition, update, body } => expr_calls_gui(initializer.value)
            || expr_calls_gui(condition) || expr_calls_gui(update.value) || stmts_call_gui(body),
        StmtV::ForEach { iterable, body, .. } => expr_calls_gui(iterable) || stmts_call_gui(body),
        StmtV::Break => false,
        StmtV::Continue => false,
        StmtV::Return { value } => expr_calls_gui(value),
    }
}

/// Whether a statement of the block calls a `gui_` function.
pub open spec fn stmts_call_gui(body: Seq<StmtV>) -> bool
    decreases body, 0nat,
{
    body.len() > 0 && (stmts_call_gui(body.drop_last()) || stmt_calls_gui(body.last()))
}

/// Whether a function among the items calls a `gui_` function.
pub open spec fn items_call_gui(items: Seq<ItemV>) -> bool
    decreases items.len(),
{
    items.len() > 0 && (items_call_gui(items.drop_last()) || match items.last() {
        ItemV::Function(f) => stmts_call_gui(f.body),
        ItemV::VarDecl(d) => expr_calls_gui(d.value),
    })
}

/// No enclosing loop's update calls a `gui_` function.
pub open spec fn updates_gui_free(loops: Seq<Option<AssignmentV>>) -> bool {
    forall|i: int| 0 <= i < loops.len() ==> match #[trigger] loops[i] {
        Some(a) => !expr_calls_gui(a.value),
        None => true,
    }
}

proof fn lemma_exprs_gui_each(es: Seq<ExprV>, i: int)
    requires
        !exprs_call_gui(es),
        0 <= i < es.len(),
    ensures
        !expr_calls_gui(es[i]),
    decreases es.len(),
{
    if i < es.len() - 1 {
        lemma_exprs_gui_each(es.drop_last(), i);
    }
}

proof fn lemma_expr_gui(st: CompState, e: ExprV)
    requires
        !expr_calls_gui(e),
    ensures
        expr_text(st, e).1.uses_gui == st.uses_gui,
        expr_text(st, e).1.loops == st.loops,
    decreases e, 1nat,
{
    match e {
        ExprV::ArrayLiteral(values) => lemma_exprs_gui(st, values),
        ExprV::DictLiteral(pairs) => lemma_entries_gui(st, pairs),
        ExprV::Index { target, index } => {
            lemma_expr_gui(st, *target);
            lemma_expr_gui(expr_text(st, *target).1, *index);
        },
        ExprV::Call { name, args } => lemma_exprs_gui(st, args),
        ExprV::Unary { expr, .. } => lemma_expr_gui(st, *expr),
        ExprV::Binary { left, op, right } => {
            let s0 = if op == BinaryOp::And || op == BinaryOp::Or { bumped(st) } else { st };
            lemma_expr_gui(s0, *left);
            lemma_expr_gui(expr_text(s0, *left).1, *right);
        },
        _ => {},
    }
}

proof fn lemma_exprs_gui(st: CompState, es: Seq<ExprV>)
    requires
        !exprs_call_gui(es),
    ensures
        exprs_text(st, es).1.uses_gui == st.uses_gui,
        exprs_text(st, es).1.loops == st.loops,
    decreases es, 0nat,
{
    if es.len() > 0 {
        lemma_exprs_gui(st, es.drop_last());
        lemma_expr_gui(exprs_text(st, es.drop_last()).1, es.last());
    }
}

proof fn lemma_entries_gui(st: CompState, pairs: Seq<(Seq<char>, ExprV)>)
    requires
        !entries_call_gui(pairs),
    ensures
        entries_text(st, pairs).1.uses_gui == st.uses_gui,
        entries_text(st, pairs).1.loops == st.loops,
    decreases pairs, 0nat,
{
    if pairs.len() > 0 {
        lemma_entries_gui(st, pairs.drop_last());
        lemma_expr_gui(entries_text(st, pairs.drop_last()).1, pairs.last().1);
    }
}

proof fn lemma_stmt_gui(st: CompState, s: StmtV, ind: usize)
    requires
        !stmt_calls_gui(s),
        updates_gui_free(st.loops),
    ensures
        stmt_text(st, s, ind) matches Ok((_, s1)) ==> s1.uses_gui == st.uses_gui && s1.loops == st.loops,
    decreases s, 2nat,
{
    match s {
        StmtV::VarDecl(d) => lemma_expr_gui(st, d.value),
        StmtV::MacroCall { name, args } => {
            if args.len() > 0 {
                lemma_exprs_gui_each(args, 0);
                lemma_expr_gui(st, args[0]);
            }
            if args.len() > 1 {
                lemma_exprs_gui_each(args, 1);
                lemma_expr_gui(st, args[1]);
            }
            if args.len() > 2 {
                lemma_exprs_gui_each(args, 2);
                lemma_expr_gui(expr_text(st, args[1]).1, args[2]);
            }
        },
        StmtV::FunctionCall { name, args } => lemma_expr_gui(st, ExprV::Call { name, args }),
        StmtV::Assignment(a) => lemma_expr_gui(bumped(st), a.value),
        StmtV::If { condition, then_body, else_body } => {
            lemma_expr_gui(st, condition);
            let s1 = expr_text(st, condition).1;
            lemma_stmts_gui(s1, then_body, inc(ind));
            if let Ok((_, s2)) = stmts_text(s1, then_body, inc(ind)) {
                if let Some(b) = else_body {
                    lemma_stmts_gui(s2, b, inc(ind));
                }
            }
        },
        StmtV::While { condition, body } => {
            lemma_expr_gui(st, condition);
            lemma_loop_body_gui(expr_text(st, condition).1, body, inc(ind), None);
        },
        StmtV::For { initializer, condition, update, body } => {
            lemma_expr_gui(st, initializer.value);
            let s1 = expr_text(st, initializer.value).1;
            lemma_expr_gui(s1, condition);
            let s2 = expr_text(s1, condition).1;
            lemma_loop_body_gui(s2, body, inc(inc(ind)), Some(update));
            if let Ok((_, s3)) = loop_body_text(s2, body, inc(inc(ind)), Some(update)) {
                lemma_expr_gui(bumped(s3), update.value);
            }
        },
        StmtV::ForEach { iterable, body, .. } => {
            lemma_expr_gui(st, iterable);
            let s3 = bumped(bumped(expr_text(st, iterable).1));
            let i4 = inc(inc(inc(inc(ind))));
            lemma_loop_body_gui(s3, body, i4, None);
            if let Ok((_, s4)) = loop_body_text(s3, body, i4, None) {
                lemma_loop_body_gui(s4, body, i4, None);
            }
        },
        StmtV::Continue => {
            if st.loops.len() > 0 && st.loops.last() is Some {
                assert(st.loops.last() == st.loops[st.loops.len() - 1]);
                lemma_expr_gui(bumped(st), st.loops.last()->0.value);
            }
        },
        StmtV::Return { value } => lemma_expr_gui(st, value),
        StmtV::Break => {},
    }
}

proof fn lemma_stmts_gui(st: CompState, body: Seq<StmtV>, ind: usize)
    requires
        !stmts_call_gui(body),
        updates_gui_free(st.loops),
    ensures
        stmts_text(st, body, ind) matches Ok((_, s1)) ==> s1.uses_gui == st.uses_gui && s1.loops == st.loops,
    decreases body, 0nat,
{
    if body.len() > 0 {
        lemma_stmts_gui(st, body.drop_last(), ind);
        if let Ok((_, s1)) = stmts_text(st, body.drop_last(), ind) {
            lemma_stmt_gui(s1, body.last(), ind);
        }
    }
}

proof fn lemma_loop_body_gui(st: CompState, body: Seq<StmtV>, ind: usize, l: Option<AssignmentV>)
    requires
        !stmts_call_gui(body),
        updates_gui_free(st.loops),
        l matches Some(a) ==> !expr_calls_gui(a.value),
    ensures
        loop_body_text(st, body, ind, l) matches Ok((_, s1)) ==> s1.uses_gui == st.uses_gui && s1.loops == st.loops,
    decreases body, 1nat,
{
    let s0 = with_loop(st, l);
    assert(updates_gui_free(s0.loops)) by {
        assert forall|i: int| 0 <= i < s0.loops.len() implies match #[trigger] s0.loops[i] {
            Some(a) => !expr_calls_gui(a.value),
            None => true,
        } by {
            if i < st.loops.len() {
                assert(s0.loops[i] == st.loops[i]);
            }
        }
    }
    lemma_stmts_gui(s0, body, ind);
    if let Ok((_, s1)) = stmts_text(s0, body, ind) {
        assert(s1.loops.drop_last() =~= st.loops);
    }
}

proof fn lemma_functions_gui(st: CompState, items: Seq<ItemV>)
    requires
        !items_call_gui(items),
        updates_gui_free(st.loops),
    ensures
        functions_text(st, items) matches Ok((_, s1)) ==> s1.uses_gui == st.uses_gui && s1.loops == st.loops,
    decreases items.len(),
{
    if items.len() > 0 {
        lemma_functions_gui(st, items.drop_last());
        if let Ok((_, s1)) = functions_text(st, items.drop_last()) {
            if let ItemV::Function(f) = items.last() {
                let s0 = CompState { return_type: f.return_type, function_name: f.name, ..s1 };
                lemma_stmts_gui(s0, f.body, 1);
            }
        }
    }
}

proof fn lemma_expr_gui_up(st: CompState, e: ExprV)
    ensures
        st.uses_gui || expr_calls_gui(e) ==> expr_text(st, e).1.uses_gui,
    decreases e, 1nat,
{
    match e {
        ExprV::ArrayLiteral(values) => lemma_exprs_gui_up(st, values),
        ExprV::DictLiteral(pairs) => lemma_entries_gui_up(st, pairs),
        ExprV::Index { target, index } => {
            lemma_expr_gui_up(st, *target);
            lemma_expr_gui_up(expr_text(st, *target).1, *index);
        },
        ExprV::Call { name, args } => {
            let s0 = if has_prefix(name, "gui_"@) { CompState { uses_gui: true, ..st } } else { st };
            lemma_exprs_gui_up(s0, args);
        },
        ExprV::Unary { expr, .. } => lemma_expr_gui_up(st, *expr),
        ExprV::Binary { left, op, right } => {
            let s0 = if op == BinaryOp::And || op == BinaryOp::Or { bumped(st) } else { st };
            lemma_expr_gui_up(s0, *left);
            lemma_expr_gui_up(expr_text(s0, *left).1, *right);
        },
        _ => {},
    }
}

proof fn lemma_exprs_gui_up(st: CompState, es: Seq<ExprV>)
    ensures
        st.uses_gui || exprs_call_gui(es) ==> exprs_text(st, es).1.uses_gui,
    decreases es, 0nat,
{
    if es.len() > 0 {
        lemma_exprs_gui_up(st, es.drop_last());
        lemma_expr_gui_up(exprs_text(st, es.drop_last()).1, es.last());
    }
}

proof fn lemma_entries_gui_up(st: CompState, pairs: Seq<(Seq<char>, ExprV)>)
    ensures
        st.uses_gui || entries_call_gui(pairs) ==> entries_text(st, pairs).1.uses_gui,
    decreases pairs, 0nat,
{
    if pairs.len() > 0 {
        lemma_entries_gui_up(st, pairs.drop_last());
        lemma_expr_gui_up(entries_text(st, pairs.drop_last()).1, pairs.last().1);
    }
}

proof fn lemma_exprs_gui_some(es: Seq<ExprV>)
    requires
        exprs_call_gui(es),
    ensures
        exists|i: int| 0 <= i < es.len() && expr_calls_gui(#[trigger] es[i]),
    decreases es.len(),
{
    if expr_calls_gui(es.last()) {
        assert(expr_calls_gui(es[es.len() - 1]));
    } else {
        lemma_exprs_gui_some(es.drop_last());
        let i = choose|i: int| 0 <= i < es.len() - 1 && expr_calls_gui(#[trigger] es.drop_last()[i]);
        assert(es[i] == es.drop_last()[i]);
    }
}

proof fn lemma_stmt_gui_up(st: CompState, s: StmtV, ind: usize)
    ensures
        stmt_text(st, s, ind) matches Ok((_, s1)) ==> (st.uses_gui || stmt_calls_gui(s) ==> s1.uses_gui),
    decreases s, 2nat,
{
    match s {
        StmtV::VarDecl(d) => lemma_expr_gui_up(st, d.value),
        StmtV::MacroCall { name, args } => {
            if exprs_call_gui(args) {
                lemma_exprs_gui_some(args);
            }
            if args.len() > 0 {
                lemma_expr_gui_up(st, args[0]);
            }
            if args.len() > 1 {
                lemma_expr_gui_up(st, args[1]);
            }
            if args.len() > 2 {
                lemma_expr_gui_up(expr_text(st, args[1]).1, args[2]);
            }
            if args.len() == 3 && exprs_call_gui(args) {
                assert(args.drop_last().drop_last().drop_last() =~= Seq::<ExprV>::empty());
                assert(args.drop_last().last() == args[1]);
                assert(args.drop_last().drop_last().last() == args[0]);
                assert(args.last() == args[2]);
            }
            if args.len() == 2 && exprs_call_gui(args) {
                assert(args.drop_last().drop_last() =~= Seq::<ExprV>::empty());
                assert(args.drop_last().last() == args[0]);
                assert(args.last() == args[1]);
            }
            if args.len() == 1 && exprs_call_gui(args) {
                assert(args.drop_last() =~= Seq::<ExprV>::empty());
                assert(args.last() == args[0]);
            }
        },
        StmtV::FunctionCall { name, args } => lemma_expr_gui_up(st, ExprV::Call { name, args }),
        StmtV::Assignment(a) => lemma_expr_gui_up(bumped(st), a.value),
        StmtV::If { condition, then_body, else_body } => {
            lemma_expr_gui_up(st, condition);
            let s1 = expr_text(st, condition).1;
            lemma_stmts_gui_up(s1, then_body, inc(ind));
            if let Ok((_, s2)) = stmts_text(s1, then_body, inc(ind)) {
                if let Some(b) = else_body {
                    lemma_stmts_gui_up(s2, b, inc(ind));
                }
            }
        },
        StmtV::While { condition, body } => {
            lemma_expr_gui_up(st, condition);
            lemma_loop_body_gui_up(expr_text(st, condition).1, body, inc(ind), None);
        },
        StmtV::For { initializer, condition, update, body } => {
            lemma_expr_gui_up(st, initializer.value);
            let s1 = expr_text(st, initializer.value).1;
            lemma_expr_gui_up(s1, condition);
            let s2 = expr_text(s1, condition).1;
            lemma_loop_body_gui_up(s2, body, inc(inc(ind)), Some(update));
            if let Ok((_, s3)) = loop_body_text(s2, body, inc(inc(ind)), Some(update)) {
                lemma_expr_gui_up(bumped(s3), update.value);
            }
        },
        StmtV::ForEach { iterable, body, .. } => {
            lemma_expr_gui_up(st, iterable);
            let s3 = bumped(bumped(expr_text(st, iterable).1));
            let i4 = inc(inc(inc(inc(ind))));
            lemma_loop_body_gui_up(s3, body, i4, None);
            if let Ok((_, s4)) = loop_body_text(s3, body, i4, None) {
                lemma_loop_body_gui_up(s4, body, i4, None);
            }
        },
        StmtV::Continue => {
            if st.loops.len() > 0 && st.loops.last() is Some {
                lemma_expr_gui_up(bumped(st), st.loops.last()->0.value);
            }
        },
        StmtV::Return { value } => lemma_expr_gui_up(st, value),
        StmtV::Break => {},
    }
}

proof fn lemma_stmts_gui_up(st: CompState, body: Seq<StmtV>, ind: usize)
    ensures
        stmts_text(st, body, ind) matches Ok((_, s1)) ==> (st.uses_gui || stmts_call_gui(body) ==> s1.uses_gui),
    decreases body, 0nat,
{
    if body.len() > 0 {
        lemma_stmts_gui_up(st, body.drop_last(), ind);
        if let Ok((_, s1)) = stmts_text(st, body.drop_last(), ind) {
            lemma_stmt_gui_up(s1, body.last(), ind);
        }
    }
}

proof fn lemma_loop_body_gui_up(st: CompState, body: Seq<StmtV>, ind: usize, l: Option<AssignmentV>)
    ensures
        loop_body_text(st, body, ind, l) matches Ok((_, s1)) ==> (st.uses_gui || stmts_call_gui(body) ==> s1.uses_gui),
    decreases body, 1nat,
{
    lemma_stmts_gui_up(with_loop(st, l), body, ind);
}

proof fn lemma_functions_gui_up(st: CompState, items: Seq<ItemV>)
    ensures
        functions_text(st, items) matches Ok((_, s1)) ==> (st.uses_gui || items_call_gui(items) ==> s1.uses_gui),
    decreases items.len(),
{
    if items.len() > 0 {
        lemma_functions_gui_up(st, items.drop_last());
        if let Ok((_, s1)) = functions_text(st, items.drop_last()) {
            if let ItemV::Function(f) = items.last() {
                let s0 = CompState { return_type: f.return_type, function_name: f.name, ..s1 };
                lemma_stmts_gui_up(s0, f.body, 1);
            }
        }
    }
}

/// A compiled program carries the GUI part of the runtime exactly when it calls a `gui_`
/// function: its text starts with the runtime with or without that part accordingly.
pub proof fn law_gui_runtime_exactly_when_called(st: CompState, p: ProgramV)
    requires
        updates_gui_free(st.loops),
    ensures
        program_text(st, p) matches Ok((t, s1)) ==> (s1.uses_gui <==> items_call_gui(p.items))
            && has_prefix(t, runtime_text(items_call_gui(p.items))),
{
    let s0 = CompState { uses_gui: false, ..st };
    lemma_functions_gui_up(s0, p.items);
    if !items_call_gui(p.items) {
        lemma_functions_gui(s0, p.items);
    }
    if let Ok((t, s1)) = program_text(st, p) {
        let fs = functions_text(s0, p.items)->Ok_0.0;
        let rt = runtime_text(s1.uses_gui);
        assert(t == rt + ("\n"@ + fs + MAIN_WRAPPER@));
        assert(t.subrange(0, rt.len() as int) =~= rt);
    }
}

/// A compiled program is the runtime (with its GUI part exactly when the program calls a
/// `gui_` function), a blank line, each function compiled in item order and followed by a
/// blank line, and the `main` wrapper.
pub proof fn law_compiled_program_shape(st: CompState, p: ProgramV)
    requires
        updates_gui_free(st.loops),
    ensures
        program_text(st, p) matches Ok((t, s1)) ==> {
            &&& has_main(p.items)
            &&& functions_text(CompState { uses_gui: false, ..st }, p.items) matches Ok((fs, s2))
            &&& s2 == s1
            &&& t == runtime_text(items_call_gui(p.items)) + "\n"@ + fs + MAIN_WRAPPER@
        },
{
    law_gui_runtime_exactly_when_called(st, p);
}

/// The runtime function that the compiled code of a binary operator calls.
pub open spec fn runtime_operator(op: BinaryOp) -> Seq<char> {
    match op {
        BinaryOp::Add => "binary_add"@,
        BinaryOp::Sub => "binary_sub"@,
        BinaryOp::Mul => "binary_mul"@,
        BinaryOp::Div => "binary_div"@,
        BinaryOp::Less => "binary_less"@,
        BinaryOp::Greater => "binary_greater"@,
        BinaryOp::LessEq => "binary_less_eq"@,
        BinaryOp::GreaterEq => "binary_greater_eq"@,
        _ => Seq::empty(),
    }
}

/// An arithmetic or ordering operator compiles to a call of the runtime function of that
/// operator on its compiled operands, left first (`a >= b` calls `binary_greater_eq`, never
/// the function of another operator); `==` and `!=` compare the operands' values.
pub proof fn law_operators_compile_to_their_runtime_function(st: CompState, left: ExprV, op: BinaryOp, right: ExprV)
    ensures
        ({
            let (l, s1) = expr_text(st, left);
            let (r, s2) = expr_text(s1, right);
            let (t, s3) = expr_text(st, ExprV::Binary { left: Box::new(left), op, right: Box::new(right) });
            &&& op != BinaryOp::And && op != BinaryOp::Or && op != BinaryOp::Eq && op != BinaryOp::NotEq
                ==> t == runtime_operator(op) + "("@ + l + ", "@ + r + ")?"@ && s3 == s2
            &&& op == BinaryOp::Eq ==> t == "RtValue::Bool("@ + l + " == "@ + r + ")"@ && s3 == s2
            &&& op == BinaryOp::NotEq ==> t == "RtValue::Bool("@ + l + " != "@ + r + ")"@ && s3 == s2
        }),
{
    reveal_strlit("binary_add");
    reveal_strlit("binary_sub");
    reveal_strlit("binary_mul");
    reveal_strlit("binary_div");
    reveal_strlit("binary_less");
    reveal_strlit("binary_greater");
    reveal_strlit("binary_less_eq");
    reveal_strlit("binary_greater_eq");
    reveal_strlit("binary_add(");
    reveal_strlit("binary_sub(");
    reveal_strlit("binary_mul(");
    reveal_strlit("binary_div(");
    reveal_strlit("binary_less(");
    reveal_strlit("binary_greater(");
    reveal_strlit("binary_less_eq(");
    reveal_strlit("binary_greater_eq(");
    reveal_strlit("(");
    let (l, s1) = expr_text(st, left);
    let (r, s2) = expr_text(s1, right);
    assert("binary_add"@ + "("@ =~= "binary_add("@);
    assert("binary_sub"@ + "("@ =~= "binary_sub("@);
    assert("binary_mul"@ + "("@ =~= "binary_mul("@);
    assert("binary_div"@ + "("@ =~= "binary_div("@);
    assert("binary_less"@ + "("@ =~= "binary_less("@);
    assert("binary_greater"@ + "("@ =~= "binary_greater("@);
    assert("binary_less_eq"@ + "("@ =~= "binary_less_eq("@);
    assert("binary_greater_eq"@ + "("@ =~= "binary_greater_eq("@);
}

/// `!` and unary `-` compile to the runtime's `unary_not` and `unary_neg` on the compiled
/// operand, and an integer literal to `RtValue::Int` of its decimal digits.
pub proof fn law_unary_and_literal_compile(st: CompState, e: ExprV, v: i64)
    ensures
        expr_text(st, ExprV::Unary { op: crate::ast::UnaryOp::Not, expr: Box::new(e) }).0
            == "unary_not("@ + expr_text(st, e).0 + ")?"@,
        expr_text(st, ExprV::Unary { op: crate::ast::UnaryOp::Neg, expr: Box::new(e) }).0
            == "unary_neg("@ + expr_text(st, e).0 + ")?"@,
        expr_text(st, ExprV::Int(v)).0 == "RtValue::Int("@ + crate::text::int_decimal(v as int) + ")"@,
{
}

} // verus!
