//! Replaying a run with more answers from the host: everything up to the first
//! unanswered request happens again exactly, and the text printed before that
//! request is printed again first.
use vstd::prelude::*;
use crate::ast::{ExprV, FunctionV, ItemV, ProgramV, StmtV};
use crate::run_spec::{
    Halt, ReplyV, RequestV, RunState, Step, Stop, ValueV, ask, ask_flag, ask_text, assign,
    bind_params, builtin_value, call_user, command_value, declare, each_rounds, eval,
    eval_entries, eval_list, exec_block, exec_stmt, for_rounds, function_index, globals,
    input_value, main_step, os_value, pop_scope, print, push_scope, run_macro, run_program,
    start_state, while_rounds,
};

verus! {

/// `a` is a prefix of `b`.
pub open spec fn is_prefix(a: Seq<char>, b: Seq<char>) -> bool {
    a.len() <= b.len() && forall|i: int| 0 <= i < a.len() ==> a[i] == #[trigger] b[i]
}

/// The text printed when a step ends, however it ends.
pub open spec fn out_of<T>(r: Step<T>) -> Seq<char> {
    match r {
        Ok((_, s)) => s.output,
        Err(h) => h.1,
    }
}

/// A step from `st` only adds to the printed text, and keeps the answers.
pub open spec fn keeps<T>(st: RunState, r: Step<T>) -> bool {
    &&& is_prefix(st.output, out_of(r))
    &&& (r matches Ok((_, s)) ==> s.replies == st.replies)
}

/// `s` with the answers `r`.
pub open spec fn with_replies(s: RunState, r: Seq<ReplyV>) -> RunState {
    RunState { replies: r, ..s }
}

/// `xt` is `st` with more answers from the host.
pub open spec fn extends(st: RunState, xt: RunState) -> bool {
    &&& xt == with_replies(st, xt.replies)
    &&& st.replies.len() <= xt.replies.len()
    &&& forall|i: int| 0 <= i < st.replies.len() ==> xt.replies[i] == #[trigger] st.replies[i]
}

/// `b`, the step run with the answers `r`, replays `a`: the same result when `a` did not
/// wait, and at least the text printed before the request when it did.
pub open spec fn replays<T>(a: Step<T>, b: Step<T>, r: Seq<ReplyV>) -> bool {
    match a {
        Ok((v, s)) => b == Ok::<(T, RunState), Halt>((v, with_replies(s, r))),
        Err((Stop::Error(m), o)) => b == a,
        Err((Stop::Wait(_), o)) => is_prefix(o, out_of(b)),
    }
}

proof fn lemma_extends_refl(st: RunState)
    ensures
        extends(st, st),
{
    assert(with_replies(st, st.replies) == st);
}

proof fn lemma_ask(st: RunState, xt: RunState, req: RequestV)
    requires
        extends(st, xt),
    ensures
        keeps(st, ask(st, req)),
        replays(ask(st, req), ask(xt, req), xt.replies),
{
}

proof fn lemma_ask_text(st: RunState, xt: RunState, req: RequestV)
    requires
        extends(st, xt),
    ensures
        keeps(st, ask_text(st, req)),
        replays(ask_text(st, req), ask_text(xt, req), xt.replies),
{
    lemma_ask(st, xt, req);
}

proof fn lemma_ask_flag(st: RunState, xt: RunState, req: RequestV, keep: bool)
    requires
        extends(st, xt),
    ensures
        keeps(st, ask_flag(st, req, keep)),
        replays(ask_flag(st, req, keep), ask_flag(xt, req, keep), xt.replies),
{
    lemma_ask(st, xt, req);
}

proof fn lemma_input(st: RunState, xt: RunState, name: Seq<char>, args: Seq<ValueV>)
    requires
        extends(st, xt),
    ensures
        keeps(st, input_value(st, name, args)),
        replays(input_value(st, name, args), input_value(xt, name, args), xt.replies),
{
    if args.len() == 1 {
        if let ValueV::Str(p) = args[0] {
            assert(print(xt, p) == with_replies(print(st, p), xt.replies));
            lemma_ask(print(st, p), print(xt, p), RequestV::ReadLine);
        }
    }
}

proof fn lemma_command(st: RunState, xt: RunState, name: Seq<char>, args: Seq<ValueV>)
    requires
        extends(st, xt),
    ensures
        keeps(st, command_value(st, name, args)),
        replays(command_value(st, name, args), command_value(xt, name, args), xt.replies),
{
    if args.len() == 2 {
        if let ValueV::Str(program) = args[0] {
            if let ValueV::Array(vs) = args[1] {
                let texts = crate::run_spec::outputs_text(vs);
                lemma_ask(st, xt, RequestV::Run { program, args: texts });
                lemma_ask_text(st, xt, RequestV::Capture { program, args: texts });
            }
        }
    }
}

proof fn lemma_os(st: RunState, xt: RunState, name: Seq<char>, args: Seq<ValueV>)
    requires
        extends(st, xt),
    ensures
        keeps(st, os_value(st, name, args)),
        replays(os_value(st, name, args), os_value(xt, name, args), xt.replies),
{
    if args.len() > 0 {
        match args[0] {
            ValueV::Str(a) => {
                lemma_ask_text(st, xt, RequestV::GetEnv(a));
                lemma_ask_text(st, xt, RequestV::ReadFile(a));
                lemma_ask_flag(st, xt, RequestV::Exists(a), true);
                if args.len() > 1 {
                    if let ValueV::Str(b) = args[1] {
                        lemma_ask_flag(st, xt, RequestV::SetEnv(a, b), false);
                        lemma_ask_flag(st, xt, RequestV::WriteFile(a, b), false);
                    }
                }
            },
            ValueV::Int(ms) => lemma_ask_flag(st, xt, RequestV::Sleep(ms), false),
            _ => {},
        }
    }
    lemma_ask_text(st, xt, RequestV::CurrentDir);
}

proof fn lemma_builtin(st: RunState, xt: RunState, name: Seq<char>, args: Seq<ValueV>)
    requires
        extends(st, xt),
    ensures
        builtin_value(st, name, args) is Some <==> builtin_value(xt, name, args) is Some,
        builtin_value(st, name, args) matches Some(r) ==> keeps(st, r) && replays(
            r,
            builtin_value(xt, name, args)->Some_0,
            xt.replies,
        ),
{
    lemma_input(st, xt, name, args);
    lemma_command(st, xt, name, args);
    lemma_os(st, xt, name, args);
}

proof fn lemma_bind(st: RunState, xt: RunState, f: FunctionV, args: Seq<ValueV>, k: nat)
    requires
        extends(st, xt),
    ensures
        match bind_params(st, f, args, k) {
            Ok(s) => s.output == st.output && s.replies == st.replies && bind_params(xt, f, args, k)
                == Ok::<RunState, Seq<char>>(with_replies(s, xt.replies)),
            Err(m) => bind_params(xt, f, args, k) == Err::<RunState, Seq<char>>(m),
        },
    decreases k,
{
    if !(k == 0 || k > f.params.len() || k > args.len()) {
        lemma_bind(st, xt, f, args, (k - 1) as nat);
    }
}

proof fn lemma_eval(p: ProgramV, n: nat, st: RunState, xt: RunState, e: ExprV)
    requires
        extends(st, xt),
    ensures
        keeps(st, eval(p, n, st, e)),
        replays(eval(p, n, st, e), eval(p, n, xt, e), xt.replies),
    decreases n, 0nat, e, 1nat, 0nat,
{
    match e {
        ExprV::ArrayLiteral(es) => lemma_eval_list(p, n, st, xt, es),
        ExprV::DictLiteral(pairs) => lemma_eval_entries(p, n, st, xt, pairs),
        ExprV::Index { target, index } => {
            lemma_eval(p, n, st, xt, *target);
            if let Ok((_, s1)) = eval(p, n, st, *target) {
                lemma_eval(p, n, s1, with_replies(s1, xt.replies), *index);
            }
            if let Ok((_, s1)) = eval(p, n, xt, *target) {
                lemma_extends_refl(s1);
                lemma_eval(p, n, s1, s1, *index);
            }
        },
        ExprV::Call { name, args } => {
            lemma_eval_list(p, n, st, xt, args);
            if let Ok((vs, s1)) = eval_list(p, n, st, args) {
                lemma_builtin(s1, with_replies(s1, xt.replies), name, vs);
                if n > 0 {
                    lemma_call_user(p, (n - 1) as nat, s1, with_replies(s1, xt.replies), name, vs);
                }
            }
            if let Ok((vs, s1)) = eval_list(p, n, xt, args) {
                lemma_extends_refl(s1);
                lemma_builtin(s1, s1, name, vs);
                if n > 0 {
                    lemma_call_user(p, (n - 1) as nat, s1, s1, name, vs);
                }
            }
        },
        ExprV::Unary { expr, .. } => lemma_eval(p, n, st, xt, *expr),
        ExprV::Binary { left, right, .. } => {
            lemma_eval(p, n, st, xt, *left);
            if let Ok((_, s1)) = eval(p, n, st, *left) {
                lemma_eval(p, n, s1, with_replies(s1, xt.replies), *right);
            }
            if let Ok((_, s1)) = eval(p, n, xt, *left) {
                lemma_extends_refl(s1);
                lemma_eval(p, n, s1, s1, *right);
            }
        },
        _ => {},
    }
}

proof fn lemma_eval_list(p: ProgramV, n: nat, st: RunState, xt: RunState, es: Seq<ExprV>)
    requires
        extends(st, xt),
    ensures
        keeps(st, eval_list(p, n, st, es)),
        replays(eval_list(p, n, st, es), eval_list(p, n, xt, es), xt.replies),
    decreases n, 0nat, es, 0nat, 0nat,
{
    if es.len() > 0 {
        lemma_eval_list(p, n, st, xt, es.drop_last());
        if let Ok((_, s1)) = eval_list(p, n, st, es.drop_last()) {
            lemma_eval(p, n, s1, with_replies(s1, xt.replies), es.last());
        }
        if let Ok((_, s1)) = eval_list(p, n, xt, es.drop_last()) {
            lemma_extends_refl(s1);
            lemma_eval(p, n, s1, s1, es.last());
        }
    }
}

proof fn lemma_eval_entries(p: ProgramV, n: nat, st: RunState, xt: RunState, pairs: Seq<(Seq<char>, ExprV)>)
    requires
        extends(st, xt),
    ensures
        keeps(st, eval_entries(p, n, st, pairs)),
        replays(eval_entries(p, n, st, pairs), eval_entries(p, n, xt, pairs), xt.replies),
    decreases n, 0nat, pairs, 0nat, 0nat,
{
    if pairs.len() > 0 {
        lemma_eval_entries(p, n, st, xt, pairs.drop_last());
        if let Ok((_, s1)) = eval_entries(p, n, st, pairs.drop_last()) {
            lemma_eval(p, n, s1, with_replies(s1, xt.replies), pairs.last().1);
        }
        if let Ok((_, s1)) = eval_entries(p, n, xt, pairs.drop_last()) {
            lemma_extends_refl(s1);
            lemma_eval(p, n, s1, s1, pairs.last().1);
        }
    }
}

proof fn lemma_call_user(p: ProgramV, n: nat, st: RunState, xt: RunState, name: Seq<char>, args: Seq<ValueV>)
    requires
        extends(st, xt),
    ensures
        keeps(st, call_user(p, n, st, name, args)),
        replays(call_user(p, n, st, name, args), call_user(p, n, xt, name, args), xt.replies),
    decreases n, 3nat, p, 0nat, 0nat,
{
    if let Some(i) = function_index(st.functions, name) {
        if 0 <= i < p.items.len() && p.items[i] is Function {
            let f = p.items[i]->Function_0;
            if f.params.len() == args.len() {
                let s0 = push_scope(st);
                let x0 = push_scope(xt);
                assert(x0 == with_replies(s0, xt.replies));
                lemma_bind(s0, x0, f, args, args.len());
                if let Ok(s1) = bind_params(s0, f, args, args.len()) {
                    lemma_block(p, n, s1, with_replies(s1, xt.replies), f.body);
                }
            }
        }
    }
}

proof fn lemma_declare(p: ProgramV, n: nat, st: RunState, xt: RunState, d: crate::ast::VarDeclV)
    requires
        extends(st, xt),
    ensures
        keeps(st, declare(p, n, st, d)),
        replays(declare(p, n, st, d), declare(p, n, xt, d), xt.replies),
    decreases n, 1nat, d, 0nat, 0nat,
{
    lemma_eval(p, n, st, xt, d.value);
}

proof fn lemma_assign(p: ProgramV, n: nat, st: RunState, xt: RunState, a: crate::ast::AssignmentV)
    requires
        extends(st, xt),
    ensures
        keeps(st, assign(p, n, st, a)),
        replays(assign(p, n, st, a), assign(p, n, xt, a), xt.replies),
    decreases n, 1nat, a, 0nat, 0nat,
{
    lemma_eval(p, n, st, xt, a.value);
}

proof fn lemma_macro(p: ProgramV, n: nat, st: RunState, xt: RunState, name: Seq<char>, args: Seq<ExprV>)
    requires
        extends(st, xt),
    ensures
        keeps(st, run_macro(p, n, st, name, args)),
        replays(run_macro(p, n, st, name, args), run_macro(p, n, xt, name, args), xt.replies),
    decreases n, 1nat, args, 0nat, 0nat,
{
    if args.len() > 0 {
        lemma_eval(p, n, st, xt, args[0]);
    }
    if args.len() > 1 {
        lemma_eval(p, n, st, xt, args[1]);
        if args.len() > 2 {
            if let Ok((_, s1)) = eval(p, n, st, args[1]) {
                lemma_eval(p, n, s1, with_replies(s1, xt.replies), args[2]);
            }
            if let Ok((_, s1)) = eval(p, n, xt, args[1]) {
                lemma_extends_refl(s1);
                lemma_eval(p, n, s1, s1, args[2]);
            }
        }
    }
}

proof fn lemma_exec_stmt(p: ProgramV, n: nat, st: RunState, xt: RunState, s: StmtV)
    requires
        extends(st, xt),
    ensures
        keeps(st, exec_stmt(p, n, st, s)),
        replays(exec_stmt(p, n, st, s), exec_stmt(p, n, xt, s), xt.replies),
    decreases n, 2nat, s, 1nat, 0nat,
{
    match s {
        StmtV::VarDecl(d) => lemma_declare(p, n, st, xt, d),
        StmtV::MacroCall { name, args } => lemma_macro(p, n, st, xt, name, args),
        StmtV::FunctionCall { name, args } => {
            lemma_eval_list(p, n, st, xt, args);
            if let Ok((vs, s1)) = eval_list(p, n, st, args) {
                lemma_builtin(s1, with_replies(s1, xt.replies), name, vs);
                if n > 0 {
                    lemma_call_user(p, (n - 1) as nat, s1, with_replies(s1, xt.replies), name, vs);
                }
            }
            if let Ok((vs, s1)) = eval_list(p, n, xt, args) {
                lemma_extends_refl(s1);
                lemma_builtin(s1, s1, name, vs);
                if n > 0 {
                    lemma_call_user(p, (n - 1) as nat, s1, s1, name, vs);
                }
            }
        },
        StmtV::Assignment(a) => lemma_assign(p, n, st, xt, a),
        StmtV::If { condition, then_body, else_body } => {
            lemma_eval(p, n, st, xt, condition);
            if let Ok((_, s1)) = eval(p, n, st, condition) {
                let s0 = push_scope(s1);
                let x0 = push_scope(with_replies(s1, xt.replies));
                assert(x0 == with_replies(s0, xt.replies));
                lemma_block(p, n, s0, x0, then_body);
                if let Some(b) = else_body {
                    lemma_block(p, n, s0, x0, b);
                }
            }
            if let Ok((_, s1)) = eval(p, n, xt, condition) {
                lemma_extends_refl(push_scope(s1));
                lemma_block(p, n, push_scope(s1), push_scope(s1), then_body);
                if let Some(b) = else_body {
                    lemma_block(p, n, push_scope(s1), push_scope(s1), b);
                }
            }
        },
        StmtV::While { .. } => lemma_while(p, n, st, xt, s, n),
        StmtV::For { initializer, .. } => {
            let s0 = push_scope(st);
            let x0 = push_scope(xt);
            assert(x0 == with_replies(s0, xt.replies));
            lemma_declare(p, n, s0, x0, initializer);
            if let Ok((_, s1)) = declare(p, n, s0, initializer) {
                lemma_for(p, n, s1, with_replies(s1, xt.replies), s, n);
            }
            if let Ok((_, s1)) = declare(p, n, x0, initializer) {
                lemma_extends_refl(s1);
                lemma_for(p, n, s1, s1, s, n);
            }
        },
        StmtV::ForEach { iterable, .. } => {
            lemma_eval(p, n, st, xt, iterable);
            if let Ok((v, s1)) = eval(p, n, st, iterable) {
                match v {
                    ValueV::Array(vs) => lemma_each(p, n, s1, with_replies(s1, xt.replies), s, vs, false, 0),
                    ValueV::Dict(es) => lemma_each(
                        p,
                        n,
                        s1,
                        with_replies(s1, xt.replies),
                        s,
                        es.map_values(|e: (Seq<char>, ValueV)| ValueV::Str(e.0)),
                        true,
                        0,
                    ),
                    _ => {},
                }
            }
            if let Ok((v, s1)) = eval(p, n, xt, iterable) {
                lemma_extends_refl(s1);
                match v {
                    ValueV::Array(vs) => lemma_each(p, n, s1, s1, s, vs, false, 0),
                    ValueV::Dict(es) => lemma_each(
                        p,
                        n,
                        s1,
                        s1,
                        s,
                        es.map_values(|e: (Seq<char>, ValueV)| ValueV::Str(e.0)),
                        true,
                        0,
                    ),
                    _ => {},
                }
            }
        },
        StmtV::Return { value } => lemma_eval(p, n, st, xt, value),
        _ => {},
    }
}

proof fn lemma_while(p: ProgramV, n: nat, st: RunState, xt: RunState, s: StmtV, left: nat)
    requires
        extends(st, xt),
    ensures
        keeps(st, while_rounds(p, n, st, s, left)),
        replays(while_rounds(p, n, st, s, left), while_rounds(p, n, xt, s, left), xt.replies),
    decreases n, 2nat, s, 0nat, left,
{
    if let StmtV::While { condition, body } = s {
        if left > 0 {
            lemma_eval(p, n, st, xt, condition);
            if let Ok((c, s1)) = eval(p, n, st, condition) {
                let s0 = push_scope(s1);
                let x0 = push_scope(with_replies(s1, xt.replies));
                assert(x0 == with_replies(s0, xt.replies));
                lemma_block(p, n, s0, x0, body);
                if let Ok((_, s2)) = exec_block(p, n, s0, body) {
                    let s3 = pop_scope(s2);
                    assert(pop_scope(with_replies(s2, xt.replies)) == with_replies(s3, xt.replies));
                    lemma_while(p, n, s3, with_replies(s3, xt.replies), s, (left - 1) as nat);
                }
            }
            if let Ok((c, s1)) = eval(p, n, xt, condition) {
                lemma_extends_refl(push_scope(s1));
                lemma_block(p, n, push_scope(s1), push_scope(s1), body);
                if let Ok((_, s2)) = exec_block(p, n, push_scope(s1), body) {
                    lemma_extends_refl(pop_scope(s2));
                    lemma_while(p, n, pop_scope(s2), pop_scope(s2), s, (left - 1) as nat);
                }
            }
        }
    }
}

proof fn lemma_for(p: ProgramV, n: nat, st: RunState, xt: RunState, s: StmtV, left: nat)
    requires
        extends(st, xt),
    ensures
        keeps(st, for_rounds(p, n, st, s, left)),
        replays(for_rounds(p, n, st, s, left), for_rounds(p, n, xt, s, left), xt.replies),
    decreases n, 2nat, s, 0nat, left,
{
    if let StmtV::For { condition, update, body, .. } = s {
        if left > 0 {
            lemma_eval(p, n, st, xt, condition);
            if let Ok((c, s1)) = eval(p, n, st, condition) {
                lemma_block(p, n, s1, with_replies(s1, xt.replies), body);
                if let Ok((_, s2)) = exec_block(p, n, s1, body) {
                    lemma_assign(p, n, s2, with_replies(s2, xt.replies), update);
                    if let Ok((_, s3)) = assign(p, n, s2, update) {
                        lemma_for(p, n, s3, with_replies(s3, xt.replies), s, (left - 1) as nat);
                    }
                }
            }
            if let Ok((c, s1)) = eval(p, n, xt, condition) {
                lemma_extends_refl(s1);
                lemma_block(p, n, s1, s1, body);
                if let Ok((_, s2)) = exec_block(p, n, s1, body) {
                    lemma_extends_refl(s2);
                    lemma_assign(p, n, s2, s2, update);
                    if let Ok((_, s3)) = assign(p, n, s2, update) {
                        lemma_extends_refl(s3);
                        lemma_for(p, n, s3, s3, s, (left - 1) as nat);
                    }
                }
            }
        }
    }
}

proof fn lemma_each(p: ProgramV, n: nat, st: RunState, xt: RunState, s: StmtV, items: Seq<ValueV>, keys: bool, i: nat)
    requires
        extends(st, xt),
    ensures
        keeps(st, each_rounds(p, n, st, s, items, keys, i)),
        replays(each_rounds(p, n, st, s, items, keys, i), each_rounds(p, n, xt, s, items, keys, i), xt.replies),
    decreases n, 2nat, s, 0nat, items.len() - i,
{
    if let StmtV::ForEach { item_name, body, .. } = s {
        if i < items.len() {
            let v = items[i as int];
            let s0 = crate::run_spec::define(push_scope(st), item_name, v);
            let x0 = crate::run_spec::define(push_scope(xt), item_name, v);
            assert(x0 == with_replies(s0, xt.replies));
            lemma_block(p, n, s0, x0, body);
            if let Ok((_, s1)) = exec_block(p, n, s0, body) {
                let s2 = pop_scope(s1);
                lemma_each(p, n, s2, with_replies(s2, xt.replies), s, items, keys, i + 1);
            }
            if let Ok((_, s1)) = exec_block(p, n, x0, body) {
                let s2 = pop_scope(s1);
                lemma_extends_refl(s2);
                lemma_each(p, n, s2, s2, s, items, keys, i + 1);
            }
        }
    }
}

proof fn lemma_block(p: ProgramV, n: nat, st: RunState, xt: RunState, body: Seq<StmtV>)
    requires
        extends(st, xt),
    ensures
        keeps(st, exec_block(p, n, st, body)),
        replays(exec_block(p, n, st, body), exec_block(p, n, xt, body), xt.replies),
    decreases n, 2nat, body, 0nat, 0nat,
{
    if body.len() > 0 {
        lemma_block(p, n, st, xt, body.drop_last());
        if let Ok((_, s1)) = exec_block(p, n, st, body.drop_last()) {
            lemma_exec_stmt(p, n, s1, with_replies(s1, xt.replies), body.last());
        }
        if let Ok((_, s1)) = exec_block(p, n, xt, body.drop_last()) {
            lemma_extends_refl(s1);
            lemma_exec_stmt(p, n, s1, s1, body.last());
        }
    }
}

proof fn lemma_globals(p: ProgramV, n: nat, st: RunState, xt: RunState, items: Seq<ItemV>)
    requires
        extends(st, xt),
    ensures
        keeps(st, globals(p, n, st, items)),
        replays(globals(p, n, st, items), globals(p, n, xt, items), xt.replies),
    decreases items.len(),
{
    if items.len() > 0 {
        lemma_globals(p, n, st, xt, items.drop_last());
        if let Ok((_, s1)) = globals(p, n, st, items.drop_last()) {
            if let ItemV::VarDecl(d) = items.last() {
                lemma_declare(p, n, s1, with_replies(s1, xt.replies), d);
            }
        }
        if let Ok((_, s1)) = globals(p, n, xt, items.drop_last()) {
            lemma_extends_refl(s1);
            if let ItemV::VarDecl(d) = items.last() {
                lemma_declare(p, n, s1, s1, d);
            }
        }
    }
}

proof fn lemma_main(p: ProgramV, n: nat, st: RunState, xt: RunState)
    requires
        extends(st, xt),
    ensures
        keeps(st, main_step(p, n, st)),
        replays(main_step(p, n, st), main_step(p, n, xt), xt.replies),
{
    lemma_builtin(st, xt, "main"@, Seq::empty());
    if n > 0 {
        lemma_call_user(p, (n - 1) as nat, st, xt, "main"@, Seq::empty());
    }
}

/// The text printed by a run, however it ended.
pub open spec fn run_output(r: Result<RunState, Halt>) -> Seq<char> {
    match r {
        Ok(s) => s.output,
        Err(h) => h.1,
    }
}

/// Giving more answers and running again repeats the run: a run that finished, or that
/// failed, without waiting for an answer ends the same way again; a run that stopped at
/// a request prints again, first, the text it had printed.
pub proof fn law_replay_repeats_the_run(p: ProgramV, n: nat, replies: Seq<ReplyV>, more: Seq<ReplyV>)
    ensures
        match run_program(p, n, replies) {
            Ok(s) => run_program(p, n, replies + more) == Ok::<RunState, Halt>(
                with_replies(s, replies + more),
            ),
            Err((Stop::Error(_), _)) => run_program(p, n, replies + more) == run_program(p, n, replies),
            Err((Stop::Wait(_), o)) => is_prefix(o, run_output(run_program(p, n, replies + more))),
        },
{
    let r2 = replies + more;
    let st = start_state(p, replies);
    let xt = start_state(p, r2);
    assert(xt == with_replies(st, r2));
    lemma_globals(p, n, st, xt, p.items);
    if let Ok((_, s1)) = globals(p, n, st, p.items) {
        lemma_main(p, n, s1, with_replies(s1, r2));
    }
    if let Ok((_, s1)) = globals(p, n, xt, p.items) {
        lemma_extends_refl(s1);
        lemma_main(p, n, s1, s1);
    }
}

} // verus!
