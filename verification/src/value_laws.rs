//! Every value a run builds or stores is well formed: each dictionary, at any depth,
//! has unique keys in strictly increasing order.
use vstd::prelude::*;
use crate::ast::{ExprV, FunctionV, ItemV, ProgramV, StmtV};
use crate::run_laws::{keys_sorted, law_dict_insert_keeps_order};
use crate::run_spec::{
    RunState, SignalV, Step, ValueV, assign, bind_params, builtin_value, call_user, declare,
    define, dict_get, dict_insert, each_rounds, eval, eval_entries, eval_list, exec_block,
    exec_stmt, for_rounds, function_index, globals, index_value, pop_scope,
    push_scope, run_macro, run_program, scope_get, scope_set, start_state, var_get, var_set,
    while_rounds,
};
use crate::text::text_lt;

verus! {

/// A value whose dictionaries, at every depth, have unique keys in increasing order.
pub open spec fn value_wf(v: ValueV) -> bool
    decreases v, 1nat,
{
    match v {
        ValueV::Array(vs) => each_value_wf(vs),
        ValueV::Dict(es) => keys_sorted(es) && each_entry_wf(es),
        _ => true,
    }
}

pub open spec fn each_value_wf(vs: Seq<ValueV>) -> bool
    decreases vs, 0nat,
{
    vs.len() == 0 || (each_value_wf(vs.drop_last()) && value_wf(vs.last()))
}

pub open spec fn each_entry_wf(es: Seq<(Seq<char>, ValueV)>) -> bool
    decreases es, 0nat,
{
    es.len() == 0 || (each_entry_wf(es.drop_last()) && value_wf(es.last().1))
}

proof fn lemma_each_value_wf(vs: Seq<ValueV>)
    ensures
        each_value_wf(vs) <==> values_wf(vs),
    decreases vs.len(),
{
    if vs.len() > 0 {
        lemma_each_value_wf(vs.drop_last());
        if values_wf(vs) {
            assert(value_wf(vs[vs.len() - 1]));
            assert forall|i: int| 0 <= i < vs.drop_last().len() implies #[trigger] value_wf(vs.drop_last()[i]) by {
                assert(vs.drop_last()[i] == vs[i]);
            }
        }
        if each_value_wf(vs) {
            assert forall|i: int| 0 <= i < vs.len() implies #[trigger] value_wf(vs[i]) by {
                if i < vs.len() - 1 {
                    assert(vs.drop_last()[i] == vs[i]);
                }
            }
        }
    }
}

proof fn lemma_each_entry_wf(es: Seq<(Seq<char>, ValueV)>)
    ensures
        each_entry_wf(es) <==> entries_wf(es),
    decreases es.len(),
{
    if es.len() > 0 {
        lemma_each_entry_wf(es.drop_last());
        if entries_wf(es) {
            assert(value_wf(es[es.len() - 1].1));
            assert forall|i: int| 0 <= i < es.drop_last().len() implies #[trigger] value_wf(es.drop_last()[i].1) by {
                assert(es.drop_last()[i] == es[i]);
            }
        }
        if each_entry_wf(es) {
            assert forall|i: int| 0 <= i < es.len() implies #[trigger] value_wf(es[i].1) by {
                if i < es.len() - 1 {
                    assert(es.drop_last()[i] == es[i]);
                }
            }
        }
    }
}

/// A dictionary value is well formed exactly when its keys are sorted and its values are.
pub proof fn lemma_dict_wf(es: Seq<(Seq<char>, ValueV)>)
    ensures
        value_wf(ValueV::Dict(es)) <==> keys_sorted(es) && entries_wf(es),
{
    lemma_each_entry_wf(es);
}

/// An array value is well formed exactly when its elements are.
pub proof fn lemma_array_wf(vs: Seq<ValueV>)
    ensures
        value_wf(ValueV::Array(vs)) <==> values_wf(vs),
{
    lemma_each_value_wf(vs);
}

/// Each value of the sequence is well formed.
pub open spec fn values_wf(vs: Seq<ValueV>) -> bool {
    forall|i: int| 0 <= i < vs.len() ==> #[trigger] value_wf(vs[i])
}

/// Each value bound in the entries is well formed.
pub open spec fn entries_wf(es: Seq<(Seq<char>, ValueV)>) -> bool {
    forall|i: int| 0 <= i < es.len() ==> #[trigger] value_wf(es[i].1)
}

/// Every variable of every scope holds a well-formed value.
pub open spec fn state_wf(st: RunState) -> bool {
    forall|i: int| 0 <= i < st.scopes.len() ==> #[trigger] entries_wf(st.scopes[i])
}

/// A step that ends with a well-formed value in a well-formed state.
pub open spec fn value_step_wf(r: Step<ValueV>) -> bool {
    r matches Ok((v, s)) ==> value_wf(v) && state_wf(s)
}

/// A step that ends in a well-formed state.
pub open spec fn unit_step_wf(r: Step<()>) -> bool {
    r matches Ok((_, s)) ==> state_wf(s)
}

/// A statement's step that ends in a well-formed state, returning a well-formed value.
pub open spec fn signal_step_wf(r: Step<SignalV>) -> bool {
    r matches Ok((sig, s)) ==> state_wf(s) && (sig matches SignalV::Return(v) ==> value_wf(v))
}

proof fn lemma_insert_entries_wf(es: Seq<(Seq<char>, ValueV)>, k: Seq<char>, v: ValueV)
    requires
        entries_wf(es),
        value_wf(v),
    ensures
        entries_wf(dict_insert(es, k, v)),
    decreases es.len(),
{
    let r = dict_insert(es, k, v);
    if es.len() == 0 {
        assert(r[0] == (k, v));
    } else if es[0].0 == k {
        assert forall|i: int| 0 <= i < r.len() implies #[trigger] value_wf(r[i].1) by {
            if i > 0 {
                assert(r[i] == es[i]);
            }
        }
    } else if text_lt(k, es[0].0) {
        assert forall|i: int| 0 <= i < r.len() implies #[trigger] value_wf(r[i].1) by {
            if i > 0 {
                assert(r[i] == es[i - 1]);
            }
        }
    } else {
        let rest = es.subrange(1, es.len() as int);
        assert forall|i: int| 0 <= i < rest.len() implies #[trigger] value_wf(rest[i].1) by {
            assert(rest[i] == es[i + 1]);
        }
        lemma_insert_entries_wf(rest, k, v);
        let t = dict_insert(rest, k, v);
        assert forall|i: int| 0 <= i < r.len() implies #[trigger] value_wf(r[i].1) by {
            if i > 0 {
                assert(r[i] == t[i - 1]);
            } else {
                assert(r[0] == es[0]);
            }
        }
    }
}

/// Setting a key of a well-formed dictionary to a well-formed value keeps it well formed.
pub proof fn law_dict_insert_keeps_value_wf(es: Seq<(Seq<char>, ValueV)>, k: Seq<char>, v: ValueV)
    requires
        value_wf(ValueV::Dict(es)),
        value_wf(v),
    ensures
        value_wf(ValueV::Dict(dict_insert(es, k, v))),
{
    lemma_dict_wf(es);
    law_dict_insert_keeps_order(es, k, v);
    lemma_insert_entries_wf(es, k, v);
    lemma_dict_wf(dict_insert(es, k, v));
}

proof fn lemma_dict_get_wf(es: Seq<(Seq<char>, ValueV)>, k: Seq<char>)
    requires
        entries_wf(es),
    ensures
        dict_get(es, k) matches Some(v) ==> value_wf(v),
    decreases es.len(),
{
    if es.len() > 0 {
        assert(value_wf(es[es.len() - 1].1));
        let d = es.drop_last();
        assert forall|i: int| 0 <= i < d.len() implies #[trigger] value_wf(d[i].1) by {
            assert(d[i] == es[i]);
        }
        lemma_dict_get_wf(d, k);
    }
}

proof fn lemma_index_wf(t: ValueV, i: ValueV)
    requires
        value_wf(t),
    ensures
        index_value(t, i) matches Ok(v) ==> value_wf(v),
{
    if let ValueV::Dict(es) = t {
        lemma_dict_wf(es);
        if let ValueV::Str(k) = i {
            lemma_dict_get_wf(es, k);
        }
    }
    if let ValueV::Array(vs) = t {
        lemma_array_wf(vs);
        if let ValueV::Int(j) = i {
            if 0 <= j < vs.len() {
                assert(value_wf(vs[j as int]));
            }
        }
    }
}

proof fn lemma_scope_get_wf(s: Seq<(Seq<char>, ValueV)>, n: Seq<char>)
    requires
        entries_wf(s),
    ensures
        scope_get(s, n) matches Some(v) ==> value_wf(v),
    decreases s.len(),
{
    if s.len() > 0 {
        assert(value_wf(s[s.len() - 1].1));
        let d = s.drop_last();
        assert forall|i: int| 0 <= i < d.len() implies #[trigger] value_wf(d[i].1) by {
            assert(d[i] == s[i]);
        }
        lemma_scope_get_wf(d, n);
    }
}

proof fn lemma_var_get_wf(st: RunState, n: Seq<char>)
    requires
        state_wf(st),
    ensures
        var_get(st.scopes, n) matches Some(v) ==> value_wf(v),
{
    lemma_var_get_wf_scopes(st.scopes, n);
}

proof fn lemma_var_get_wf_scopes(ss: Seq<Seq<(Seq<char>, ValueV)>>, n: Seq<char>)
    requires
        forall|i: int| 0 <= i < ss.len() ==> #[trigger] entries_wf(ss[i]),
    ensures
        var_get(ss, n) matches Some(v) ==> value_wf(v),
    decreases ss.len(),
{
    if ss.len() > 0 {
        assert(entries_wf(ss[ss.len() - 1]));
        lemma_scope_get_wf(ss.last(), n);
        let d = ss.drop_last();
        assert forall|i: int| 0 <= i < d.len() implies #[trigger] entries_wf(d[i]) by {
            assert(d[i] == ss[i]);
        }
        lemma_var_get_wf_scopes(d, n);
    }
}

proof fn lemma_scope_set_wf(s: Seq<(Seq<char>, ValueV)>, n: Seq<char>, v: ValueV)
    requires
        entries_wf(s),
        value_wf(v),
    ensures
        entries_wf(scope_set(s, n, v)),
    decreases s.len(),
{
    if s.len() > 0 {
        let d = s.drop_last();
        assert forall|i: int| 0 <= i < d.len() implies #[trigger] value_wf(d[i].1) by {
            assert(d[i] == s[i]);
        }
        assert(value_wf(s[s.len() - 1].1));
        if s.last().0 != n {
            lemma_scope_set_wf(d, n, v);
        }
        let r = scope_set(s, n, v);
        assert forall|i: int| 0 <= i < r.len() implies #[trigger] value_wf(r[i].1) by {
            if s.last().0 == n {
                if i < d.len() {
                    assert(r[i] == d[i]);
                }
            } else {
                let t = scope_set(d, n, v);
                if i < t.len() {
                    assert(r[i] == t[i]);
                }
            }
        }
    }
}

proof fn lemma_var_set_wf(ss: Seq<Seq<(Seq<char>, ValueV)>>, n: Seq<char>, v: ValueV)
    requires
        forall|i: int| 0 <= i < ss.len() ==> #[trigger] entries_wf(ss[i]),
        value_wf(v),
    ensures
        forall|i: int| 0 <= i < var_set(ss, n, v).len() ==> #[trigger] entries_wf(var_set(ss, n, v)[i]),
    decreases ss.len(),
{
    if ss.len() > 0 {
        let d = ss.drop_last();
        assert forall|i: int| 0 <= i < d.len() implies #[trigger] entries_wf(d[i]) by {
            assert(d[i] == ss[i]);
        }
        assert(entries_wf(ss[ss.len() - 1]));
        let r = var_set(ss, n, v);
        if scope_get(ss.last(), n) is Some {
            lemma_scope_set_wf(ss.last(), n, v);
            assert forall|i: int| 0 <= i < r.len() implies #[trigger] entries_wf(r[i]) by {
                if i < d.len() {
                    assert(r[i] == d[i]);
                }
            }
        } else {
            lemma_var_set_wf(d, n, v);
            let t = var_set(d, n, v);
            assert forall|i: int| 0 <= i < r.len() implies #[trigger] entries_wf(r[i]) by {
                if i < t.len() {
                    assert(r[i] == t[i]);
                }
            }
        }
    }
}

proof fn lemma_define_wf(st: RunState, n: Seq<char>, v: ValueV)
    requires
        state_wf(st),
        value_wf(v),
    ensures
        state_wf(define(st, n, v)),
{
    if st.scopes.len() > 0 {
        let k = st.scopes.len() - 1;
        let last = st.scopes.last().push((n, v));
        assert(entries_wf(st.scopes[k]));
        assert forall|j: int| 0 <= j < last.len() implies #[trigger] value_wf(last[j].1) by {
            if j < st.scopes.last().len() {
                assert(last[j] == st.scopes[k][j]);
            }
        }
        let s2 = define(st, n, v);
        assert forall|i: int| 0 <= i < s2.scopes.len() implies #[trigger] entries_wf(s2.scopes[i]) by {
            if i != k {
                assert(s2.scopes[i] == st.scopes[i]);
            }
        }
    }
}

proof fn lemma_set_var_wf(st: RunState, n: Seq<char>, v: ValueV)
    requires
        state_wf(st),
        value_wf(v),
    ensures
        state_wf(crate::run_spec::set_var(st, n, v)),
{
    lemma_var_set_wf(st.scopes, n, v);
}

proof fn lemma_push_pop_wf(st: RunState)
    requires
        state_wf(st),
    ensures
        state_wf(push_scope(st)),
        state_wf(pop_scope(st)),
{
    let a = push_scope(st);
    assert forall|i: int| 0 <= i < a.scopes.len() implies #[trigger] entries_wf(a.scopes[i]) by {
        if i < st.scopes.len() {
            assert(a.scopes[i] == st.scopes[i]);
        }
    }
    let b = pop_scope(st);
    assert forall|i: int| 0 <= i < b.scopes.len() implies #[trigger] entries_wf(b.scopes[i]) by {
        assert(b.scopes[i] == st.scopes[i]);
    }
}

proof fn lemma_builtin_wf(st: RunState, name: Seq<char>, args: Seq<ValueV>)
    requires
        state_wf(st),
    ensures
        builtin_value(st, name, args) matches Some(r) ==> value_step_wf(r),
{
}

proof fn lemma_bind_wf(st: RunState, f: FunctionV, args: Seq<ValueV>, k: nat)
    requires
        state_wf(st),
        values_wf(args),
    ensures
        bind_params(st, f, args, k) matches Ok(s) ==> state_wf(s),
    decreases k,
{
    if !(k == 0 || k > f.params.len() || k > args.len()) {
        lemma_bind_wf(st, f, args, (k - 1) as nat);
        if let Ok(s1) = bind_params(st, f, args, (k - 1) as nat) {
            assert(value_wf(args[k - 1]));
            lemma_define_wf(s1, f.params[k - 1].name, args[k - 1]);
        }
    }
}

/// Evaluating an expression in a well-formed state gives a well-formed value and leaves a
/// well-formed state: no dictionary ever holds a key twice or out of order.
pub proof fn law_eval_keeps_values_wf(p: ProgramV, n: nat, st: RunState, e: ExprV)
    requires
        state_wf(st),
    ensures
        value_step_wf(eval(p, n, st, e)),
    decreases n, 0nat, e, 1nat, 0nat,
{
    match e {
        ExprV::Ident(name) => lemma_var_get_wf(st, name),
        ExprV::ArrayLiteral(es) => {
            lemma_eval_list_wf(p, n, st, es);
            if let Ok((vs, _)) = eval_list(p, n, st, es) {
                lemma_array_wf(vs);
            }
        },
        ExprV::DictLiteral(pairs) => {
            lemma_eval_entries_wf(p, n, st, pairs);
            if let Ok((es, _)) = eval_entries(p, n, st, pairs) {
                lemma_dict_wf(es);
            }
        },
        ExprV::Index { target, index } => {
            law_eval_keeps_values_wf(p, n, st, *target);
            if let Ok((t, s1)) = eval(p, n, st, *target) {
                law_eval_keeps_values_wf(p, n, s1, *index);
                if let Ok((i, _)) = eval(p, n, s1, *index) {
                    lemma_index_wf(t, i);
                }
            }
        },
        ExprV::Call { name, args } => {
            lemma_eval_list_wf(p, n, st, args);
            if let Ok((vs, s1)) = eval_list(p, n, st, args) {
                lemma_builtin_wf(s1, name, vs);
                if n > 0 {
                    lemma_call_user_wf(p, (n - 1) as nat, s1, name, vs);
                }
            }
        },
        ExprV::Unary { expr, .. } => law_eval_keeps_values_wf(p, n, st, *expr),
        ExprV::Binary { left, right, .. } => {
            law_eval_keeps_values_wf(p, n, st, *left);
            if let Ok((_, s1)) = eval(p, n, st, *left) {
                law_eval_keeps_values_wf(p, n, s1, *right);
            }
        },
        _ => {},
    }
}

proof fn lemma_eval_list_wf(p: ProgramV, n: nat, st: RunState, es: Seq<ExprV>)
    requires
        state_wf(st),
    ensures
        eval_list(p, n, st, es) matches Ok((vs, s)) ==> values_wf(vs) && state_wf(s),
    decreases n, 0nat, es, 0nat, 0nat,
{
    if es.len() > 0 {
        lemma_eval_list_wf(p, n, st, es.drop_last());
        if let Ok((vs, s1)) = eval_list(p, n, st, es.drop_last()) {
            law_eval_keeps_values_wf(p, n, s1, es.last());
            if let Ok((v, _)) = eval(p, n, s1, es.last()) {
                let w = vs.push(v);
                assert forall|i: int| 0 <= i < w.len() implies #[trigger] value_wf(w[i]) by {
                    if i < vs.len() {
                        assert(w[i] == vs[i]);
                    }
                }
            }
        }
    }
}

proof fn lemma_eval_entries_wf(p: ProgramV, n: nat, st: RunState, pairs: Seq<(Seq<char>, ExprV)>)
    requires
        state_wf(st),
    ensures
        eval_entries(p, n, st, pairs) matches Ok((es, s)) ==> keys_sorted(es) && entries_wf(es)
            && state_wf(s),
    decreases n, 0nat, pairs, 0nat, 0nat,
{
    if pairs.len() > 0 {
        lemma_eval_entries_wf(p, n, st, pairs.drop_last());
        if let Ok((es, s1)) = eval_entries(p, n, st, pairs.drop_last()) {
            law_eval_keeps_values_wf(p, n, s1, pairs.last().1);
            if let Ok((v, _)) = eval(p, n, s1, pairs.last().1) {
                law_dict_insert_keeps_order(es, pairs.last().0, v);
                lemma_insert_entries_wf(es, pairs.last().0, v);
            }
        }
    }
}

proof fn lemma_call_user_wf(p: ProgramV, n: nat, st: RunState, name: Seq<char>, args: Seq<ValueV>)
    requires
        state_wf(st),
        values_wf(args),
    ensures
        value_step_wf(call_user(p, n, st, name, args)),
    decreases n, 3nat, p, 0nat, 0nat,
{
    if let Some(i) = function_index(st.functions, name) {
        if 0 <= i < p.items.len() && p.items[i] is Function {
            let f = p.items[i]->Function_0;
            if f.params.len() == args.len() {
                lemma_push_pop_wf(st);
                lemma_bind_wf(push_scope(st), f, args, args.len());
                if let Ok(s1) = bind_params(push_scope(st), f, args, args.len()) {
                    law_block_keeps_values_wf(p, n, s1, f.body);
                    if let Ok((_, s2)) = exec_block(p, n, s1, f.body) {
                        lemma_push_pop_wf(s2);
                    }
                }
            }
        }
    }
}

proof fn lemma_declare_wf(p: ProgramV, n: nat, st: RunState, d: crate::ast::VarDeclV)
    requires
        state_wf(st),
    ensures
        unit_step_wf(declare(p, n, st, d)),
    decreases n, 1nat, d, 0nat, 0nat,
{
    law_eval_keeps_values_wf(p, n, st, d.value);
    if let Ok((v, s1)) = eval(p, n, st, d.value) {
        lemma_define_wf(s1, d.name, v);
    }
}

proof fn lemma_assign_wf(p: ProgramV, n: nat, st: RunState, a: crate::ast::AssignmentV)
    requires
        state_wf(st),
    ensures
        unit_step_wf(assign(p, n, st, a)),
    decreases n, 1nat, a, 0nat, 0nat,
{
    law_eval_keeps_values_wf(p, n, st, a.value);
    if let Ok((v, s1)) = eval(p, n, st, a.value) {
        lemma_set_var_wf(s1, a.name, v);
    }
}

proof fn lemma_macro_wf(p: ProgramV, n: nat, st: RunState, name: Seq<char>, args: Seq<ExprV>)
    requires
        state_wf(st),
    ensures
        unit_step_wf(run_macro(p, n, st, name, args)),
    decreases n, 1nat, args, 0nat, 0nat,
{
    if args.len() > 0 {
        law_eval_keeps_values_wf(p, n, st, args[0]);
    }
    if args.len() > 1 {
        law_eval_keeps_values_wf(p, n, st, args[1]);
        if let Ok((v, s1)) = eval(p, n, st, args[1]) {
            if let ExprV::Ident(t) = args[0] {
                lemma_var_get_wf(s1, t);
                if let Some(ValueV::Array(vs)) = var_get(s1.scopes, t) {
                    lemma_array_wf(vs);
                    let w = vs.push(v);
                    assert forall|i: int| 0 <= i < w.len() implies #[trigger] value_wf(w[i]) by {
                        if i < vs.len() {
                            assert(w[i] == vs[i]);
                        }
                    }
                    lemma_array_wf(w);
                    lemma_set_var_wf(s1, t, ValueV::Array(w));
                }
            }
            if args.len() > 2 {
                law_eval_keeps_values_wf(p, n, s1, args[2]);
                if let Ok((v2, s2)) = eval(p, n, s1, args[2]) {
                    if let ExprV::Ident(t) = args[0] {
                        lemma_var_get_wf(s2, t);
                        if let ValueV::Str(key) = v {
                            if let Some(ValueV::Dict(es)) = var_get(s2.scopes, t) {
                                law_dict_insert_keeps_value_wf(es, key, v2);
                                lemma_set_var_wf(s2, t, ValueV::Dict(dict_insert(es, key, v2)));
                            }
                        }
                    }
                }
            }
        }
    }
}

/// Running a statement in a well-formed state leaves a well-formed state, and a value it
/// returns is well formed.
pub proof fn law_stmt_keeps_values_wf(p: ProgramV, n: nat, st: RunState, s: StmtV)
    requires
        state_wf(st),
    ensures
        signal_step_wf(exec_stmt(p, n, st, s)),
    decreases n, 2nat, s, 1nat, 0nat,
{
    match s {
        StmtV::VarDecl(d) => lemma_declare_wf(p, n, st, d),
        StmtV::MacroCall { name, args } => lemma_macro_wf(p, n, st, name, args),
        StmtV::FunctionCall { name, args } => {
            lemma_eval_list_wf(p, n, st, args);
            if let Ok((vs, s1)) = eval_list(p, n, st, args) {
                lemma_builtin_wf(s1, name, vs);
                if n > 0 {
                    lemma_call_user_wf(p, (n - 1) as nat, s1, name, vs);
                }
            }
        },
        StmtV::Assignment(a) => lemma_assign_wf(p, n, st, a),
        StmtV::If { condition, then_body, else_body } => {
            law_eval_keeps_values_wf(p, n, st, condition);
            if let Ok((_, s1)) = eval(p, n, st, condition) {
                lemma_push_pop_wf(s1);
                law_block_keeps_values_wf(p, n, push_scope(s1), then_body);
                if let Ok((_, s2)) = exec_block(p, n, push_scope(s1), then_body) {
                    lemma_push_pop_wf(s2);
                }
                if let Some(b) = else_body {
                    law_block_keeps_values_wf(p, n, push_scope(s1), b);
                    if let Ok((_, s2)) = exec_block(p, n, push_scope(s1), b) {
                        lemma_push_pop_wf(s2);
                    }
                }
            }
        },
        StmtV::While { .. } => lemma_while_wf(p, n, st, s, n),
        StmtV::For { initializer, .. } => {
            lemma_push_pop_wf(st);
            lemma_declare_wf(p, n, push_scope(st), initializer);
            if let Ok((_, s1)) = declare(p, n, push_scope(st), initializer) {
                lemma_for_wf(p, n, s1, s, n);
            }
        },
        StmtV::ForEach { iterable, .. } => {
            law_eval_keeps_values_wf(p, n, st, iterable);
            if let Ok((v, s1)) = eval(p, n, st, iterable) {
                match v {
                    ValueV::Array(vs) => {
                        lemma_array_wf(vs);
                        lemma_each_wf(p, n, s1, s, vs, false, 0);
                    },
                    ValueV::Dict(es) => {
                        let ks = es.map_values(|e: (Seq<char>, ValueV)| ValueV::Str(e.0));
                        assert forall|i: int| 0 <= i < ks.len() implies #[trigger] value_wf(ks[i]) by {
                            assert(ks[i] == ValueV::Str(es[i].0));
                        }
                        lemma_each_wf(p, n, s1, s, ks, true, 0);
                    },
                    _ => {},
                }
            }
        },
        StmtV::Return { value } => law_eval_keeps_values_wf(p, n, st, value),
        _ => {},
    }
}

proof fn lemma_while_wf(p: ProgramV, n: nat, st: RunState, s: StmtV, left: nat)
    requires
        state_wf(st),
    ensures
        signal_step_wf(while_rounds(p, n, st, s, left)),
    decreases n, 2nat, s, 0nat, left,
{
    if let StmtV::While { condition, body } = s {
        if left > 0 {
            law_eval_keeps_values_wf(p, n, st, condition);
            if let Ok((_, s1)) = eval(p, n, st, condition) {
                lemma_push_pop_wf(s1);
                law_block_keeps_values_wf(p, n, push_scope(s1), body);
                if let Ok((_, s2)) = exec_block(p, n, push_scope(s1), body) {
                    lemma_push_pop_wf(s2);
                    lemma_while_wf(p, n, pop_scope(s2), s, (left - 1) as nat);
                }
            }
        }
    }
}

proof fn lemma_for_wf(p: ProgramV, n: nat, st: RunState, s: StmtV, left: nat)
    requires
        state_wf(st),
    ensures
        signal_step_wf(for_rounds(p, n, st, s, left)),
    decreases n, 2nat, s, 0nat, left,
{
    if let StmtV::For { condition, update, body, .. } = s {
        if left > 0 {
            law_eval_keeps_values_wf(p, n, st, condition);
            if let Ok((_, s1)) = eval(p, n, st, condition) {
                lemma_push_pop_wf(s1);
                law_block_keeps_values_wf(p, n, s1, body);
                if let Ok((_, s2)) = exec_block(p, n, s1, body) {
                    lemma_push_pop_wf(s2);
                    lemma_assign_wf(p, n, s2, update);
                    if let Ok((_, s3)) = assign(p, n, s2, update) {
                        lemma_for_wf(p, n, s3, s, (left - 1) as nat);
                    }
                }
            }
        }
    }
}

proof fn lemma_each_wf(p: ProgramV, n: nat, st: RunState, s: StmtV, items: Seq<ValueV>, keys: bool, i: nat)
    requires
        state_wf(st),
        values_wf(items),
    ensures
        signal_step_wf(each_rounds(p, n, st, s, items, keys, i)),
    decreases n, 2nat, s, 0nat, items.len() - i,
{
    if let StmtV::ForEach { item_name, body, .. } = s {
        if i < items.len() {
            let v = items[i as int];
            lemma_push_pop_wf(st);
            lemma_define_wf(push_scope(st), item_name, v);
            let s0 = define(push_scope(st), item_name, v);
            law_block_keeps_values_wf(p, n, s0, body);
            if let Ok((_, s1)) = exec_block(p, n, s0, body) {
                lemma_push_pop_wf(s1);
                lemma_each_wf(p, n, pop_scope(s1), s, items, keys, i + 1);
            }
        }
    }
}

/// Running a block in a well-formed state leaves a well-formed state, and a value it
/// returns is well formed.
pub proof fn law_block_keeps_values_wf(p: ProgramV, n: nat, st: RunState, body: Seq<StmtV>)
    requires
        state_wf(st),
    ensures
        signal_step_wf(exec_block(p, n, st, body)),
    decreases n, 2nat, body, 0nat, 0nat,
{
    if body.len() > 0 {
        law_block_keeps_values_wf(p, n, st, body.drop_last());
        if let Ok((_, s1)) = exec_block(p, n, st, body.drop_last()) {
            law_stmt_keeps_values_wf(p, n, s1, body.last());
        }
    }
}

proof fn lemma_globals_wf(p: ProgramV, n: nat, st: RunState, items: Seq<ItemV>)
    requires
        state_wf(st),
    ensures
        unit_step_wf(globals(p, n, st, items)),
    decreases items.len(),
{
    if items.len() > 0 {
        lemma_globals_wf(p, n, st, items.drop_last());
        if let Ok((_, s1)) = globals(p, n, st, items.drop_last()) {
            if let ItemV::VarDecl(d) = items.last() {
                lemma_declare_wf(p, n, s1, d);
            }
        }
    }
}

/// A whole run starts well formed and stays so: the state after the top-level
/// declarations, and the state a finished run ends in, hold only well-formed values.
pub proof fn law_run_keeps_values_wf(p: ProgramV, n: nat, replies: Seq<crate::run_spec::ReplyV>)
    ensures
        state_wf(start_state(p, replies)),
        globals(p, n, start_state(p, replies), p.items) matches Ok((_, s)) ==> state_wf(s),
        run_program(p, n, replies) matches Ok(s) ==> state_wf(s),
{
    let st = start_state(p, replies);
    assert(entries_wf(st.scopes[0]));
    lemma_globals_wf(p, n, st, p.items);
    if let Ok((_, s1)) = globals(p, n, st, p.items) {
        lemma_builtin_wf(s1, "main"@, Seq::empty());
        if n > 0 {
            lemma_call_user_wf(p, (n - 1) as nat, s1, "main"@, Seq::empty());
        }
    }
}

} // verus!
