//! Properties of running programs: variables and dictionaries give back what was
//! written to them, dictionaries keep their keys in order, and `&&` and `||` stop early.
use vstd::prelude::*;
use crate::ast::{BinaryOp, ExprV, ProgramV};
use crate::run_spec::{
    Halt, RunState, Step, ValueV, define, eval, dict_get, dict_insert, scope_get, scope_set, set_var, var_get,
    var_set,
};
use crate::text::{lemma_text_lt_irreflexive, lemma_text_lt_transitive, lemma_text_lt_trichotomy, text_lt};

verus! {

proof fn lemma_scope_set_get(s: Seq<(Seq<char>, ValueV)>, n: Seq<char>, v: ValueV, m: Seq<char>)
    requires
        scope_get(s, n) is Some,
    ensures
        scope_get(scope_set(s, n, v), m) == if m == n {
            Some(v)
        } else {
            scope_get(s, m)
        },
        scope_get(scope_set(s, n, v), m) is Some <==> scope_get(s, m) is Some,
    decreases s.len(),
{
    if s.last().0 == n {
        assert(s.drop_last().push((n, v)).drop_last() =~= s.drop_last());
    } else {
        lemma_scope_set_get(s.drop_last(), n, v, m);
        assert(scope_set(s.drop_last(), n, v).push(s.last()).drop_last() =~= scope_set(s.drop_last(), n, v));
    }
}

proof fn lemma_var_set_get(s: Seq<Seq<(Seq<char>, ValueV)>>, n: Seq<char>, v: ValueV, m: Seq<char>)
    requires
        var_get(s, n) is Some,
    ensures
        var_get(var_set(s, n, v), m) == if m == n {
            Some(v)
        } else {
            var_get(s, m)
        },
    decreases s.len(),
{
    if scope_get(s.last(), n) is Some {
        lemma_scope_set_get(s.last(), n, v, m);
        assert(s.drop_last().push(scope_set(s.last(), n, v)).drop_last() =~= s.drop_last());
    } else {
        lemma_var_set_get(s.drop_last(), n, v, m);
        assert(var_set(s.drop_last(), n, v).push(s.last()).drop_last() =~= var_set(s.drop_last(), n, v));
    }
}

/// After an assignment to a variable that exists, reading it gives the assigned value,
/// and every other variable reads as before.
pub proof fn law_assigned_variable_reads_back(st: RunState, n: Seq<char>, v: ValueV, m: Seq<char>)
    requires
        var_get(st.scopes, n) is Some,
    ensures
        var_get(set_var(st, n, v).scopes, n) == Some(v),
        m != n ==> var_get(set_var(st, n, v).scopes, m) == var_get(st.scopes, m),
{
    lemma_var_set_get(st.scopes, n, v, n);
    lemma_var_set_get(st.scopes, n, v, m);
}

/// After a declaration, reading the declared name gives the declared value.
pub proof fn law_declared_variable_reads_back(st: RunState, n: Seq<char>, v: ValueV)
    requires
        st.scopes.len() > 0,
    ensures
        var_get(define(st, n, v).scopes, n) == Some(v),
{
    let s1 = define(st, n, v).scopes;
    assert(s1.last() == st.scopes.last().push((n, v)));
    assert(st.scopes.last().push((n, v)).last() == (n, v));
}

/// The keys of a dictionary are in strictly increasing order.
pub open spec fn keys_sorted(es: Seq<(Seq<char>, ValueV)>) -> bool {
    forall|i: int, j: int| 0 <= i < j < es.len() ==> text_lt(#[trigger] es[i].0, #[trigger] es[j].0)
}

/// In a dictionary with sorted keys, a key is found exactly where it stands.
proof fn lemma_dict_get_sorted(es: Seq<(Seq<char>, ValueV)>, k: Seq<char>)
    requires
        keys_sorted(es),
    ensures
        (exists|i: int| 0 <= i < es.len() && #[trigger] es[i].0 == k) ==> dict_get(es, k) == Some(
            es[choose|i: int| 0 <= i < es.len() && #[trigger] es[i].0 == k].1,
        ),
        (forall|i: int| 0 <= i < es.len() ==> #[trigger] es[i].0 != k) ==> dict_get(es, k) is None,
    decreases es.len(),
{
    if es.len() > 0 {
        let prefix = es.drop_last();
        assert(keys_sorted(prefix)) by {
            assert forall|i: int, j: int| 0 <= i < j < prefix.len() implies text_lt(
                #[trigger] prefix[i].0,
                #[trigger] prefix[j].0,
            ) by {
                assert(prefix[i] == es[i] && prefix[j] == es[j]);
            }
        }
        lemma_dict_get_sorted(prefix, k);
        let last = es.len() - 1;
        if exists|i: int| 0 <= i < es.len() && #[trigger] es[i].0 == k {
            let c = choose|i: int| 0 <= i < es.len() && #[trigger] es[i].0 == k;
            if c == last {
                assert(es.last() == es[last]);
            } else {
                assert(es[c].0 != es[last].0) by {
                    assert(text_lt(es[c].0, es[last].0));
                    lemma_text_lt_irreflexive(es[c].0);
                }
                assert(prefix[c] == es[c]);
                let c2 = choose|i: int| 0 <= i < prefix.len() && #[trigger] prefix[i].0 == k;
                if c2 != c {
                    assert(prefix[c2] == es[c2]);
                    if c2 < c {
                        assert(text_lt(es[c2].0, es[c].0));
                    } else {
                        assert(text_lt(es[c].0, es[c2].0));
                    }
                    lemma_text_lt_irreflexive(k);
                }
            }
        } else {
            assert forall|i: int| 0 <= i < prefix.len() implies #[trigger] prefix[i].0 != k by {
                assert(prefix[i] == es[i]);
            }
            assert(es[last] == es.last());
        }
    }
}

/// The position where `k` belongs: the number of keys below it.
pub open spec fn insert_position(es: Seq<(Seq<char>, ValueV)>, k: Seq<char>) -> int
    decreases es.len(),
{
    if es.len() == 0 {
        0
    } else if es[0].0 == k || text_lt(k, es[0].0) {
        0
    } else {
        1 + insert_position(es.subrange(1, es.len() as int), k)
    }
}

/// Inserting into a sorted dictionary: `k` lands at its position, replacing an equal key.
proof fn lemma_dict_insert_shape(es: Seq<(Seq<char>, ValueV)>, k: Seq<char>, v: ValueV)
    requires
        keys_sorted(es),
    ensures
        0 <= insert_position(es, k) <= es.len(),
        forall|i: int| 0 <= i < insert_position(es, k) ==> text_lt(#[trigger] es[i].0, k),
        insert_position(es, k) < es.len() ==> !text_lt(es[insert_position(es, k)].0, k),
        dict_insert(es, k, v) == es.take(insert_position(es, k)) + seq![(k, v)] + es.skip(
            if insert_position(es, k) < es.len() && es[insert_position(es, k)].0 == k {
                insert_position(es, k) + 1
            } else {
                insert_position(es, k)
            },
        ),
    decreases es.len(),
{
    if es.len() > 0 {
        let rest = es.subrange(1, es.len() as int);
        if es[0].0 == k {
            lemma_text_lt_irreflexive(k);
            assert(es.update(0, (k, v)) =~= es.take(0) + seq![(k, v)] + es.skip(1));
        } else if text_lt(k, es[0].0) {
            assert(seq![(k, v)] + es =~= es.take(0) + seq![(k, v)] + es.skip(0));
            lemma_text_lt_trichotomy(k, es[0].0);
            if text_lt(es[0].0, k) {
                lemma_text_lt_transitive(k, es[0].0, k);
                lemma_text_lt_irreflexive(k);
            }
        } else {
            assert(keys_sorted(rest)) by {
                assert forall|i: int, j: int| 0 <= i < j < rest.len() implies text_lt(
                    #[trigger] rest[i].0,
                    #[trigger] rest[j].0,
                ) by {
                    assert(rest[i] == es[i + 1] && rest[j] == es[j + 1]);
                }
            }
            lemma_dict_insert_shape(rest, k, v);
            lemma_text_lt_trichotomy(k, es[0].0);
            let p = insert_position(rest, k);
            assert forall|i: int| 0 <= i < 1 + p implies text_lt(#[trigger] es[i].0, k) by {
                if i > 0 {
                    assert(rest[i - 1] == es[i]);
                }
            }
            if p < rest.len() {
                assert(rest[p] == es[p + 1]);
            }
            let q = if p < rest.len() && rest[p].0 == k { p + 1 } else { p };
            assert(seq![es[0]] + (rest.take(p) + seq![(k, v)] + rest.skip(q)) =~= es.take(1 + p) + seq![(k, v)] + es.skip(1 + q));
        }
    }
}

/// Setting a key keeps a dictionary's keys in strictly increasing order.
pub proof fn law_dict_insert_keeps_order(es: Seq<(Seq<char>, ValueV)>, k: Seq<char>, v: ValueV)
    requires
        keys_sorted(es),
    ensures
        keys_sorted(dict_insert(es, k, v)),
{
    lemma_dict_insert_shape(es, k, v);
    let p = insert_position(es, k);
    let q = if p < es.len() && es[p].0 == k { p + 1 } else { p };
    let r = dict_insert(es, k, v);
    assert(r.len() == p + 1 + (es.len() - q));
    assert forall|i: int, j: int| 0 <= i < j < r.len() implies text_lt(#[trigger] r[i].0, #[trigger] r[j].0) by {
        let ki = if i < p { es[i].0 } else if i == p { k } else { es[i - p - 1 + q].0 };
        let kj = if j < p { es[j].0 } else if j == p { k } else { es[j - p - 1 + q].0 };
        assert(r[i].0 == ki && r[j].0 == kj);
        if j <= p {
        } else {
            let jj = j - p - 1 + q;
            assert(q <= jj < es.len());
            // the key at jj is above k
            if jj == p {
                lemma_text_lt_trichotomy(k, es[p].0);
            } else {
                assert(text_lt(es[p].0, es[jj].0)) by {
                    assert(p < jj);
                }
                lemma_text_lt_trichotomy(k, es[p].0);
                if text_lt(k, es[p].0) {
                    lemma_text_lt_transitive(k, es[p].0, es[jj].0);
                }
            }
            if i < p {
                lemma_text_lt_transitive(es[i].0, k, es[jj].0);
            } else if i > p {
                let ii = i - p - 1 + q;
                assert(ii < jj);
            }
        }
    }
}

/// Reading a key just set gives the value set; every other key reads as before.
pub proof fn law_dict_reads_back(es: Seq<(Seq<char>, ValueV)>, k: Seq<char>, v: ValueV, other: Seq<char>)
    requires
        keys_sorted(es),
    ensures
        dict_get(dict_insert(es, k, v), k) == Some(v),
        other != k ==> dict_get(dict_insert(es, k, v), other) == dict_get(es, other),
{
    law_dict_insert_keeps_order(es, k, v);
    lemma_dict_insert_shape(es, k, v);
    let p = insert_position(es, k);
    let q = if p < es.len() && es[p].0 == k { p + 1 } else { p };
    let r = dict_insert(es, k, v);
    assert(r[p] == (k, v));
    assert(r[p].0 == k);
    lemma_dict_get_sorted(r, k);
    let c = choose|i: int| 0 <= i < r.len() && #[trigger] r[i].0 == k;
    if c != p {
        lemma_text_lt_irreflexive(k);
        if c < p {
            assert(text_lt(r[c].0, r[p].0));
        } else {
            assert(text_lt(r[p].0, r[c].0));
        }
    }
    lemma_dict_get_sorted(r, other);
    lemma_dict_get_sorted(es, other);
    if other != k {
        if exists|i: int| 0 <= i < es.len() && #[trigger] es[i].0 == other {
            let a = choose|i: int| 0 <= i < es.len() && #[trigger] es[i].0 == other;
            assert(a != p || q == p);
            let b = if a < p { a } else { a - q + p + 1 };
            assert(r[b] == es[a]);
            assert(r[b].0 == other);
            let c2 = choose|i: int| 0 <= i < r.len() && #[trigger] r[i].0 == other;
            if c2 != b {
                lemma_text_lt_irreflexive(other);
                if c2 < b {
                    assert(text_lt(r[c2].0, r[b].0));
                } else {
                    assert(text_lt(r[b].0, r[c2].0));
                }
            }
            let c3 = choose|i: int| 0 <= i < es.len() && #[trigger] es[i].0 == other;
            if c3 != a {
                lemma_text_lt_irreflexive(other);
                if c3 < a {
                    assert(text_lt(es[c3].0, es[a].0));
                } else {
                    assert(text_lt(es[a].0, es[c3].0));
                }
            }
        } else {
            assert forall|i: int| 0 <= i < r.len() implies #[trigger] r[i].0 != other by {
                if i < p {
                    assert(r[i] == es[i]);
                } else if i > p {
                    assert(r[i] == es[i - p - 1 + q]);
                }
            }
        }
    }
}

/// `&&` whose left side is `false`, and `||` whose left side is `true`, give that value
/// without evaluating the right side: no error, no output and no change come from it.
pub proof fn law_logic_short_circuits(p: ProgramV, n: nat, st: RunState, left: ExprV, right: ExprV, s1: RunState)
    ensures
        eval(p, n, st, left) == Ok::<(ValueV, RunState), Halt>((ValueV::Bool(false), s1)) ==> eval(
            p,
            n,
            st,
            ExprV::Binary { left: Box::new(left), op: BinaryOp::And, right: Box::new(right) },
        ) == Ok::<(ValueV, RunState), Halt>((ValueV::Bool(false), s1)),
        eval(p, n, st, left) == Ok::<(ValueV, RunState), Halt>((ValueV::Bool(true), s1)) ==> eval(
            p,
            n,
            st,
            ExprV::Binary { left: Box::new(left), op: BinaryOp::Or, right: Box::new(right) },
        ) == Ok::<(ValueV, RunState), Halt>((ValueV::Bool(true), s1)),
{
}

/// The value of `left op right` for an operator other than `&&` and `||`, once both
/// sides are evaluated, left first.
pub open spec fn binary_result(p: ProgramV, n: nat, st: RunState, left: ExprV, op: BinaryOp, right: ExprV) -> Step<ValueV> {
    eval(p, n, st, ExprV::Binary { left: Box::new(left), op, right: Box::new(right) })
}

/// Integer operators on two integer operands: comparisons give the mathematical order,
/// `==` and `!=` equality, and `+`, `-`, `*` the exact result when it fits in `i64`; each
/// result comes in the state after both operands.
#[verifier::spinoff_prover]
#[verifier::rlimit(40)]
pub proof fn law_integer_operators(
    p: ProgramV,
    n: nat,
    st: RunState,
    left: ExprV,
    right: ExprV,
    a: i64,
    b: i64,
    s1: RunState,
    s2: RunState,
)
    requires
        eval(p, n, st, left) == Ok::<(ValueV, RunState), Halt>((ValueV::Int(a), s1)),
        eval(p, n, s1, right) == Ok::<(ValueV, RunState), Halt>((ValueV::Int(b), s2)),
    ensures
        binary_result(p, n, st, left, BinaryOp::Less, right) == Ok::<(ValueV, RunState), Halt>((ValueV::Bool(a < b), s2)),
        binary_result(p, n, st, left, BinaryOp::Greater, right) == Ok::<(ValueV, RunState), Halt>((ValueV::Bool(a > b), s2)),
        binary_result(p, n, st, left, BinaryOp::LessEq, right) == Ok::<(ValueV, RunState), Halt>((ValueV::Bool(a <= b), s2)),
        binary_result(p, n, st, left, BinaryOp::GreaterEq, right) == Ok::<(ValueV, RunState), Halt>((ValueV::Bool(a >= b), s2)),
        binary_result(p, n, st, left, BinaryOp::Eq, right) == Ok::<(ValueV, RunState), Halt>((ValueV::Bool(a == b), s2)),
        binary_result(p, n, st, left, BinaryOp::NotEq, right) == Ok::<(ValueV, RunState), Halt>((ValueV::Bool(a != b), s2)),
        i64::MIN <= a + b <= i64::MAX ==> binary_result(p, n, st, left, BinaryOp::Add, right)
            == Ok::<(ValueV, RunState), Halt>((ValueV::Int((a + b) as i64), s2)),
        i64::MIN <= a - b <= i64::MAX ==> binary_result(p, n, st, left, BinaryOp::Sub, right)
            == Ok::<(ValueV, RunState), Halt>((ValueV::Int((a - b) as i64), s2)),
        i64::MIN <= a * b <= i64::MAX ==> binary_result(p, n, st, left, BinaryOp::Mul, right)
            == Ok::<(ValueV, RunState), Halt>((ValueV::Int((a * b) as i64), s2)),
        b == 0 ==> binary_result(p, n, st, left, BinaryOp::Div, right) matches Err((
            crate::run_spec::Stop::Error(_),
            _,
        )),
        a >= 0 && b > 0 ==> binary_result(p, n, st, left, BinaryOp::Div, right)
            == Ok::<(ValueV, RunState), Halt>((ValueV::Int((a as int / b as int) as i64), s2)),
        a < 0 && b > 0 ==> binary_result(p, n, st, left, BinaryOp::Div, right)
            == Ok::<(ValueV, RunState), Halt>((ValueV::Int((-((-(a as int)) / (b as int))) as i64), s2)),
{
    assert(i64::MIN <= a + b <= i64::MAX ==> a.wrapping_add(b) == (a + b) as i64);
    assert(i64::MIN <= a - b <= i64::MAX ==> a.wrapping_sub(b) == (a - b) as i64);
    assert(i64::MIN <= a * b <= i64::MAX ==> a.wrapping_mul(b) == (a * b) as i64);
}

/// `+` with a string operand on either side concatenates the printed texts, the left
/// one first.
pub proof fn law_string_concatenation(
    p: ProgramV,
    n: nat,
    st: RunState,
    left: ExprV,
    right: ExprV,
    x: ValueV,
    y: ValueV,
    s1: RunState,
    s2: RunState,
)
    requires
        eval(p, n, st, left) == Ok::<(ValueV, RunState), Halt>((x, s1)),
        eval(p, n, s1, right) == Ok::<(ValueV, RunState), Halt>((y, s2)),
        x is Str || y is Str,
    ensures
        binary_result(p, n, st, left, BinaryOp::Add, right) == Ok::<(ValueV, RunState), Halt>(
            (ValueV::Str(crate::run_spec::output_text(x) + crate::run_spec::output_text(y)), s2),
        ),
{
}

/// `!` negates a boolean, and `-` negates an integer other than `i64::MIN`.
pub proof fn law_unary_operators(p: ProgramV, n: nat, st: RunState, e: ExprV, v: ValueV, s1: RunState)
    requires
        eval(p, n, st, e) == Ok::<(ValueV, RunState), Halt>((v, s1)),
    ensures
        v matches ValueV::Bool(b) ==> eval(p, n, st, ExprV::Unary { op: crate::ast::UnaryOp::Not, expr: Box::new(e) })
            == Ok::<(ValueV, RunState), Halt>((ValueV::Bool(!b), s1)),
        v matches ValueV::Int(a) ==> (a != i64::MIN ==> eval(
            p,
            n,
            st,
            ExprV::Unary { op: crate::ast::UnaryOp::Neg, expr: Box::new(e) },
        ) == Ok::<(ValueV, RunState), Halt>((ValueV::Int((-a) as i64), s1))),
{
}

/// `&&` whose left side is `true`, and `||` whose left side is `false`, give the right
/// side's boolean, in the state after it.
pub proof fn law_logic_takes_right_side(
    p: ProgramV,
    n: nat,
    st: RunState,
    left: ExprV,
    right: ExprV,
    c: bool,
    s1: RunState,
    s2: RunState,
)
    requires
        eval(p, n, s1, right) == Ok::<(ValueV, RunState), Halt>((ValueV::Bool(c), s2)),
    ensures
        eval(p, n, st, left) == Ok::<(ValueV, RunState), Halt>((ValueV::Bool(true), s1)) ==> eval(
            p,
            n,
            st,
            ExprV::Binary { left: Box::new(left), op: BinaryOp::And, right: Box::new(right) },
        ) == Ok::<(ValueV, RunState), Halt>((ValueV::Bool(c), s2)),
        eval(p, n, st, left) == Ok::<(ValueV, RunState), Halt>((ValueV::Bool(false), s1)) ==> eval(
            p,
            n,
            st,
            ExprV::Binary { left: Box::new(left), op: BinaryOp::Or, right: Box::new(right) },
        ) == Ok::<(ValueV, RunState), Halt>((ValueV::Bool(c), s2)),
{
}

} // verus!
