//! Operations on runtime values.
use vstd::prelude::*;
use crate::run_spec::{
    ValueV, comma_joined, dict_get, dict_insert, entries_output, insert_keyed, keyed_texts,
    output_text, outputs_text, sort_keyed, value_type,
};
use crate::value_views::{Value, dict_view, values_view};
use crate::value_laws::{law_dict_insert_keeps_value_wf, value_wf};
use crate::text::{text_lt, owned, push_bool, push_i64, push_str, same_text, text_less};

verus! {

broadcast use crate::value_views::group_value_views;


/// Two sequences of values with the same views elementwise have the same view.
pub proof fn lemma_values_view_ext(a: Seq<Value>, b: Seq<Value>)
    requires
        a.len() == b.len(),
        forall|i: int| 0 <= i < a.len() ==> a[i]@ == b[i]@,
    ensures
        values_view(a) == values_view(b),
{
    assert(values_view(a) =~= values_view(b));
}

/// Two dictionaries with the same entries elementwise have the same view.
pub proof fn lemma_dict_view_ext(a: Seq<(String, Value)>, b: Seq<(String, Value)>)
    requires
        a.len() == b.len(),
        forall|i: int| 0 <= i < a.len() ==> a[i].0@ == b[i].0@ && a[i].1@ == b[i].1@,
    ensures
        dict_view(a) == dict_view(b),
{
    assert(dict_view(a) =~= dict_view(b));
}

impl Value {
    /// The name of the value's type.
    pub fn type_label(&self) -> (r: &'static str)
        ensures
            r@ == value_type(self@),
    {
        match self {
            Value::Int(_) => "int",
            Value::Str(_) => "str",
            Value::Bool(_) => "bool",
            Value::Array(_) => "arr",
            Value::Dict(_) => "dict",
        }
    }

    /// The text `cons!` prints for the value.
    pub fn to_output(&self) -> (r: String)
        ensures
            r@ == output_text(self@),
        decreases self,
    {
        match self {
            Value::Int(i) => {
                let mut r = String::new();
                push_i64(&mut r, *i);
                r
            },
            Value::Str(s) => s.clone(),
            Value::Bool(b) => {
                let mut r = String::new();
                push_bool(&mut r, *b);
                r
            },
            Value::Array(vs) => {
                let mut r = owned("[");
                let inner = outputs_joined(vs);
                push_str(&mut r, inner.as_str());
                push_str(&mut r, "]");
                r
            },
            Value::Dict(es) => {
                let mut r = owned("{");
                let texts = entry_texts(es);
                let sorted = sort_texts(&texts);
                let inner = join_texts(&sorted);
                push_str(&mut r, inner.as_str());
                push_str(&mut r, "}");
                r
            },
        }
    }
}

proof fn lemma_outputs_len(vs: Seq<ValueV>)
    ensures
        outputs_text(vs).len() == vs.len(),
    decreases vs.len(),
{
    if vs.len() > 0 {
        lemma_outputs_len(vs.drop_last());
    }
}

/// Joining one more part.
proof fn lemma_comma_joined_push(parts: Seq<Seq<char>>, x: Seq<char>)
    ensures
        comma_joined(parts.push(x)) == if parts.len() == 0 {
            x
        } else {
            comma_joined(parts) + ", "@ + x
        },
{
    assert(parts.push(x).drop_last() =~= parts);
    if parts.len() == 0 {
        assert(parts.push(x)[0] == x);
    }
}

/// The printed values joined with `, `.
fn outputs_joined(vs: &Vec<Value>) -> (r: String)
    ensures
        r@ == comma_joined(outputs_text(values_view(vs@))),
    decreases vs,
{
    let ghost v = values_view(vs@);
    let mut r = String::new();
    let mut i: usize = 0;
    assert(v.len() == vs@.len());
    while i < vs.len()
        invariant
            i <= vs.len(),
            v == values_view(vs@),
            v.len() == vs@.len(),
            r@ == comma_joined(outputs_text(v.take(i as int))),
        decreases vs.len() - i,
    {
        assert(v.take(i + 1).drop_last() =~= v.take(i as int));
        assert(v[i as int] == vs@[i as int]@);
        proof {
            lemma_outputs_len(v.take(i as int));
            lemma_comma_joined_push(outputs_text(v.take(i as int)), output_text(v[i as int]));
        }
        if i > 0 {
            push_str(&mut r, ", ");
        }
        let t = vs[i].to_output();
        push_str(&mut r, t.as_str());
        i += 1;
    }
    assert(v.take(vs.len() as int) =~= v);
    r
}

/// The views of keyed texts.
pub open spec fn keyed_view(s: Seq<(String, String)>) -> Seq<(Seq<char>, Seq<char>)> {
    s.map_values(|p: (String, String)| (p.0@, p.1@))
}

/// Each entry's key with its printed text `key: value`, in stored order.
fn entry_texts(es: &Vec<(String, Value)>) -> (r: Vec<(String, String)>)
    ensures
        keyed_view(r@) == entries_output(dict_view(es@)),
    decreases es,
{
    let ghost v = dict_view(es@);
    let mut out: Vec<(String, String)> = Vec::new();
    let mut i: usize = 0;
    assert(v.len() == es@.len());
    assert(keyed_view(out@) =~= entries_output(v.take(0)));
    while i < es.len()
        invariant
            i <= es.len(),
            v == dict_view(es@),
            v.len() == es@.len(),
            keyed_view(out@) == entries_output(v.take(i as int)),
        decreases es.len() - i,
    {
        assert(v.take(i + 1).drop_last() =~= v.take(i as int));
        assert(v[i as int] == (es@[i as int].0@, es@[i as int].1@));
        let mut t = es[i].0.clone();
        push_str(&mut t, ": ");
        let o = es[i].1.to_output();
        push_str(&mut t, o.as_str());
        let ghost before = out@;
        out.push((es[i].0.clone(), t));
        assert(keyed_view(out@) =~= keyed_view(before).push((es@[i as int].0@, t@)));
        i += 1;
    }
    assert(v.take(es.len() as int) =~= v);
    out
}

proof fn lemma_insert_keyed_at(s: Seq<(Seq<char>, Seq<char>)>, e: (Seq<char>, Seq<char>), p: int)
    requires
        0 <= p <= s.len(),
        forall|j: int| 0 <= j < p ==> !text_lt(e.0, #[trigger] s[j].0),
        p < s.len() ==> text_lt(e.0, s[p].0),
    ensures
        insert_keyed(s, e) == s.insert(p, e),
    decreases s.len(),
{
    if s.len() == 0 {
        assert(seq![e] =~= s.insert(0, e));
    } else if p == 0 {
        assert(seq![e] + s =~= s.insert(0, e));
    } else {
        let rest = s.subrange(1, s.len() as int);
        assert(!text_lt(e.0, s[0].0));
        assert forall|j: int| 0 <= j < p - 1 implies !text_lt(e.0, #[trigger] rest[j].0) by {
            assert(rest[j] == s[j + 1]);
        }
        if p < s.len() {
            assert(rest[p - 1] == s[p]);
        }
        lemma_insert_keyed_at(rest, e, p - 1);
        assert(seq![s[0]] + rest.insert(p - 1, e) =~= s.insert(p, e));
    }
}

/// `e` inserted into `s` before the first entry whose key sorts after its own.
fn insert_text(s: &mut Vec<(String, String)>, e: (String, String))
    ensures
        keyed_view(final(s)@) == insert_keyed(keyed_view(old(s)@), (e.0@, e.1@)),
{
    let ghost k = keyed_view(s@);
    let mut p: usize = 0;
    while p < s.len() && !text_less(&e.0, &s[p].0)
        invariant
            p <= s.len(),
            k == keyed_view(s@),
            s@ == old(s)@,
            forall|j: int| 0 <= j < p ==> !text_lt(e.0@, #[trigger] k[j].0),
        decreases s.len() - p,
    {
        p += 1;
    }
    proof {
        lemma_insert_keyed_at(k, (e.0@, e.1@), p as int);
    }
    let ghost before = s@;
    let ghost ev = (e.0@, e.1@);
    s.insert(p, e);
    assert(keyed_view(s@) =~= k.insert(p as int, ev));
}

/// The keyed texts sorted by key, equal keys in their order.
fn sort_texts(v: &Vec<(String, String)>) -> (r: Vec<(String, String)>)
    ensures
        keyed_view(r@) == sort_keyed(keyed_view(v@)),
{
    let ghost k = keyed_view(v@);
    let mut out: Vec<(String, String)> = Vec::new();
    let mut i: usize = 0;
    assert(keyed_view(out@) =~= sort_keyed(k.take(0)));
    while i < v.len()
        invariant
            i <= v.len(),
            k == keyed_view(v@),
            keyed_view(out@) == sort_keyed(k.take(i as int)),
        decreases v.len() - i,
    {
        assert(k.take(i + 1).drop_last() =~= k.take(i as int));
        assert(k[i as int] == (v@[i as int].0@, v@[i as int].1@));
        let e = (v[i].0.clone(), v[i].1.clone());
        insert_text(&mut out, e);
        i += 1;
    }
    assert(k.take(v.len() as int) =~= k);
    out
}

/// The texts of keyed entries joined with `, `.
fn join_texts(v: &Vec<(String, String)>) -> (r: String)
    ensures
        r@ == comma_joined(keyed_texts(keyed_view(v@))),
{
    let ghost k = keyed_view(v@);
    let mut r = String::new();
    let mut i: usize = 0;
    assert(keyed_texts(k.take(0)) =~= Seq::<Seq<char>>::empty());
    while i < v.len()
        invariant
            i <= v.len(),
            k == keyed_view(v@),
            r@ == comma_joined(keyed_texts(k.take(i as int))),
        decreases v.len() - i,
    {
        assert(keyed_texts(k.take(i + 1)) =~= keyed_texts(k.take(i as int)).push(v@[i as int].1@));
        proof {
            lemma_comma_joined_push(keyed_texts(k.take(i as int)), v@[i as int].1@);
        }
        if i > 0 {
            push_str(&mut r, ", ");
        }
        push_str(&mut r, v[i].1.as_str());
        i += 1;
    }
    assert(k.take(v.len() as int) =~= k);
    r
}

/// A copy of a value.
pub fn copy_value(v: &Value) -> (r: Value)
    ensures
        r@ == v@,
    decreases v,
{
    match v {
        Value::Int(i) => Value::Int(*i),
        Value::Str(s) => Value::Str(s.clone()),
        Value::Bool(b) => Value::Bool(*b),
        Value::Array(vs) => Value::Array(copy_values(vs)),
        Value::Dict(es) => Value::Dict(copy_dict(es)),
    }
}

/// A copy of a sequence of values.
pub fn copy_values(vs: &Vec<Value>) -> (r: Vec<Value>)
    ensures
        values_view(r@) == values_view(vs@),
    decreases vs,
{
    let mut out: Vec<Value> = Vec::new();
    let mut i: usize = 0;
    while i < vs.len()
        invariant
            i <= vs.len(),
            out.len() == i,
            forall|k: int| 0 <= k < i ==> out@[k]@ == vs@[k]@,
        decreases vs.len() - i,
    {
        out.push(copy_value(&vs[i]));
        i += 1;
    }
    proof {
        lemma_values_view_ext(out@, vs@);
    }
    out
}

/// A copy of the entries of a dictionary.
pub fn copy_dict(es: &Vec<(String, Value)>) -> (r: Vec<(String, Value)>)
    ensures
        dict_view(r@) == dict_view(es@),
    decreases es,
{
    let mut out: Vec<(String, Value)> = Vec::new();
    let mut i: usize = 0;
    while i < es.len()
        invariant
            i <= es.len(),
            out.len() == i,
            forall|k: int| 0 <= k < i ==> out@[k].0@ == es@[k].0@ && out@[k].1@ == es@[k].1@,
        decreases es.len() - i,
    {
        out.push((es[i].0.clone(), copy_value(&es[i].1)));
        i += 1;
    }
    proof {
        lemma_dict_view_ext(out@, es@);
    }
    out
}

/// Whether two values are equal.
pub fn values_equal(a: &Value, b: &Value) -> (r: bool)
    ensures
        r == (a@ == b@),
    decreases a,
{
    match (a, b) {
        (Value::Int(x), Value::Int(y)) => *x == *y,
        (Value::Str(x), Value::Str(y)) => same_text(x, y),
        (Value::Bool(x), Value::Bool(y)) => *x == *y,
        (Value::Array(xs), Value::Array(ys)) => arrays_equal(xs, ys),
        (Value::Dict(xs), Value::Dict(ys)) => dicts_equal(xs, ys),
        _ => false,
    }
}

fn arrays_equal(xs: &Vec<Value>, ys: &Vec<Value>) -> (r: bool)
    ensures
        r == (values_view(xs@) == values_view(ys@)),
    decreases xs,
{
    if xs.len() != ys.len() {
        assert(values_view(xs@).len() != values_view(ys@).len());
        return false;
    }
    let mut i: usize = 0;
    while i < xs.len()
        invariant
            i <= xs.len(),
            xs.len() == ys.len(),
            forall|k: int| 0 <= k < i ==> xs@[k]@ == ys@[k]@,
        decreases xs.len() - i,
    {
        if !values_equal(&xs[i], &ys[i]) {
            assert(values_view(xs@).len() == xs@.len() && values_view(ys@).len() == ys@.len());
            assert(values_view(xs@)[i as int] != values_view(ys@)[i as int]);
            return false;
        }
        i += 1;
    }
    proof {
        lemma_values_view_ext(xs@, ys@);
    }
    true
}

fn dicts_equal(xs: &Vec<(String, Value)>, ys: &Vec<(String, Value)>) -> (r: bool)
    ensures
        r == (dict_view(xs@) == dict_view(ys@)),
    decreases xs,
{
    if xs.len() != ys.len() {
        assert(dict_view(xs@).len() != dict_view(ys@).len());
        return false;
    }
    let mut i: usize = 0;
    while i < xs.len()
        invariant
            i <= xs.len(),
            xs.len() == ys.len(),
            forall|k: int| 0 <= k < i ==> xs@[k].0@ == ys@[k].0@ && xs@[k].1@ == ys@[k].1@,
        decreases xs.len() - i,
    {
        if !same_text(&xs[i].0, &ys[i].0) || !values_equal(&xs[i].1, &ys[i].1) {
            assert(dict_view(xs@).len() == xs@.len() && dict_view(ys@).len() == ys@.len());
            assert(dict_view(xs@)[i as int] != dict_view(ys@)[i as int]);
            return false;
        }
        i += 1;
    }
    proof {
        lemma_dict_view_ext(xs@, ys@);
    }
    true
}

/// The value stored under `key` in a dictionary.
pub fn dict_lookup(es: &Vec<(String, Value)>, key: &String) -> (r: Option<Value>)
    ensures
        match dict_get(dict_view(es@), key@) {
            Some(v) => r is Some && r->0@ == v,
            None => r is None,
        },
{
    let ghost d = dict_view(es@);
    let mut j = es.len();
    assert(d.take(j as int) =~= d);
    while j > 0
        invariant
            j <= es.len(),
            d == dict_view(es@),
            dict_get(d, key@) == dict_get(d.take(j as int), key@),
        decreases j,
    {
        assert(d.take(j as int).drop_last() =~= d.take(j - 1));
        assert(d.len() == es@.len());
        assert(d[j - 1] == (es@[j - 1].0@, es@[j - 1].1@));
        if same_text(&es[j - 1].0, key) {
            return Some(copy_value(&es[j - 1].1));
        }
        j -= 1;
    }
    None
}

/// The dictionary with `key` set to `value`, keys kept in increasing order.
pub fn dict_with(es: &Vec<(String, Value)>, key: String, value: Value) -> (r: Vec<(String, Value)>)
    ensures
        dict_view(r@) == dict_insert(dict_view(es@), key@, value@),
        value_wf(ValueV::Dict(dict_view(es@))) && value_wf(value@) ==> value_wf(ValueV::Dict(dict_view(r@))),
{
    let ghost d = dict_view(es@);
    let mut out: Vec<(String, Value)> = Vec::new();
    let mut i: usize = 0;
    assert(d.take(0) =~= Seq::<(Seq<char>, ValueV)>::empty());
    assert(d.skip(0) =~= d);
    assert(dict_view(out@) =~= d.take(0));
    while i < es.len() && !same_text(&es[i].0, &key) && !text_less(&key, &es[i].0)
        invariant
            i <= es.len(),
            d == dict_view(es@),
            dict_view(out@) == d.take(i as int),
            dict_insert(d, key@, value@) == d.take(i as int) + dict_insert(d.skip(i as int), key@, value@),
        decreases es.len() - i,
    {
        proof {
            let rest = d.skip(i as int);
            assert(rest[0] == d[i as int]);
            assert(d[i as int] == (es@[i as int].0@, es@[i as int].1@));
            assert(rest.subrange(1, rest.len() as int) =~= d.skip(i + 1));
            assert(d.take(i + 1) =~= d.take(i as int) + seq![d[i as int]]);
        }
        let ghost before = out@;
        out.push((es[i].0.clone(), copy_value(&es[i].1)));
        proof {
            assert(dict_view(out@) =~= dict_view(before).push(d[i as int]));
        }
        i += 1;
    }
    let mut k = i;
    if k < es.len() && same_text(&es[k].0, &key) {
        k += 1;
    }
    let ghost j = k as int;
    proof {
        let rest = d.skip(i as int);
        if i < es.len() {
            assert(rest[0] == d[i as int]);
            assert(d[i as int] == (es@[i as int].0@, es@[i as int].1@));
        }
        assert(dict_insert(d.skip(i as int), key@, value@) =~= seq![(key@, value@)] + d.skip(j));
    }
    let ghost kv = (key@, value@);
    let ghost before = out@;
    out.push((key, value));
    proof {
        assert(dict_view(out@) =~= dict_view(before).push(kv));
        assert(dict_view(out@) =~= d.take(i as int) + seq![kv] + d.subrange(j, k as int));
    }
    while k < es.len()
        invariant
            i <= j <= k <= es.len(),
            d == dict_view(es@),
            dict_view(out@) == d.take(i as int) + seq![kv] + d.subrange(j, k as int),
        decreases es.len() - k,
    {
        proof {
            assert(d[k as int] == (es@[k as int].0@, es@[k as int].1@));
        }
        let ghost before = out@;
        out.push((es[k].0.clone(), copy_value(&es[k].1)));
        k += 1;
        proof {
            assert(dict_view(out@) =~= dict_view(before).push(d[k - 1]));
            assert(d.subrange(j, k as int) =~= d.subrange(j, k - 1).push(d[k - 1]));
        }
    }
    assert(d.subrange(j, es.len() as int) =~= d.skip(j));
    proof {
        if value_wf(ValueV::Dict(d)) && value_wf(kv.1) {
            law_dict_insert_keeps_value_wf(d, kv.0, kv.1);
            assert(dict_view(out@) == dict_insert(d, kv.0, kv.1));
            assert(value_wf(ValueV::Dict(dict_view(out@))));
        }
    }
    out
}

} // verus!
