//! Runtime values and their mathematical view.
use vstd::prelude::*;
use crate::run_spec::ValueV;

verus! {

/// A value of the language.
#[derive(Debug)]
pub enum Value {
    Int(i64),
    Str(String),
    Bool(bool),
    Array(Vec<Value>),
    /// Entries by key. The interpreter keeps the keys unique and in increasing order;
    /// printing sorts the entries by key whatever order they are stored in.
    Dict(Vec<(String, Value)>),
}

pub open spec fn values_view(s: Seq<Value>) -> Seq<ValueV>
    decreases s,
{
    if s.len() == 0 {
        Seq::empty()
    } else {
        values_view(s.drop_last()).push(s.last().view())
    }
}

pub open spec fn dict_view(s: Seq<(String, Value)>) -> Seq<(Seq<char>, ValueV)>
    decreases s,
{
    if s.len() == 0 {
        Seq::empty()
    } else {
        dict_view(s.drop_last()).push((s.last().0@, s.last().1.view()))
    }
}

impl View for Value {
    type V = ValueV;

    open spec fn view(&self) -> ValueV
        decreases self,
    {
        match self {
            Value::Int(i) => ValueV::Int(*i),
            Value::Str(s) => ValueV::Str(s@),
            Value::Bool(b) => ValueV::Bool(*b),
            Value::Array(vs) => ValueV::Array(values_view(vs@)),
            Value::Dict(es) => ValueV::Dict(dict_view(es@)),
        }
    }
}

pub broadcast proof fn lemma_values_view(s: Seq<Value>)
    ensures
        #[trigger] values_view(s).len() == s.len(),
        forall|i: int| 0 <= i < s.len() ==> #[trigger] values_view(s)[i] == s[i]@,
    decreases s.len(),
{
    if s.len() > 0 {
        lemma_values_view(s.drop_last());
        assert(values_view(s) == values_view(s.drop_last()).push(s.last()@));
    }
}

pub broadcast proof fn lemma_dict_view(s: Seq<(String, Value)>)
    ensures
        #[trigger] dict_view(s).len() == s.len(),
        forall|i: int| 0 <= i < s.len() ==> #[trigger] dict_view(s)[i] == (s[i].0@, s[i].1@),
    decreases s.len(),
{
    if s.len() > 0 {
        lemma_dict_view(s.drop_last());
        assert(dict_view(s) == dict_view(s.drop_last()).push((s.last().0@, s.last().1@)));
    }
}

pub proof fn lemma_values_view_push(s: Seq<Value>, v: Value)
    ensures
        values_view(s.push(v)) == values_view(s).push(v@),
{
    assert(s.push(v).drop_last() =~= s);
}

pub broadcast group group_value_views {
    lemma_values_view,
    lemma_dict_view,
}

} // verus!
