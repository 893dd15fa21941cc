//! What running a program does, as functions on the syntax tree's view.
//!
//! A run reads and changes a state: the variable scopes (innermost last), the
//! functions by name, the text printed so far, and the answers that the host
//! gave to the requests made so far. A request that has no answer yet stops
//! the run, which can be replayed once the answer is known. Every rule is
//! given a budget `n`: a call runs its body with one less, and a loop makes
//! at most `n` rounds; when the budget is spent the run stops with an error.
use vstd::prelude::*;
use crate::ast::{BinaryOp, ExprV, FunctionV, ItemV, ProgramV, StmtV, UnaryOp, VarDeclV, AssignmentV};
use crate::lexer::digits_value;
use crate::text::{bool_text, clean_type_text, contains_text, has_char, has_prefix, int_decimal, is_digit, nat_decimal, text_lt};

verus! {

/// A value of the language; a dictionary's keys are kept in increasing order.
pub enum ValueV {
    Int(i64),
    Str(Seq<char>),
    Bool(bool),
    Array(Seq<ValueV>),
    Dict(Seq<(Seq<char>, ValueV)>),
}

/// Something only the host can do.
pub enum RequestV {
    ReadLine,
    Run { program: Seq<char>, args: Seq<Seq<char>> },
    Capture { program: Seq<char>, args: Seq<Seq<char>> },
    GetEnv(Seq<char>),
    SetEnv(Seq<char>, Seq<char>),
    ReadFile(Seq<char>),
    WriteFile(Seq<char>, Seq<char>),
    Exists(Seq<char>),
    Sleep(i64),
    CurrentDir,
}

/// The host's answer to a request.
pub enum ReplyV {
    Text(Seq<char>),
    Int(i64),
    Flag(bool),
    Failed(Seq<char>),
}

/// Why a run stopped early: an error, or a request that awaits its answer.
pub enum Stop {
    Error(Seq<char>),
    Wait(RequestV),
}

/// How a statement ends.
pub enum SignalV {
    Normal,
    Return(ValueV),
    Break,
    Continue,
}

pub struct RunState {
    pub scopes: Seq<Seq<(Seq<char>, ValueV)>>,
    pub functions: Seq<(Seq<char>, int)>,
    pub output: Seq<char>,
    pub replies: Seq<ReplyV>,
    pub next_reply: int,
}

/// An early stop, with the text printed up to it.
pub type Halt = (Stop, Seq<char>);

pub type Step<T> = Result<(T, RunState), Halt>;

/// An error stop in state `st`.
pub open spec fn fail<T>(st: RunState, m: Seq<char>) -> Step<T> {
    Err((Stop::Error(m), st.output))
}

pub open spec fn limit_message() -> Seq<char> {
    "Execution step limit reached."@
}

pub open spec fn mismatch_message() -> Seq<char> {
    "Host reply does not match the request."@
}

pub open spec fn value_type(v: ValueV) -> Seq<char> {
    match v {
        ValueV::Int(_) => "int"@,
        ValueV::Str(_) => "str"@,
        ValueV::Bool(_) => "bool"@,
        ValueV::Array(_) => "arr"@,
        ValueV::Dict(_) => "dict"@,
    }
}

/// Texts joined with `, `.
pub open spec fn comma_joined(parts: Seq<Seq<char>>) -> Seq<char>
    decreases parts.len(),
{
    if parts.len() == 0 {
        Seq::empty()
    } else if parts.len() == 1 {
        parts[0]
    } else {
        comma_joined(parts.drop_last()) + ", "@ + parts.last()
    }
}

/// How `cons!` prints a value; a dictionary's entries are printed in increasing order of
/// their keys, whatever order they are stored in.
pub open spec fn output_text(v: ValueV) -> Seq<char>
    decreases v, 1nat,
{
    match v {
        ValueV::Int(i) => int_decimal(i as int),
        ValueV::Str(s) => s,
        ValueV::Bool(b) => bool_text(b),
        ValueV::Array(vs) => "["@ + comma_joined(outputs_text(vs)) + "]"@,
        ValueV::Dict(es) => "{"@ + comma_joined(keyed_texts(sort_keyed(entries_output(es)))) + "}"@,
    }
}

pub open spec fn outputs_text(vs: Seq<ValueV>) -> Seq<Seq<char>>
    decreases vs, 0nat,
{
    if vs.len() == 0 {
        Seq::empty()
    } else {
        outputs_text(vs.drop_last()).push(output_text(vs.last()))
    }
}

/// Each entry's key with its printed text `key: value`, in stored order.
pub open spec fn entries_output(es: Seq<(Seq<char>, ValueV)>) -> Seq<(Seq<char>, Seq<char>)>
    decreases es, 0nat,
{
    if es.len() == 0 {
        Seq::empty()
    } else {
        entries_output(es.drop_last()).push((es.last().0, es.last().0 + ": "@ + output_text(es.last().1)))
    }
}

/// `e` inserted into `s` before the first entry whose key sorts after its own.
pub open spec fn insert_keyed(s: Seq<(Seq<char>, Seq<char>)>, e: (Seq<char>, Seq<char>)) -> Seq<(Seq<char>, Seq<char>)>
    decreases s.len(),
{
    if s.len() == 0 {
        seq![e]
    } else if text_lt(e.0, s[0].0) {
        seq![e] + s
    } else {
        seq![s[0]] + insert_keyed(s.subrange(1, s.len() as int), e)
    }
}

/// The entries sorted by key, in increasing order; entries with equal keys keep their order.
pub open spec fn sort_keyed(s: Seq<(Seq<char>, Seq<char>)>) -> Seq<(Seq<char>, Seq<char>)>
    decreases s.len(),
{
    if s.len() == 0 {
        Seq::empty()
    } else {
        insert_keyed(sort_keyed(s.drop_last()), s.last())
    }
}

/// The printed texts of keyed entries.
pub open spec fn keyed_texts(s: Seq<(Seq<char>, Seq<char>)>) -> Seq<Seq<char>> {
    s.map_values(|p: (Seq<char>, Seq<char>)| p.1)
}

/// The entry of `key` in a dictionary.
pub open spec fn dict_get(es: Seq<(Seq<char>, ValueV)>, key: Seq<char>) -> Option<ValueV>
    decreases es.len(),
{
    if es.len() == 0 {
        None
    } else if es.last().0 == key {
        Some(es.last().1)
    } else {
        dict_get(es.drop_last(), key)
    }
}

/// A dictionary with `key` set to `value`; keys stay in increasing order.
pub open spec fn dict_insert(es: Seq<(Seq<char>, ValueV)>, key: Seq<char>, value: ValueV) -> Seq<(Seq<char>, ValueV)>
    decreases es.len(),
{
    if es.len() == 0 {
        seq![(key, value)]
    } else if es[0].0 == key {
        es.update(0, (key, value))
    } else if text_lt(key, es[0].0) {
        seq![(key, value)] + es
    } else {
        seq![es[0]] + dict_insert(es.subrange(1, es.len() as int), key, value)
    }
}

/// Whether a value has the type a type name denotes.
pub open spec fn type_matches(ty: Seq<char>, v: ValueV) -> bool {
    let t = clean_type_text(ty);
    if t == "int"@ {
        v is Int
    } else if t == "str"@ {
        v is Str
    } else if t == "bool"@ {
        v is Bool
    } else if t == "arr"@ || has_prefix(t, "arr_"@) {
        v is Array
    } else if t == "dict"@ || has_prefix(t, "dict_"@) {
        v is Dict
    } else {
        false
    }
}

/// The binding of `n` in one scope (the latest one).
pub open spec fn scope_get(scope: Seq<(Seq<char>, ValueV)>, n: Seq<char>) -> Option<ValueV>
    decreases scope.len(),
{
    if scope.len() == 0 {
        None
    } else if scope.last().0 == n {
        Some(scope.last().1)
    } else {
        scope_get(scope.drop_last(), n)
    }
}

/// The binding of `n` in the innermost scope that has one.
pub open spec fn var_get(scopes: Seq<Seq<(Seq<char>, ValueV)>>, n: Seq<char>) -> Option<ValueV>
    decreases scopes.len(),
{
    if scopes.len() == 0 {
        None
    } else {
        match scope_get(scopes.last(), n) {
            Some(v) => Some(v),
            None => var_get(scopes.drop_last(), n),
        }
    }
}

/// A scope with its latest binding of `n` replaced.
pub open spec fn scope_set(scope: Seq<(Seq<char>, ValueV)>, n: Seq<char>, v: ValueV) -> Seq<(Seq<char>, ValueV)>
    decreases scope.len(),
{
    if scope.len() == 0 {
        scope
    } else if scope.last().0 == n {
        scope.drop_last().push((n, v))
    } else {
        scope_set(scope.drop_last(), n, v).push(scope.last())
    }
}

/// The scopes with the binding of `n` in the innermost scope that has one replaced.
pub open spec fn var_set(scopes: Seq<Seq<(Seq<char>, ValueV)>>, n: Seq<char>, v: ValueV) -> Seq<Seq<(Seq<char>, ValueV)>>
    decreases scopes.len(),
{
    if scopes.len() == 0 {
        scopes
    } else if scope_get(scopes.last(), n) is Some {
        scopes.drop_last().push(scope_set(scopes.last(), n, v))
    } else {
        var_set(scopes.drop_last(), n, v).push(scopes.last())
    }
}

/// Declares `n` in the innermost scope, if there is one.
pub open spec fn define(st: RunState, n: Seq<char>, v: ValueV) -> RunState {
    if st.scopes.len() == 0 {
        st
    } else {
        RunState { scopes: st.scopes.update(st.scopes.len() - 1, st.scopes.last().push((n, v))), ..st }
    }
}

pub open spec fn set_var(st: RunState, n: Seq<char>, v: ValueV) -> RunState {
    RunState { scopes: var_set(st.scopes, n, v), ..st }
}

pub open spec fn push_scope(st: RunState) -> RunState {
    RunState { scopes: st.scopes.push(Seq::empty()), ..st }
}

pub open spec fn pop_scope(st: RunState) -> RunState {
    if st.scopes.len() > 0 {
        RunState { scopes: st.scopes.drop_last(), ..st }
    } else {
        st
    }
}

pub open spec fn print(st: RunState, text: Seq<char>) -> RunState {
    RunState { output: st.output + text, ..st }
}

/// The index of the function item registered under `n` (the last one so named).
pub open spec fn function_index(fs: Seq<(Seq<char>, int)>, n: Seq<char>) -> Option<int>
    decreases fs.len(),
{
    if fs.len() == 0 {
        None
    } else if fs.last().0 == n {
        Some(fs.last().1)
    } else {
        function_index(fs.drop_last(), n)
    }
}

/// The answer to a request, or a stop that asks for it.
pub open spec fn ask(st: RunState, req: RequestV) -> Step<ReplyV> {
    if 0 <= st.next_reply < st.replies.len() {
        Ok((st.replies[st.next_reply], RunState { next_reply: st.next_reply + 1, ..st }))
    } else {
        Err((Stop::Wait(req), st.output))
    }
}

pub open spec fn unary_value(op: UnaryOp, v: ValueV) -> Result<ValueV, Seq<char>> {
    match op {
        UnaryOp::Not => match v {
            ValueV::Bool(b) => Ok(ValueV::Bool(!b)),
            other => Err("! expected bool, got "@ + value_type(other) + "."@),
        },
        UnaryOp::Neg => match v {
            ValueV::Int(i) => Ok(ValueV::Int(0i64.wrapping_sub(i))),
            other => Err("- expected int, got "@ + value_type(other) + "."@),
        },
    }
}

pub open spec fn index_value(target: ValueV, index: ValueV) -> Result<ValueV, Seq<char>> {
    match target {
        ValueV::Array(vs) => match index {
            ValueV::Int(i) => if i < 0 {
                Err("Array index cannot be negative."@)
            } else if i < vs.len() {
                Ok(vs[i as int])
            } else {
                Err("Array index out of bounds: "@ + int_decimal(i as int))
            },
            other => Err("Array index must be int, got "@ + value_type(other) + "."@),
        },
        ValueV::Dict(es) => match index {
            ValueV::Str(k) => match dict_get(es, k) {
                Some(v) => Ok(v),
                None => Err("Dictionary key not found: '"@ + k + "'."@),
            },
            other => Err("Dictionary index must be str, got "@ + value_type(other) + "."@),
        },
        other => Err("Cannot index value of type "@ + value_type(other) + "."@),
    }
}

/// The name of an operator as `{:?}` prints it.
pub open spec fn op_name(op: BinaryOp) -> Seq<char> {
    match op {
        BinaryOp::Add => "Add"@,
        BinaryOp::Sub => "Sub"@,
        BinaryOp::Mul => "Mul"@,
        BinaryOp::Div => "Div"@,
        BinaryOp::Eq => "Eq"@,
        BinaryOp::NotEq => "NotEq"@,
        BinaryOp::Less => "Less"@,
        BinaryOp::Greater => "Greater"@,
        BinaryOp::LessEq => "LessEq"@,
        BinaryOp::GreaterEq => "GreaterEq"@,
        BinaryOp::And => "And"@,
        BinaryOp::Or => "Or"@,
    }
}

/// A binary operator other than `&&` and `||` on two values; integers wrap around.
pub open spec fn binary_value(l: ValueV, op: BinaryOp, r: ValueV) -> Result<ValueV, Seq<char>> {
    let invalid = Err(
        "Invalid binary operation: "@ + value_type(l) + " "@ + op_name(op) + " "@ + value_type(r)
            + "."@,
    );
    match (l, op, r) {
        (ValueV::Int(a), BinaryOp::Add, ValueV::Int(b)) => Ok(ValueV::Int(a.wrapping_add(b))),
        (ValueV::Int(a), BinaryOp::Sub, ValueV::Int(b)) => Ok(ValueV::Int(a.wrapping_sub(b))),
        (ValueV::Int(a), BinaryOp::Mul, ValueV::Int(b)) => Ok(ValueV::Int(a.wrapping_mul(b))),
        (ValueV::Int(a), BinaryOp::Div, ValueV::Int(b)) => if b == 0 {
            Err("Cannot divide by zero."@)
        } else {
            match a.checked_div(b) {
                Some(q) => Ok(ValueV::Int(q)),
                None => Err("Integer overflow in division."@),
            }
        },
        (ValueV::Str(a), BinaryOp::Add, ValueV::Str(b)) => Ok(ValueV::Str(a + b)),
        (ValueV::Str(a), BinaryOp::Add, b) => Ok(ValueV::Str(a + output_text(b))),
        (a, BinaryOp::Add, ValueV::Str(b)) => Ok(ValueV::Str(output_text(a) + b)),
        (a, BinaryOp::Eq, b) => Ok(ValueV::Bool(a == b)),
        (a, BinaryOp::NotEq, b) => Ok(ValueV::Bool(a != b)),
        (ValueV::Int(a), BinaryOp::Less, ValueV::Int(b)) => Ok(ValueV::Bool(a < b)),
        (ValueV::Int(a), BinaryOp::Greater, ValueV::Int(b)) => Ok(ValueV::Bool(a > b)),
        (ValueV::Int(a), BinaryOp::LessEq, ValueV::Int(b)) => Ok(ValueV::Bool(a <= b)),
        (ValueV::Int(a), BinaryOp::GreaterEq, ValueV::Int(b)) => Ok(ValueV::Bool(a >= b)),
        _ => invalid,
    }
}

/// `str::to_lowercase` of a text.
pub uninterp spec fn lowercased(s: Seq<char>) -> Seq<char>;

/// `str::to_uppercase` of a text.
pub uninterp spec fn uppercased(s: Seq<char>) -> Seq<char>;

/// `str::trim` of a text.
pub uninterp spec fn trimmed(s: Seq<char>) -> Seq<char>;

/// `str::trim_end` of a text.
pub uninterp spec fn trimmed_end(s: Seq<char>) -> Seq<char>;

/// `str::parse::<i64>`: an optional `+` or `-`, then one or more decimal digits and
/// nothing else, whose value fits in `i64`.
pub open spec fn parsed_int(s: Seq<char>) -> Option<i64> {
    let digits = s.skip(sign_len(s));
    let value: int = if sign_len(s) == 1 && s[0] == '-' {
        -digits_value(digits)
    } else {
        digits_value(digits) as int
    };
    if digits.len() > 0 && all_digits(digits) && i64::MIN <= value <= i64::MAX {
        Some(value as i64)
    } else {
        None
    }
}

/// 1 when the text starts with `+` or `-`, else 0.
pub open spec fn sign_len(s: Seq<char>) -> int {
    if s.len() > 0 && (s[0] == '+' || s[0] == '-') {
        1
    } else {
        0
    }
}

/// Every character is an ASCII decimal digit.
pub open spec fn all_digits(d: Seq<char>) -> bool {
    forall|i: int| 0 <= i < d.len() ==> is_digit(#[trigger] d[i])
}

/// `str::to_lowercase`: the Unicode lowercase mapping of each character. Its
/// result is named, not stated.
#[verifier::external_body]
pub(crate) fn to_lower(s: &str) -> (r: String)
    ensures
        r@ == lowercased(s@),
{
    s.to_lowercase()
}

/// `str::to_uppercase`: the Unicode uppercase mapping of each character. Its
/// result is named, not stated.
#[verifier::external_body]
pub(crate) fn to_upper(s: &str) -> (r: String)
    ensures
        r@ == uppercased(s@),
{
    s.to_uppercase()
}

/// `str::trim`: the text without leading and trailing Unicode white space. Its
/// result is named, not stated.
#[verifier::external_body]
pub(crate) fn trim_text(s: &str) -> (r: String)
    ensures
        r@ == trimmed(s@),
{
    s.trim().to_string()
}

/// `str::trim_end`: the text without trailing Unicode white space. Its result is
/// named, not stated.
#[verifier::external_body]
pub(crate) fn trim_end_text(s: &str) -> (r: String)
    ensures
        r@ == trimmed_end(s@),
{
    s.trim_end().to_string()
}

proof fn lemma_digits_value_grows(d: Seq<char>, k: int)
    requires
        0 <= k <= d.len(),
        all_digits(d),
    ensures
        digits_value(d.take(k)) <= digits_value(d),
    decreases d.len() - k,
{
    if k < d.len() {
        lemma_digits_value_grows(d, k + 1);
        assert(d.take(k + 1).drop_last() =~= d.take(k));
        assert(d.take(k + 1).last() == d[k]);
        assert(is_digit(d[k]));
    } else {
        assert(d.take(k) =~= d);
    }
}

/// The integer a text spells: an optional `+` or `-`, then decimal digits and nothing
/// else, with a value that fits in `i64` (what `str::parse::<i64>` accepts).
pub(crate) fn parse_int(s: &str) -> (r: Option<i64>)
    ensures
        r == parsed_int(s@),
{
    let v = crate::text::chars_of(s);
    let signed = v.len() > 0 && (v[0] == '+' || v[0] == '-');
    let negative = signed && v[0] == '-';
    let start: usize = if signed { 1 } else { 0 };
    let ghost digits = s@.skip(sign_len(s@));
    assert(digits =~= v@.skip(start as int));
    if start >= v.len() {
        return None;
    }
    let limit: i128 = 9223372036854775808;
    let mut acc: i128 = 0;
    let mut i: usize = start;
    assert(digits.take(0) =~= Seq::<char>::empty());
    while i < v.len()
        invariant
            start <= i <= v.len(),
            v@ == s@,
            digits =~= v@.skip(start as int),
            forall|j: int| 0 <= j < i - start ==> is_digit(#[trigger] digits[j]),
            acc == digits_value(digits.take(i - start)),
            0 <= acc <= limit,
            signed == (s@.len() > 0 && (s@[0] == '+' || s@[0] == '-')),
            negative == (signed && s@[0] == '-'),
            start == (if signed { 1usize } else { 0usize }),
            digits == s@.skip(sign_len(s@)),
            start == sign_len(s@),
            limit == 9223372036854775808,
        decreases v.len() - i,
    {
        let c = v[i];
        assert(digits[i - start] == c);
        if !('0' <= c && c <= '9') {
            assert(!is_digit(digits[i - start]));
            assert(!all_digits(digits));
            return None;
        }
        assert(digits.take(i - start + 1).drop_last() =~= digits.take(i - start));
        acc = acc * 10 + ((c as u32) - ('0' as u32)) as i128;
        i += 1;
        if acc > limit {
            proof {
                if all_digits(digits) {
                    lemma_digits_value_grows(digits, i - start);
                }
            }
            return None;
        }
    }
    assert(digits.take(i - start) =~= digits);
    assert(acc == digits_value(digits));
    if negative {
        Some((0 - acc) as i64)
    } else if acc < limit {
        Some(acc as i64)
    } else {
        None
    }
}

/// "`name`() expects `k` argument(s)."
pub open spec fn arity_message(name: Seq<char>, k: nat) -> Seq<char> {
    name + "() expects "@ + nat_decimal(k) + if k == 1 {
        " argument."@
    } else {
        " arguments."@
    }
}

/// "`context` must be `what`, got `type`."
pub open spec fn must_be(context: Seq<char>, what: Seq<char>, v: ValueV) -> Seq<char> {
    context + " must be "@ + what + ", got "@ + value_type(v) + "."@
}

pub open spec fn reply_text(r: ReplyV) -> Result<Seq<char>, Seq<char>> {
    match r {
        ReplyV::Text(t) => Ok(t),
        ReplyV::Failed(m) => Err(m),
        _ => Err(mismatch_message()),
    }
}

pub open spec fn reply_int(r: ReplyV) -> Result<i64, Seq<char>> {
    match r {
        ReplyV::Int(i) => Ok(i),
        ReplyV::Failed(m) => Err(m),
        _ => Err(mismatch_message()),
    }
}

pub open spec fn reply_flag(r: ReplyV) -> Result<bool, Seq<char>> {
    match r {
        ReplyV::Flag(b) => Ok(b),
        ReplyV::Failed(m) => Err(m),
        _ => Err(mismatch_message()),
    }
}

/// Asks the host and turns a text answer into a string value.
pub open spec fn ask_text(st: RunState, req: RequestV) -> Step<ValueV> {
    match ask(st, req) {
        Err(s) => Err(s),
        Ok((r, st1)) => match reply_text(r) {
            Ok(t) => Ok((ValueV::Str(t), st1)),
            Err(m) => fail(st1, m),
        },
    }
}

/// Asks the host and turns a flag answer into a boolean value (`keep`), or into `true`.
pub open spec fn ask_flag(st: RunState, req: RequestV, keep: bool) -> Step<ValueV> {
    match ask(st, req) {
        Err(s) => Err(s),
        Ok((r, st1)) => match reply_flag(r) {
            Ok(b) => Ok((ValueV::Bool(if keep { b } else { true }), st1)),
            Err(m) => fail(st1, m),
        },
    }
}

/// `input_str` and `input_int`: print the prompt, read a line.
pub open spec fn input_value(st: RunState, name: Seq<char>, args: Seq<ValueV>) -> Step<ValueV> {
    if args.len() != 1 {
        fail(st, arity_message(name, 1))
    } else {
        match args[0] {
            ValueV::Str(p) => match ask(print(st, p), RequestV::ReadLine) {
                Err(s) => Err(s),
                Ok((r, st1)) => match reply_text(r) {
                    Err(m) => fail(st1, m),
                    Ok(line) => if name == "input_str"@ {
                        Ok((ValueV::Str(trimmed_end(line)), st1))
                    } else {
                        let t = trimmed(line);
                        match parsed_int(t) {
                            Some(k) => Ok((ValueV::Int(k), st1)),
                            None => fail(st1, "input_int() expected a valid integer, got '"@ + t + "'."@),
                        }
                    },
                },
            },
            other => fail(st, name + "() prompt must be str, got "@ + value_type(other) + "."@),
        }
    }
}

/// `lower`, `upper` and `trim`.
pub open spec fn text_value(name: Seq<char>, args: Seq<ValueV>) -> Result<ValueV, Seq<char>> {
    if args.len() != 1 {
        Err(arity_message(name, 1))
    } else {
        match args[0] {
            ValueV::Str(s) => Ok(
                ValueV::Str(
                    if name == "lower"@ {
                        lowercased(s)
                    } else if name == "upper"@ {
                        uppercased(s)
                    } else {
                        trimmed(s)
                    },
                ),
            ),
            other => Err(name + "() expected str, got "@ + value_type(other) + "."@),
        }
    }
}

/// `os_run` and `os_capture`: a program and its arguments, which are printed as text.
pub open spec fn command_value(st: RunState, name: Seq<char>, args: Seq<ValueV>) -> Step<ValueV> {
    if args.len() != 2 {
        fail(st, arity_message(name, 2))
    } else {
        match args[0] {
            ValueV::Str(program) => match args[1] {
                ValueV::Array(vs) => {
                    let texts = outputs_text(vs);
                    if name == "os_run"@ {
                        match ask(st, RequestV::Run { program, args: texts }) {
                            Err(s) => Err(s),
                            Ok((r, st1)) => match reply_int(r) {
                                Ok(code) => Ok((ValueV::Int(code), st1)),
                                Err(m) => fail(st1, m),
                            },
                        }
                    } else {
                        ask_text(st, RequestV::Capture { program, args: texts })
                    }
                },
                other => fail(st, name + " arguments must be arr, got "@ + value_type(other) + "."@),
            },
            other => fail(st, must_be(name + " program"@, "str"@, other)),
        }
    }
}

/// The builtins that touch the environment, files, time and the working directory.
pub open spec fn os_value(st: RunState, name: Seq<char>, args: Seq<ValueV>) -> Step<ValueV> {
    if name == "os_get_env"@ {
        if args.len() != 1 {
            fail(st, arity_message(name, 1))
        } else {
            match args[0] {
                ValueV::Str(n) => ask_text(st, RequestV::GetEnv(n)),
                other => fail(st, must_be("os_get_env name"@, "str"@, other)),
            }
        }
    } else if name == "os_set_env"@ {
        if args.len() != 2 {
            fail(st, arity_message(name, 2))
        } else {
            match args[0] {
                ValueV::Str(n) => match args[1] {
                    ValueV::Str(v) => if has_char(n, '\0') || has_char(v, '\0') {
                        fail(st, "os_set_env() values cannot contain NUL bytes."@)
                    } else {
                        ask_flag(st, RequestV::SetEnv(n, v), false)
                    },
                    other => fail(st, must_be("os_set_env value"@, "str"@, other)),
                },
                other => fail(st, must_be("os_set_env name"@, "str"@, other)),
            }
        }
    } else if name == "os_read_file"@ {
        if args.len() != 1 {
            fail(st, arity_message(name, 1))
        } else {
            match args[0] {
                ValueV::Str(p) => ask_text(st, RequestV::ReadFile(p)),
                other => fail(st, must_be("os_read_file path"@, "str"@, other)),
            }
        }
    } else if name == "os_write_file"@ {
        if args.len() != 2 {
            fail(st, arity_message(name, 2))
        } else {
            match args[0] {
                ValueV::Str(p) => match args[1] {
                    ValueV::Str(c) => ask_flag(st, RequestV::WriteFile(p, c), false),
                    other => fail(st, must_be("os_write_file content"@, "str"@, other)),
                },
                other => fail(st, must_be("os_write_file path"@, "str"@, other)),
            }
        }
    } else if name == "os_exists"@ {
        if args.len() != 1 {
            fail(st, arity_message(name, 1))
        } else {
            match args[0] {
                ValueV::Str(p) => ask_flag(st, RequestV::Exists(p), true),
                other => fail(st, must_be("os_exists path"@, "str"@, other)),
            }
        }
    } else if name == "os_sleep"@ {
        if args.len() != 1 {
            fail(st, arity_message(name, 1))
        } else {
            match args[0] {
                ValueV::Int(ms) => if ms < 0 {
                    fail(st, "os_sleep() duration cannot be negative."@)
                } else {
                    ask_flag(st, RequestV::Sleep(ms), false)
                },
                other => fail(st, must_be("os_sleep milliseconds"@, "int"@, other)),
            }
        }
    } else {
        if args.len() != 0 {
            fail(st, arity_message(name, 0))
        } else {
            ask_text(st, RequestV::CurrentDir)
        }
    }
}

pub open spec fn is_os_builtin(name: Seq<char>) -> bool {
    name == "os_get_env"@ || name == "os_set_env"@ || name == "os_read_file"@ || name
        == "os_write_file"@ || name == "os_exists"@ || name == "os_sleep"@ || name
        == "os_current_dir"@
}

/// The result of a builtin call (`None` when `name` is no builtin).
pub open spec fn builtin_value(st: RunState, name: Seq<char>, args: Seq<ValueV>) -> Option<Step<ValueV>> {
    if name == "len"@ {
        Some(
            if args.len() != 1 {
                fail(st, arity_message(name, 1))
            } else {
                match args[0] {
                    ValueV::Str(s) => Ok((ValueV::Int(s.len() as i64), st)),
                    ValueV::Array(vs) => Ok((ValueV::Int(vs.len() as i64), st)),
                    ValueV::Dict(es) => Ok((ValueV::Int(es.len() as i64), st)),
                    other => fail(st, "len() does not support "@ + value_type(other) + "."@),
                }
            },
        )
    } else if name == "input_str"@ || name == "input_int"@ {
        Some(input_value(st, name, args))
    } else if name == "lower"@ || name == "upper"@ || name == "trim"@ {
        Some(
            match text_value(name, args) {
                Ok(v) => Ok((v, st)),
                Err(m) => fail(st, m),
            },
        )
    } else if name == "contains"@ {
        Some(
            if args.len() != 2 {
                fail(st, arity_message(name, 2))
            } else {
                match (args[0], args[1]) {
                    (ValueV::Str(a), ValueV::Str(b)) => Ok((ValueV::Bool(contains_text(a, b)), st)),
                    (a, b) => fail(st, 
                        "contains() expected str, str, got "@ + value_type(a) + ", "@ + value_type(b)
                            + "."@,
                    ),
                }
            },
        )
    } else if name == "os_run"@ || name == "os_capture"@ {
        Some(command_value(st, name, args))
    } else if is_os_builtin(name) {
        Some(os_value(st, name, args))
    } else {
        None
    }
}

/// The value of an expression.
pub open spec fn eval(p: ProgramV, n: nat, st: RunState, e: ExprV) -> Step<ValueV>
    decreases n, 0nat, e, 1nat, 0nat,
{
    match e {
        ExprV::Int(v) => Ok((ValueV::Int(v), st)),
        ExprV::Str(s) => Ok((ValueV::Str(s), st)),
        ExprV::Bool(b) => Ok((ValueV::Bool(b), st)),
        ExprV::Ident(name) => match var_get(st.scopes, name) {
            Some(v) => Ok((v, st)),
            None => fail(st, "Undefined variable '"@ + name + "'."@),
        },
        ExprV::ArrayLiteral(es) => match eval_list(p, n, st, es) {
            Err(s) => Err(s),
            Ok((vs, st1)) => Ok((ValueV::Array(vs), st1)),
        },
        ExprV::DictLiteral(pairs) => match eval_entries(p, n, st, pairs) {
            Err(s) => Err(s),
            Ok((es, st1)) => Ok((ValueV::Dict(es), st1)),
        },
        ExprV::Index { target, index } => match eval(p, n, st, *target) {
            Err(s) => Err(s),
            Ok((t, st1)) => match eval(p, n, st1, *index) {
                Err(s) => Err(s),
                Ok((i, st2)) => match index_value(t, i) {
                    Ok(v) => Ok((v, st2)),
                    Err(m) => fail(st2, m),
                },
            },
        },
        ExprV::Call { name, args } => match eval_list(p, n, st, args) {
            Err(s) => Err(s),
            Ok((vs, st1)) => match builtin_value(st1, name, vs) {
                Some(r) => r,
                None => if n == 0 {
                    fail(st1, limit_message())
                } else {
                    call_user(p, (n - 1) as nat, st1, name, vs)
                },
            },
        },
        ExprV::Unary { op, expr } => match eval(p, n, st, *expr) {
            Err(s) => Err(s),
            Ok((v, st1)) => match unary_value(op, v) {
                Ok(r) => Ok((r, st1)),
                Err(m) => fail(st1, m),
            },
        },
        ExprV::Binary { left, op, right } => match eval(p, n, st, *left) {
            Err(s) => Err(s),
            Ok((l, st1)) => if op == BinaryOp::And || op == BinaryOp::Or {
                let sym = if op == BinaryOp::And { "&&"@ } else { "||"@ };
                match l {
                    ValueV::Bool(b) => if b == (op == BinaryOp::Or) {
                        Ok((ValueV::Bool(b), st1))
                    } else {
                        match eval(p, n, st1, *right) {
                            Err(s) => Err(s),
                            Ok((r, st2)) => match r {
                                ValueV::Bool(c) => Ok((ValueV::Bool(c), st2)),
                                other => fail(st2, must_be(sym + " right side"@, "bool"@, other)),
                            },
                        }
                    },
                    other => fail(st1, must_be(sym + " left side"@, "bool"@, other)),
                }
            } else {
                match eval(p, n, st1, *right) {
                    Err(s) => Err(s),
                    Ok((r, st2)) => match binary_value(l, op, r) {
                        Ok(v) => Ok((v, st2)),
                        Err(m) => fail(st2, m),
                    },
                }
            },
        },
    }
}

/// The values of expressions, evaluated in order.
pub open spec fn eval_list(p: ProgramV, n: nat, st: RunState, es: Seq<ExprV>) -> Step<Seq<ValueV>>
    decreases n, 0nat, es, 0nat, 0nat,
{
    if es.len() == 0 {
        Ok((Seq::empty(), st))
    } else {
        match eval_list(p, n, st, es.drop_last()) {
            Err(s) => Err(s),
            Ok((vs, st1)) => match eval(p, n, st1, es.last()) {
                Err(s) => Err(s),
                Ok((v, st2)) => Ok((vs.push(v), st2)),
            },
        }
    }
}

/// The dictionary of a literal, its values evaluated in order; a later key wins.
pub open spec fn eval_entries(p: ProgramV, n: nat, st: RunState, pairs: Seq<(Seq<char>, ExprV)>) -> Step<Seq<(Seq<char>, ValueV)>>
    decreases n, 0nat, pairs, 0nat, 0nat,
{
    if pairs.len() == 0 {
        Ok((Seq::empty(), st))
    } else {
        match eval_entries(p, n, st, pairs.drop_last()) {
            Err(s) => Err(s),
            Ok((es, st1)) => match eval(p, n, st1, pairs.last().1) {
                Err(s) => Err(s),
                Ok((v, st2)) => Ok((dict_insert(es, pairs.last().0, v), st2)),
            },
        }
    }
}

/// Binds the first `k` parameters to the arguments, checking their types.
pub open spec fn bind_params(st: RunState, f: FunctionV, args: Seq<ValueV>, k: nat) -> Result<RunState, Seq<char>>
    decreases k,
{
    if k == 0 || k > f.params.len() || k > args.len() {
        Ok(st)
    } else {
        match bind_params(st, f, args, (k - 1) as nat) {
            Err(m) => Err(m),
            Ok(st1) => {
                let prm = f.params[k - 1];
                let v = args[k - 1];
                if !type_matches(prm.ty, v) {
                    Err(
                        "Function '"@ + f.name + "' parameter '"@ + prm.name + "' expected "@
                            + clean_type_text(prm.ty) + ", got "@ + value_type(v) + "."@,
                    )
                } else {
                    Ok(define(st1, prm.name, v))
                }
            },
        }
    }
}

/// The value a call returns, given how the function body ended.
pub open spec fn call_result(f: FunctionV, sig: SignalV, st: RunState) -> Step<ValueV> {
    match sig {
        SignalV::Return(v) => match f.return_type {
            Some(rt) => if !type_matches(rt, v) {
                fail(st, 
                    "Function '"@ + f.name + "' expected return type "@ + clean_type_text(rt)
                        + ", got "@ + value_type(v) + "."@,
                )
            } else {
                Ok((v, st))
            },
            None => Ok((v, st)),
        },
        SignalV::Normal => match f.return_type {
            Some(rt) => fail(st, 
                "Function '"@ + f.name + "' expected return type "@ + clean_type_text(rt)
                    + ", but returned nothing."@,
            ),
            None => Ok((ValueV::Bool(true), st)),
        },
        SignalV::Break => fail(st, "break used outside of loop."@),
        SignalV::Continue => fail(st, "continue used outside of loop."@),
    }
}

/// A call of a function of the program, by name.
pub open spec fn call_user(p: ProgramV, n: nat, st: RunState, name: Seq<char>, args: Seq<ValueV>) -> Step<ValueV>
    decreases n, 3nat, p, 0nat, 0nat,
{
    match function_index(st.functions, name) {
        None => fail(st, "Undefined function '"@ + name + "'."@),
        Some(i) => if 0 <= i < p.items.len() && p.items[i] is Function {
            let f = p.items[i]->Function_0;
            if f.params.len() != args.len() {
                fail(st, 
                    "Function '"@ + f.name + "' expected "@ + nat_decimal(f.params.len())
                        + " arguments, got "@ + nat_decimal(args.len()) + "."@,
                )
            } else {
                match bind_params(push_scope(st), f, args, args.len()) {
                    Err(m) => fail(st, m),
                    Ok(st1) => match exec_block(p, n, st1, f.body) {
                        Err(s) => Err(s),
                        Ok((sig, st2)) => call_result(f, sig, pop_scope(st2)),
                    },
                }
            }
        } else {
            fail(st, "Internal error: '"@ + name + "' is not a function."@)
        },
    }
}

/// A variable declaration: the value must have the declared type.
pub open spec fn declare(p: ProgramV, n: nat, st: RunState, d: VarDeclV) -> Step<()>
    decreases n, 1nat, d, 0nat, 0nat,
{
    match eval(p, n, st, d.value) {
        Err(s) => Err(s),
        Ok((v, st1)) => if !type_matches(d.ty, v) {
            fail(st1, 
                "Type mismatch for '"@ + d.name + "'. Expected "@ + clean_type_text(d.ty) + ", got "@
                    + value_type(v) + "."@,
            )
        } else {
            Ok(((), define(st1, d.name, v)))
        },
    }
}

/// An assignment: the new value must have the type of the old one.
pub open spec fn assign(p: ProgramV, n: nat, st: RunState, a: AssignmentV) -> Step<()>
    decreases n, 1nat, a, 0nat, 0nat,
{
    match eval(p, n, st, a.value) {
        Err(s) => Err(s),
        Ok((v, st1)) => match var_get(st1.scopes, a.name) {
            None => fail(st1, "Undefined variable '"@ + a.name + "'."@),
            Some(old) => if value_type(old) != value_type(v) {
                fail(st1, 
                    "Type mismatch assigning '"@ + a.name + "'. Expected "@ + value_type(old)
                        + ", got "@ + value_type(v) + "."@,
                )
            } else {
                Ok(((), set_var(st1, a.name, v)))
            },
        },
    }
}

/// A macro call: `cons!` prints, `push!` appends to an array, `set!` sets a dictionary key.
pub open spec fn run_macro(p: ProgramV, n: nat, st: RunState, name: Seq<char>, args: Seq<ExprV>) -> Step<()>
    decreases n, 1nat, args, 0nat, 0nat,
{
    if name == "cons"@ {
        if args.len() != 1 {
            fail(st, "cons!() expects 1 argument."@)
        } else {
            match eval(p, n, st, args[0]) {
                Err(s) => Err(s),
                Ok((v, st1)) => Ok(((), print(st1, output_text(v) + "\n"@))),
            }
        }
    } else if name == "push"@ {
        if args.len() != 2 {
            fail(st, "push!() expects 2 arguments."@)
        } else {
            match args[0] {
                ExprV::Ident(t) => match eval(p, n, st, args[1]) {
                    Err(s) => Err(s),
                    Ok((v, st1)) => match var_get(st1.scopes, t) {
                        None => fail(st1, "Undefined array variable '"@ + t + "'."@),
                        Some(ValueV::Array(vs)) => Ok(((), set_var(st1, t, ValueV::Array(vs.push(v))))),
                        Some(other) => fail(st1, "push!() expected arr, got "@ + value_type(other) + "."@),
                    },
                },
                _ => fail(st, "push!() first argument must be an array variable."@),
            }
        }
    } else if name == "set"@ {
        if args.len() != 3 {
            fail(st, "set!() expects 3 arguments."@)
        } else {
            match args[0] {
                ExprV::Ident(t) => match eval(p, n, st, args[1]) {
                    Err(s) => Err(s),
                    Ok((k, st1)) => match eval(p, n, st1, args[2]) {
                        Err(s) => Err(s),
                        Ok((v, st2)) => match k {
                            ValueV::Str(key) => match var_get(st2.scopes, t) {
                                None => fail(st2, "Undefined dictionary variable '"@ + t + "'."@),
                                Some(ValueV::Dict(es)) => Ok(
                                    ((), set_var(st2, t, ValueV::Dict(dict_insert(es, key, v)))),
                                ),
                                Some(other) => fail(st2, 
                                    "set!() expected dict, got "@ + value_type(other) + "."@,
                                ),
                            },
                            other => fail(st2, "set!() key must be str, got "@ + value_type(other) + "."@),
                        },
                    },
                },
                _ => fail(st, "set!() first argument must be a dictionary variable."@),
            }
        }
    } else {
        fail(st, "Unknown macro '"@ + name + "!'."@)
    }
}

/// How a statement ends, and the state after it.
pub open spec fn exec_stmt(p: ProgramV, n: nat, st: RunState, s: StmtV) -> Step<SignalV>
    decreases n, 2nat, s, 1nat, 0nat,
{
    match s {
        StmtV::VarDecl(d) => match declare(p, n, st, d) {
            Err(x) => Err(x),
            Ok((_, st1)) => Ok((SignalV::Normal, st1)),
        },
        StmtV::MacroCall { name, args } => match run_macro(p, n, st, name, args) {
            Err(x) => Err(x),
            Ok((_, st1)) => Ok((SignalV::Normal, st1)),
        },
        StmtV::FunctionCall { name, args } => match eval_list(p, n, st, args) {
            Err(x) => Err(x),
            Ok((vs, st1)) => {
                let r = match builtin_value(st1, name, vs) {
                    Some(r) => r,
                    None => if n == 0 {
                        fail(st1, limit_message())
                    } else {
                        call_user(p, (n - 1) as nat, st1, name, vs)
                    },
                };
                match r {
                    Err(x) => Err(x),
                    Ok((_, st2)) => Ok((SignalV::Normal, st2)),
                }
            },
        },
        StmtV::Assignment(a) => match assign(p, n, st, a) {
            Err(x) => Err(x),
            Ok((_, st1)) => Ok((SignalV::Normal, st1)),
        },
        StmtV::If { condition, then_body, else_body } => match eval(p, n, st, condition) {
            Err(x) => Err(x),
            Ok((c, st1)) => match c {
                ValueV::Bool(true) => match exec_block(p, n, push_scope(st1), then_body) {
                    Err(x) => Err(x),
                    Ok((sig, st2)) => Ok((sig, pop_scope(st2))),
                },
                ValueV::Bool(false) => match else_body {
                    Some(b) => match exec_block(p, n, push_scope(st1), b) {
                        Err(x) => Err(x),
                        Ok((sig, st2)) => Ok((sig, pop_scope(st2))),
                    },
                    None => Ok((SignalV::Normal, st1)),
                },
                other => fail(st1, "if condition must be bool, got "@ + value_type(other) + "."@),
            },
        },
        StmtV::While { .. } => while_rounds(p, n, st, s, n),
        StmtV::For { initializer, .. } => match declare(p, n, push_scope(st), initializer) {
            Err(x) => Err(x),
            Ok((_, st1)) => for_rounds(p, n, st1, s, n),
        },
        StmtV::ForEach { iterable, .. } => match eval(p, n, st, iterable) {
            Err(x) => Err(x),
            Ok((v, st1)) => match v {
                ValueV::Array(vs) => each_rounds(p, n, st1, s, vs, false, 0),
                ValueV::Dict(es) => each_rounds(
                    p,
                    n,
                    st1,
                    s,
                    es.map_values(|e: (Seq<char>, ValueV)| ValueV::Str(e.0)),
                    true,
                    0,
                ),
                other => fail(st1, "for-each expected arr or dict, got "@ + value_type(other) + "."@),
            },
        },
        StmtV::Break => Ok((SignalV::Break, st)),
        StmtV::Continue => Ok((SignalV::Continue, st)),
        StmtV::Return { value } => match eval(p, n, st, value) {
            Err(x) => Err(x),
            Ok((v, st1)) => Ok((SignalV::Return(v), st1)),
        },
    }
}

/// The rounds of a `while` loop, at most `left` more.
pub open spec fn while_rounds(p: ProgramV, n: nat, st: RunState, s: StmtV, left: nat) -> Step<SignalV>
    decreases n, 2nat, s, 0nat, left,
{
    match s {
        StmtV::While { condition, body } => if left == 0 {
            fail(st, limit_message())
        } else {
            match eval(p, n, st, condition) {
                Err(x) => Err(x),
                Ok((c, st1)) => match c {
                    ValueV::Bool(true) => match exec_block(p, n, push_scope(st1), body) {
                        Err(x) => Err(x),
                        Ok((sig, st2)) => {
                            let st3 = pop_scope(st2);
                            match sig {
                                SignalV::Break => Ok((SignalV::Normal, st3)),
                                SignalV::Return(v) => Ok((SignalV::Return(v), st3)),
                                _ => while_rounds(p, n, st3, s, (left - 1) as nat),
                            }
                        },
                    },
                    ValueV::Bool(false) => Ok((SignalV::Normal, st1)),
                    other => fail(st1, "while condition must be bool, got "@ + value_type(other) + "."@),
                },
            }
        },
        _ => Ok((SignalV::Normal, st)),
    }
}

/// The rounds of a classic `for` loop, at most `left` more; its scope is left at the end.
pub open spec fn for_rounds(p: ProgramV, n: nat, st: RunState, s: StmtV, left: nat) -> Step<SignalV>
    decreases n, 2nat, s, 0nat, left,
{
    match s {
        StmtV::For { condition, update, body, .. } => if left == 0 {
            fail(st, limit_message())
        } else {
            match eval(p, n, st, condition) {
                Err(x) => Err(x),
                Ok((c, st1)) => match c {
                    ValueV::Bool(true) => match exec_block(p, n, st1, body) {
                        Err(x) => Err(x),
                        Ok((sig, st2)) => match sig {
                            SignalV::Break => Ok((SignalV::Normal, pop_scope(st2))),
                            SignalV::Return(v) => Ok((SignalV::Return(v), pop_scope(st2))),
                            _ => match assign(p, n, st2, update) {
                                Err(x) => Err(x),
                                Ok((_, st3)) => for_rounds(p, n, st3, s, (left - 1) as nat),
                            },
                        },
                    },
                    ValueV::Bool(false) => Ok((SignalV::Normal, pop_scope(st1))),
                    other => fail(st1, "for condition must be bool, got "@ + value_type(other) + "."@),
                },
            }
        },
        _ => Ok((SignalV::Normal, st)),
    }
}

/// The rounds of a for-each loop over `items` from position `i`, each in a scope of its own.
pub open spec fn each_rounds(p: ProgramV, n: nat, st: RunState, s: StmtV, items: Seq<ValueV>, keys: bool, i: nat) -> Step<SignalV>
    decreases n, 2nat, s, 0nat, items.len() - i,
{
    match s {
        StmtV::ForEach { item_ty, item_name, body, .. } => if i >= items.len() {
            Ok((SignalV::Normal, st))
        } else {
            let v = items[i as int];
            if !type_matches(item_ty, v) {
                fail(st, 
                    (if keys {
                        "for-each dictionary key '"@
                    } else {
                        "for-each item '"@
                    }) + item_name + "' expected "@ + clean_type_text(item_ty) + ", got "@
                        + value_type(v) + "."@,
                )
            } else {
                match exec_block(p, n, define(push_scope(st), item_name, v), body) {
                    Err(x) => Err(x),
                    Ok((sig, st1)) => {
                        let st2 = pop_scope(st1);
                        match sig {
                            SignalV::Break => Ok((SignalV::Normal, st2)),
                            SignalV::Return(r) => Ok((SignalV::Return(r), st2)),
                            _ => each_rounds(p, n, st2, s, items, keys, i + 1),
                        }
                    },
                }
            }
        },
        _ => Ok((SignalV::Normal, st)),
    }
}

/// The statements of a block in order, up to the first that does not end normally.
pub open spec fn exec_block(p: ProgramV, n: nat, st: RunState, body: Seq<StmtV>) -> Step<SignalV>
    decreases n, 2nat, body, 0nat, 0nat,
{
    if body.len() == 0 {
        Ok((SignalV::Normal, st))
    } else {
        match exec_block(p, n, st, body.drop_last()) {
            Err(x) => Err(x),
            Ok((sig, st1)) => if sig is Normal {
                exec_stmt(p, n, st1, body.last())
            } else {
                Ok((sig, st1))
            },
        }
    }
}

/// The functions of the items, by name, with the position of each.
pub open spec fn registered(items: Seq<ItemV>) -> Seq<(Seq<char>, int)>
    decreases items.len(),
{
    if items.len() == 0 {
        Seq::empty()
    } else {
        let rest = registered(items.drop_last());
        match items.last() {
            ItemV::Function(f) => rest.push((f.name, items.len() - 1)),
            ItemV::VarDecl(_) => rest,
        }
    }
}

/// Runs the top-level variable declarations among the items, in order.
pub open spec fn globals(p: ProgramV, n: nat, st: RunState, items: Seq<ItemV>) -> Step<()>
    decreases items.len(),
{
    if items.len() == 0 {
        Ok(((), st))
    } else {
        match globals(p, n, st, items.drop_last()) {
            Err(x) => Err(x),
            Ok((_, st1)) => match items.last() {
                ItemV::VarDecl(d) => declare(p, n, st1, d),
                ItemV::Function(_) => Ok(((), st1)),
            },
        }
    }
}

/// The state a run starts from, given the host's answers so far.
pub open spec fn start_state(p: ProgramV, replies: Seq<ReplyV>) -> RunState {
    RunState {
        scopes: seq![Seq::empty()],
        functions: registered(p.items),
        output: Seq::empty(),
        replies,
        next_reply: 0,
    }
}

/// Calls `main` when the program has one.
pub open spec fn main_step(p: ProgramV, n: nat, st: RunState) -> Step<()> {
    if function_index(st.functions, "main"@) is None {
        Ok(((), st))
    } else {
        let r = match builtin_value(st, "main"@, Seq::empty()) {
            Some(r) => r,
            None => if n == 0 {
                fail(st, limit_message())
            } else {
                call_user(p, (n - 1) as nat, st, "main"@, Seq::empty())
            },
        };
        match r {
            Err(x) => Err(x),
            Ok((_, st2)) => Ok(((), st2)),
        }
    }
}

/// A whole run: the top-level declarations, then `main` when there is one.
pub open spec fn run_program(p: ProgramV, n: nat, replies: Seq<ReplyV>) -> Result<RunState, Halt> {
    match globals(p, n, start_state(p, replies), p.items) {
        Err(x) => Err(x),
        Ok((_, st1)) => match main_step(p, n, st1) {
            Err(x) => Err(x),
            Ok((_, st2)) => Ok(st2),
        },
    }
}

} // verus!
