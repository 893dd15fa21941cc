//! Runs a program directly. Whatever only the host can do (reading a line,
//! the file system, processes, the environment, sleeping, the working
//! directory) is asked of the caller: the run stops with the request, and is
//! replayed from the start once the answer is known. What the program prints
//! is collected as text.
use vstd::prelude::*;
use crate::ast::{
    Assignment, BinaryOp, Expr, ForEachStmt, ForStmt, Function, Item, ItemV, Program, ProgramV,
    Stmt, StmtV, UnaryOp, VarDecl, WhileStmt, entries_view, exprs_view, items_view, stmts_view,
};
use crate::run_spec::{
    RequestV, ReplyV, RunState, SignalV, Step, Stop, ValueV, arity_message, ask, ask_flag,
    ask_text, builtin_value, command_value, define, function_index, input_value, is_os_builtin,
    must_be, os_value, parse_int, pop_scope, print, push_scope, scope_get, set_var, to_lower,
    to_upper, trim_end_text, trim_text, type_matches, var_get, var_set, scope_set,
    outputs_text, index_value, unary_value, binary_value, op_name, eval, eval_list,
    eval_entries, bind_params, call_result, call_user, declare, assign, run_macro, exec_stmt,
    while_rounds, for_rounds, each_rounds, exec_block, registered, globals, start_state,
    run_program, main_step,
};
use crate::text::{
    chars_of, clean_type, contains, contains_char, is_text, owned, push_i64, push_str,
    push_usize, same_text, starts_with,
};
use crate::value_views::{Value, dict_view, values_view};
use crate::values::{copy_value, dict_lookup, dict_with, values_equal};

verus! {

broadcast use crate::ast::group_ast_views, crate::value_views::group_value_views;

/// Something only the host can do for a running program.
#[derive(Debug)]
pub enum HostRequest {
    /// Read one line of standard input.
    ReadLine,
    /// Run a program and wait for its exit code.
    Run { program: String, args: Vec<String> },
    /// Run a program and collect its standard output.
    Capture { program: String, args: Vec<String> },
    /// Read an environment variable (empty when unset).
    GetEnv(String),
    /// Set an environment variable.
    SetEnv(String, String),
    /// Read a file as text.
    ReadFile(String),
    /// Write text to a file.
    WriteFile(String, String),
    /// Whether a path exists.
    Exists(String),
    /// Sleep for a number of milliseconds.
    Sleep(i64),
    /// The current working directory.
    CurrentDir,
}

/// The host's answer to a request.
#[derive(Debug)]
pub enum HostReply {
    Text(String),
    Int(i64),
    Flag(bool),
    /// The request failed, with the message the program sees.
    Failed(String),
}

/// How a run ended.
#[derive(Debug)]
pub enum RunOutcome {
    /// The program ran to its end.
    Finished,
    /// The program needs the answer to this request to go on.
    Waiting(HostRequest),
}

/// Why evaluation stopped early.
pub enum RunStop {
    Error(String),
    Wait(HostRequest),
}

/// How a statement ended.
pub enum ExecSignal {
    Normal,
    Return(Value),
    Break,
    Continue,
}

pub open spec fn texts_view(s: Seq<String>) -> Seq<Seq<char>> {
    s.map_values(|t: String| t@)
}

impl View for HostRequest {
    type V = RequestV;

    open spec fn view(&self) -> RequestV {
        match self {
            HostRequest::ReadLine => RequestV::ReadLine,
            HostRequest::Run { program, args } => RequestV::Run {
                program: program@,
                args: texts_view(args@),
            },
            HostRequest::Capture { program, args } => RequestV::Capture {
                program: program@,
                args: texts_view(args@),
            },
            HostRequest::GetEnv(n) => RequestV::GetEnv(n@),
            HostRequest::SetEnv(n, v) => RequestV::SetEnv(n@, v@),
            HostRequest::ReadFile(p) => RequestV::ReadFile(p@),
            HostRequest::WriteFile(p, c) => RequestV::WriteFile(p@, c@),
            HostRequest::Exists(p) => RequestV::Exists(p@),
            HostRequest::Sleep(ms) => RequestV::Sleep(*ms),
            HostRequest::CurrentDir => RequestV::CurrentDir,
        }
    }
}

impl View for HostReply {
    type V = ReplyV;

    open spec fn view(&self) -> ReplyV {
        match self {
            HostReply::Text(t) => ReplyV::Text(t@),
            HostReply::Int(i) => ReplyV::Int(*i),
            HostReply::Flag(b) => ReplyV::Flag(*b),
            HostReply::Failed(m) => ReplyV::Failed(m@),
        }
    }
}

impl View for RunStop {
    type V = Stop;

    open spec fn view(&self) -> Stop {
        match self {
            RunStop::Error(m) => Stop::Error(m@),
            RunStop::Wait(r) => Stop::Wait(r@),
        }
    }
}

impl View for ExecSignal {
    type V = SignalV;

    open spec fn view(&self) -> SignalV {
        match self {
            ExecSignal::Normal => SignalV::Normal,
            ExecSignal::Return(v) => SignalV::Return(v@),
            ExecSignal::Break => SignalV::Break,
            ExecSignal::Continue => SignalV::Continue,
        }
    }
}

pub open spec fn replies_view(s: Seq<HostReply>) -> Seq<ReplyV> {
    s.map_values(|r: HostReply| r@)
}

pub open spec fn run_scope_view(s: Seq<(String, Value)>) -> Seq<(Seq<char>, ValueV)> {
    s.map_values(|p: (String, Value)| (p.0@, p.1@))
}

pub open spec fn run_scopes_view(s: Seq<Vec<(String, Value)>>) -> Seq<Seq<(Seq<char>, ValueV)>> {
    s.map_values(|v: Vec<(String, Value)>| run_scope_view(v@))
}

pub open spec fn functions_view(s: Seq<(String, usize)>) -> Seq<(Seq<char>, int)> {
    s.map_values(|p: (String, usize)| (p.0@, p.1 as int))
}

/// Runs programs, asking the host for what only it can do.
pub struct Interpreter {
    scopes: Vec<Vec<(String, Value)>>,
    functions: Vec<(String, usize)>,
    output: String,
    replies: Vec<HostReply>,
    next_reply: usize,
    step_limit: u64,
}

impl View for Interpreter {
    type V = RunState;

    closed spec fn view(&self) -> RunState {
        RunState {
            scopes: run_scopes_view(self.scopes@),
            functions: functions_view(self.functions@),
            output: self.output@,
            replies: replies_view(self.replies@),
            next_reply: self.next_reply as int,
        }
    }
}

/// `r` and `after` agree with the outcome `s` of an evaluation rule.
pub open spec fn value_agrees(r: Result<Value, RunStop>, after: RunState, s: Step<ValueV>) -> bool {
    match s {
        Ok((v, st)) => r is Ok && r->Ok_0@ == v && after == st,
        Err(x) => r is Err && r->Err_0@ == x.0 && after.output == x.1,
    }
}

pub open spec fn values_agree(r: Result<Vec<Value>, RunStop>, after: RunState, s: Step<Seq<ValueV>>) -> bool {
    match s {
        Ok((v, st)) => r is Ok && values_view(r->Ok_0@) == v && after == st,
        Err(x) => r is Err && r->Err_0@ == x.0 && after.output == x.1,
    }
}

pub open spec fn dict_agrees(r: Result<Vec<(String, Value)>, RunStop>, after: RunState, s: Step<Seq<(Seq<char>, ValueV)>>) -> bool {
    match s {
        Ok((v, st)) => r is Ok && dict_view(r->Ok_0@) == v && after == st,
        Err(x) => r is Err && r->Err_0@ == x.0 && after.output == x.1,
    }
}

pub open spec fn signal_agrees(r: Result<ExecSignal, RunStop>, after: RunState, s: Step<SignalV>) -> bool {
    match s {
        Ok((v, st)) => r is Ok && r->Ok_0@ == v && after == st,
        Err(x) => r is Err && r->Err_0@ == x.0 && after.output == x.1,
    }
}

pub open spec fn unit_agrees(r: Result<(), RunStop>, after: RunState, s: Step<()>) -> bool {
    match s {
        Ok((_, st)) => r is Ok && after == st,
        Err(x) => r is Err && r->Err_0@ == x.0 && after.output == x.1,
    }
}

fn error_stop(m: String) -> (r: RunStop)
    ensures
        r@ == Stop::Error(m@),
{
    RunStop::Error(m)
}

fn copy_reply(r: &HostReply) -> (c: HostReply)
    ensures
        c@ == r@,
{
    match r {
        HostReply::Text(t) => HostReply::Text(t.clone()),
        HostReply::Int(i) => HostReply::Int(*i),
        HostReply::Flag(b) => HostReply::Flag(*b),
        HostReply::Failed(m) => HostReply::Failed(m.clone()),
    }
}

/// "`name`() expects `k` argument(s)."
fn arity_msg(name: &String, k: usize) -> (r: String)
    ensures
        r@ == arity_message(name@, k as nat),
{
    let mut m = name.clone();
    push_str(&mut m, "() expects ");
    push_usize(&mut m, k);
    if k == 1 {
        push_str(&mut m, " argument.");
    } else {
        push_str(&mut m, " arguments.");
    }
    m
}

/// "`context` must be `what`, got `type`."
fn must_be_msg(context: &String, what: &str, v: &Value) -> (r: String)
    ensures
        r@ == must_be(context@, what@, v@),
{
    let mut m = context.clone();
    push_str(&mut m, " must be ");
    push_str(&mut m, what);
    push_str(&mut m, ", got ");
    push_str(&mut m, v.type_label());
    push_str(&mut m, ".");
    m
}

fn labelled(a: &String, b: &str) -> (r: String)
    ensures
        r@ == a@ + b@,
{
    let mut m = a.clone();
    push_str(&mut m, b);
    m
}

/// The printed texts of values, for a command's arguments.
fn value_texts(vs: &Vec<Value>) -> (r: Vec<String>)
    ensures
        texts_view(r@) == outputs_text(values_view(vs@)),
{
    let ghost v = values_view(vs@);
    let mut out: Vec<String> = Vec::new();
    let mut i: usize = 0;
    assert(v.len() == vs@.len());
    assert(texts_view(out@) =~= outputs_text(v.take(0)));
    while i < vs.len()
        invariant
            i <= vs.len(),
            v == values_view(vs@),
            v.len() == vs@.len(),
            texts_view(out@) == outputs_text(v.take(i as int)),
        decreases vs.len() - i,
    {
        assert(v.take(i + 1).drop_last() =~= v.take(i as int));
        assert(v[i as int] == vs@[i as int]@);
        let t = vs[i].to_output();
        let ghost before = out@;
        out.push(t);
        assert(texts_view(out@) =~= texts_view(before).push(t@));
        i += 1;
    }
    assert(v.take(vs.len() as int) =~= v);
    out
}

/// The index of the latest binding of `name` in a scope.
fn binding_in(scope: &Vec<(String, Value)>, name: &String) -> (r: Option<usize>)
    ensures
        match r {
            Some(k) => k < scope.len() && scope@[k as int].0@ == name@ && scope_get(
                run_scope_view(scope@),
                name@,
            ) == Some(scope@[k as int].1@) && forall|i: int|
                k < i < scope.len() ==> scope@[i].0@ != name@,
            None => scope_get(run_scope_view(scope@), name@) is None,
        },
{
    let ghost v = run_scope_view(scope@);
    let mut j = scope.len();
    assert(v.take(j as int) =~= v);
    while j > 0
        invariant
            j <= scope.len(),
            v == run_scope_view(scope@),
            scope_get(v, name@) == scope_get(v.take(j as int), name@),
            forall|i: int| j <= i < scope.len() ==> scope@[i].0@ != name@,
        decreases j,
    {
        assert(v.take(j as int).drop_last() =~= v.take(j - 1));
        if same_text(&scope[j - 1].0, name) {
            return Some(j - 1);
        }
        j -= 1;
    }
    None
}

/// Replacing the latest binding of a name that a scope has.
proof fn lemma_scope_set(s: Seq<(Seq<char>, ValueV)>, k: int, n: Seq<char>, v: ValueV)
    requires
        0 <= k < s.len(),
        s[k].0 == n,
        forall|i: int| k < i < s.len() ==> s[i].0 != n,
    ensures
        scope_set(s, n, v) == s.update(k, (n, v)),
    decreases s.len(),
{
    if k == s.len() - 1 {
        assert(s.drop_last().push((n, v)) =~= s.update(k, (n, v)));
    } else {
        lemma_scope_set(s.drop_last(), k, n, v);
        assert(s.drop_last().update(k, (n, v)).push(s.last()) =~= s.update(k, (n, v)));
    }
}

/// Replacing the binding in the innermost scope that has one.
proof fn lemma_var_set(s: Seq<Seq<(Seq<char>, ValueV)>>, j: int, n: Seq<char>, v: ValueV)
    requires
        0 <= j < s.len(),
        scope_get(s[j], n) is Some,
        forall|i: int| j < i < s.len() ==> scope_get(#[trigger] s[i], n) is None,
    ensures
        var_set(s, n, v) == s.update(j, scope_set(s[j], n, v)),
    decreases s.len(),
{
    if j == s.len() - 1 {
        assert(s.drop_last().push(scope_set(s[j], n, v)) =~= s.update(j, scope_set(s[j], n, v)));
    } else {
        lemma_var_set(s.drop_last(), j, n, v);
        assert(s.drop_last().update(j, scope_set(s[j], n, v)).push(s.last()) =~= s.update(
            j,
            scope_set(s[j], n, v),
        ));
    }
}

impl Interpreter {
    /// An interpreter with no answers from the host yet and no limit on steps.
    pub fn new() -> (r: Self)
        ensures
            r@ == start_state(ProgramV { items: Seq::empty() }, Seq::empty()),
            r.step_limit() == u64::MAX,
    {
        Self::with_step_limit(u64::MAX)
    }

    /// An interpreter whose calls nest at most `limit` deep and whose loops make at most
    /// `limit` rounds.
    pub fn with_step_limit(limit: u64) -> (r: Self)
        ensures
            r@ == start_state(ProgramV { items: Seq::empty() }, Seq::empty()),
            r.step_limit() == limit,
    {
        let r = Self {
            scopes: vec![Vec::new()],
            functions: Vec::new(),
            output: String::new(),
            replies: Vec::new(),
            next_reply: 0,
            step_limit: limit,
        };
        assert(run_scope_view(r.scopes@[0]@) =~= Seq::<(Seq<char>, ValueV)>::empty());
        assert(r@.scopes =~= seq![Seq::<(Seq<char>, ValueV)>::empty()]);
        assert(r@.functions =~= Seq::<(Seq<char>, int)>::empty());
        assert(registered(Seq::<ItemV>::empty()) =~= Seq::<(Seq<char>, int)>::empty());
        assert(r@.replies =~= Seq::<ReplyV>::empty());
        r
    }

    pub closed spec fn step_limit(&self) -> u64 {
        self.step_limit
    }

    /// Gives the host's answer to the next request.
    pub fn answer(&mut self, reply: HostReply)
        ensures
            final(self)@ == (RunState { replies: old(self)@.replies.push(reply@), ..old(self)@ }),
            final(self).step_limit() == old(self).step_limit(),
    {
        self.replies.push(reply);
        assert(replies_view(self.replies@) =~= replies_view(old(self).replies@).push(reply@));
    }

    /// What the last run printed.
    pub fn output(&self) -> (r: &String)
        ensures
            r@ == self@.output,
    {
        &self.output
    }

    fn get_var(&self, name: &String) -> (r: Option<Value>)
        ensures
            match var_get(self@.scopes, name@) {
                Some(v) => r is Some && r->0@ == v,
                None => r is None,
            },
    {
        let ghost s = self@.scopes;
        let mut j = self.scopes.len();
        assert(s.take(j as int) =~= s);
        while j > 0
            invariant
                j <= self.scopes.len(),
                s == self@.scopes,
                var_get(s, name@) == var_get(s.take(j as int), name@),
            decreases j,
        {
            assert(s.take(j as int).drop_last() =~= s.take(j - 1));
            match binding_in(&self.scopes[j - 1], name) {
                Some(k) => {
                    return Some(copy_value(&self.scopes[j - 1][k].1));
                },
                None => {},
            }
            j -= 1;
        }
        None
    }

    /// Replaces the binding of `name` in the innermost scope that has one.
    fn set_var(&mut self, name: &String, v: Value)
        ensures
            final(self)@ == set_var(old(self)@, name@, v@),
    {
        let ghost s = self@.scopes;
        let mut j = self.scopes.len();
        while j > 0
            invariant
                j <= self.scopes.len(),
                s == self@.scopes,
                self@ == old(self)@,
                forall|i: int| j <= i < s.len() ==> scope_get(#[trigger] s[i], name@) is None,
            decreases j,
        {
            match binding_in(&self.scopes[j - 1], name) {
                Some(k) => {
                    let ghost vv = v@;
                    proof {
                        lemma_var_set(s, j - 1, name@, vv);
                        lemma_scope_set(s[j - 1], k as int, name@, vv);
                    }
                    let mut scope = self.scopes.remove(j - 1);
                    let ghost old_scope = scope@;
                    scope.set(k, (name.clone(), v));
                    self.scopes.insert(j - 1, scope);
                    proof {
                        assert(run_scope_view(scope@) =~= run_scope_view(old_scope).update(
                            k as int,
                            (name@, vv),
                        ));
                        assert(self@.scopes =~= s.update(j - 1, scope_set(s[j - 1], name@, vv)));
                    }
                    return;
                },
                None => {},
            }
            j -= 1;
        }
        proof {
            assert(var_set(s, name@, v@) == s) by {
                lemma_var_set_none(s, name@, v@);
            }
        }
    }

    fn define_var(&mut self, name: String, v: Value)
        ensures
            final(self)@ == define(old(self)@, name@, v@),
    {
        let n = self.scopes.len();
        if n == 0 {
            return;
        }
        let ghost entry = (name@, v@);
        let mut scope = self.scopes.pop().unwrap();
        let ghost before = scope@;
        scope.push((name, v));
        self.scopes.push(scope);
        proof {
            assert(run_scope_view(scope@) =~= run_scope_view(before).push(entry));
            assert(self@.scopes =~= old(self)@.scopes.update(n - 1, old(self)@.scopes.last().push(entry)));
        }
    }

    fn push_scope(&mut self)
        ensures
            final(self)@ == push_scope(old(self)@),
    {
        self.scopes.push(Vec::new());
        assert(run_scope_view(Seq::<(String, Value)>::empty()) =~= Seq::<(Seq<char>, ValueV)>::empty());
        assert(self@.scopes =~= old(self)@.scopes.push(Seq::empty()));
    }

    fn pop_scope(&mut self)
        ensures
            final(self)@ == pop_scope(old(self)@),
    {
        let _ = self.scopes.pop();
        assert(self@.scopes =~= pop_scope(old(self)@).scopes);
    }

    fn print(&mut self, t: &str)
        ensures
            final(self)@ == print(old(self)@, t@),
    {
        push_str(&mut self.output, t);
    }

    /// The answer to `req`, or a stop that asks for it.
    fn ask(&mut self, req: HostRequest) -> (r: Result<HostReply, RunStop>)
        ensures
            match ask(old(self)@, req@) {
                Ok((reply, st)) => r is Ok && r->Ok_0@ == reply && final(self)@ == st,
                Err(x) => r is Err && r->Err_0@ == x.0 && final(self)@.output == x.1,
            },
    {
        if self.next_reply < self.replies.len() {
            let reply = copy_reply(&self.replies[self.next_reply]);
            self.next_reply = self.next_reply + 1;
            Ok(reply)
        } else {
            Err(RunStop::Wait(req))
        }
    }
}

proof fn lemma_var_set_none(s: Seq<Seq<(Seq<char>, ValueV)>>, n: Seq<char>, v: ValueV)
    requires
        forall|i: int| 0 <= i < s.len() ==> scope_get(#[trigger] s[i], n) is None,
    ensures
        var_set(s, n, v) == s,
    decreases s.len(),
{
    if s.len() > 0 {
        lemma_var_set_none(s.drop_last(), n, v);
        assert(s.drop_last().push(s.last()) =~= s);
    }
}

impl Interpreter {
    /// Asks the host and expects a text.
    fn ask_text(&mut self, req: HostRequest) -> (r: Result<Value, RunStop>)
        ensures
            value_agrees(r, final(self)@, ask_text(old(self)@, req@)),
    {
        match self.ask(req) {
            Err(x) => Err(x),
            Ok(reply) => match reply {
                HostReply::Text(t) => Ok(Value::Str(t)),
                HostReply::Failed(m) => Err(RunStop::Error(m)),
                _ => Err(RunStop::Error(owned("Host reply does not match the request."))),
            },
        }
    }

    /// Asks the host and expects a flag; `keep` returns it, otherwise `true`.
    fn ask_flag(&mut self, req: HostRequest, keep: bool) -> (r: Result<Value, RunStop>)
        ensures
            value_agrees(r, final(self)@, ask_flag(old(self)@, req@, keep)),
    {
        match self.ask(req) {
            Err(x) => Err(x),
            Ok(reply) => match reply {
                HostReply::Flag(b) => Ok(Value::Bool(if keep { b } else { true })),
                HostReply::Failed(m) => Err(RunStop::Error(m)),
                _ => Err(RunStop::Error(owned("Host reply does not match the request."))),
            },
        }
    }

    fn input_call(&mut self, name: &String, args: &Vec<Value>) -> (r: Result<Value, RunStop>)
        ensures
            value_agrees(r, final(self)@, input_value(old(self)@, name@, values_view(args@))),
    {
        if args.len() != 1 {
            return Err(RunStop::Error(arity_msg(name, 1)));
        }
        assert(values_view(args@)[0] == args@[0]@);
        match &args[0] {
            Value::Str(p) => {
                self.print(p.as_str());
                let reply = match self.ask(HostRequest::ReadLine) {
                    Err(x) => {
                        return Err(x);
                    },
                    Ok(reply) => reply,
                };
                let line = match reply {
                    HostReply::Text(t) => t,
                    HostReply::Failed(m) => {
                        return Err(RunStop::Error(m));
                    },
                    _ => {
                        return Err(RunStop::Error(owned("Host reply does not match the request.")));
                    },
                };
                if is_text(name, "input_str") {
                    Ok(Value::Str(trim_end_text(line.as_str())))
                } else {
                    let t = trim_text(line.as_str());
                    match parse_int(t.as_str()) {
                        Some(k) => Ok(Value::Int(k)),
                        None => {
                            let mut m = owned("input_int() expected a valid integer, got '");
                            push_str(&mut m, t.as_str());
                            push_str(&mut m, "'.");
                            Err(RunStop::Error(m))
                        },
                    }
                }
            },
            other => {
                let mut m = name.clone();
                push_str(&mut m, "() prompt must be str, got ");
                push_str(&mut m, other.type_label());
                push_str(&mut m, ".");
                Err(RunStop::Error(m))
            },
        }
    }

    fn command_call(&mut self, name: &String, args: &Vec<Value>) -> (r: Result<Value, RunStop>)
        ensures
            value_agrees(r, final(self)@, command_value(old(self)@, name@, values_view(args@))),
    {
        if args.len() != 2 {
            return Err(RunStop::Error(arity_msg(name, 2)));
        }
        assert(values_view(args@)[0] == args@[0]@);
        assert(values_view(args@)[1] == args@[1]@);
        let program = match &args[0] {
            Value::Str(p) => p.clone(),
            other => {
                return Err(RunStop::Error(must_be_msg(&labelled(name, " program"), "str", other)));
            },
        };
        let texts = match &args[1] {
            Value::Array(vs) => value_texts(vs),
            other => {
                let mut m = name.clone();
                push_str(&mut m, " arguments must be arr, got ");
                push_str(&mut m, other.type_label());
                push_str(&mut m, ".");
                return Err(RunStop::Error(m));
            },
        };
        if is_text(name, "os_run") {
            match self.ask(HostRequest::Run { program, args: texts }) {
                Err(x) => Err(x),
                Ok(reply) => match reply {
                    HostReply::Int(code) => Ok(Value::Int(code)),
                    HostReply::Failed(m) => Err(RunStop::Error(m)),
                    _ => Err(RunStop::Error(owned("Host reply does not match the request."))),
                },
            }
        } else {
            self.ask_text(HostRequest::Capture { program, args: texts })
        }
    }

    /// The argument at `i` as a string, or the error that names `context`.
    fn str_arg(args: &Vec<Value>, i: usize, context: &str) -> (r: Result<String, RunStop>)
        requires
            i < args.len(),
        ensures
            match args@[i as int]@ {
                ValueV::Str(t) => r is Ok && r->Ok_0@ == t,
                other => r is Err && r->Err_0@ == Stop::Error(must_be(context@, "str"@, other)),
            },
    {
        match &args[i] {
            Value::Str(t) => Ok(t.clone()),
            other => Err(RunStop::Error(must_be_msg(&owned(context), "str", other))),
        }
    }

    #[verifier::spinoff_prover]
    #[verifier::rlimit(40)]
    fn os_call(&mut self, name: &String, args: &Vec<Value>) -> (r: Result<Value, RunStop>)
        requires
            is_os_builtin(name@),
        ensures
            value_agrees(r, final(self)@, os_value(old(self)@, name@, values_view(args@))),
    {
        assert(values_view(args@).len() == args@.len());
        if is_text(name, "os_get_env") {
            if args.len() != 1 {
                return Err(RunStop::Error(arity_msg(name, 1)));
            }
            assert(values_view(args@)[0] == args@[0]@);
            let n = match Self::str_arg(args, 0, "os_get_env name") {
                Err(x) => {
                    return Err(x);
                },
                Ok(n) => n,
            };
            return self.ask_text(HostRequest::GetEnv(n));
        }
        if is_text(name, "os_set_env") {
            if args.len() != 2 {
                return Err(RunStop::Error(arity_msg(name, 2)));
            }
            assert(values_view(args@)[0] == args@[0]@);
            assert(values_view(args@)[1] == args@[1]@);
            let n = match Self::str_arg(args, 0, "os_set_env name") {
                Err(x) => {
                    return Err(x);
                },
                Ok(n) => n,
            };
            let v = match Self::str_arg(args, 1, "os_set_env value") {
                Err(x) => {
                    return Err(x);
                },
                Ok(v) => v,
            };
            if contains_char(&n, '\0') || contains_char(&v, '\0') {
                return Err(RunStop::Error(owned("os_set_env() values cannot contain NUL bytes.")));
            }
            return self.ask_flag(HostRequest::SetEnv(n, v), false);
        }
        if is_text(name, "os_read_file") {
            if args.len() != 1 {
                return Err(RunStop::Error(arity_msg(name, 1)));
            }
            assert(values_view(args@)[0] == args@[0]@);
            let p = match Self::str_arg(args, 0, "os_read_file path") {
                Err(x) => {
                    return Err(x);
                },
                Ok(p) => p,
            };
            return self.ask_text(HostRequest::ReadFile(p));
        }
        if is_text(name, "os_write_file") {
            if args.len() != 2 {
                return Err(RunStop::Error(arity_msg(name, 2)));
            }
            assert(values_view(args@)[0] == args@[0]@);
            assert(values_view(args@)[1] == args@[1]@);
            let p = match Self::str_arg(args, 0, "os_write_file path") {
                Err(x) => {
                    return Err(x);
                },
                Ok(p) => p,
            };
            let c = match Self::str_arg(args, 1, "os_write_file content") {
                Err(x) => {
                    return Err(x);
                },
                Ok(c) => c,
            };
            return self.ask_flag(HostRequest::WriteFile(p, c), false);
        }
        if is_text(name, "os_exists") {
            if args.len() != 1 {
                return Err(RunStop::Error(arity_msg(name, 1)));
            }
            assert(values_view(args@)[0] == args@[0]@);
            let p = match Self::str_arg(args, 0, "os_exists path") {
                Err(x) => {
                    return Err(x);
                },
                Ok(p) => p,
            };
            return self.ask_flag(HostRequest::Exists(p), true);
        }
        if is_text(name, "os_sleep") {
            if args.len() != 1 {
                return Err(RunStop::Error(arity_msg(name, 1)));
            }
            assert(values_view(args@)[0] == args@[0]@);
            return match &args[0] {
                Value::Int(ms) => {
                    if *ms < 0 {
                        Err(RunStop::Error(owned("os_sleep() duration cannot be negative.")))
                    } else {
                        self.ask_flag(HostRequest::Sleep(*ms), false)
                    }
                },
                other => Err(RunStop::Error(must_be_msg(&owned("os_sleep milliseconds"), "int", other))),
            };
        }
        if args.len() != 0 {
            return Err(RunStop::Error(arity_msg(name, 0)));
        }
        self.ask_text(HostRequest::CurrentDir)
    }

    /// Calls a builtin; `None` when `name` is no builtin.
    #[verifier::spinoff_prover]
    fn builtin_call(&mut self, name: &String, args: &Vec<Value>) -> (r: Option<Result<Value, RunStop>>)
        ensures
            match builtin_value(old(self)@, name@, values_view(args@)) {
                None => r is None && final(self)@ == old(self)@,
                Some(s) => r is Some && value_agrees(r->0, final(self)@, s),
            },
    {
        assert(values_view(args@).len() == args@.len());
        if is_text(name, "len") {
            if args.len() != 1 {
                return Some(Err(RunStop::Error(arity_msg(name, 1))));
            }
            assert(values_view(args@)[0] == args@[0]@);
            return Some(
                match &args[0] {
                    Value::Str(t) => {
                        let cs = chars_of(t.as_str());
                        Ok(Value::Int(cs.len() as i64))
                    },
                    Value::Array(vs) => {
                        assert(values_view(vs@).len() == vs@.len());
                        Ok(Value::Int(vs.len() as i64))
                    },
                    Value::Dict(es) => {
                        assert(dict_view(es@).len() == es@.len());
                        Ok(Value::Int(es.len() as i64))
                    },
                    other => {
                        let mut m = owned("len() does not support ");
                        push_str(&mut m, other.type_label());
                        push_str(&mut m, ".");
                        Err(RunStop::Error(m))
                    },
                },
            );
        }
        if is_text(name, "input_str") || is_text(name, "input_int") {
            return Some(self.input_call(name, args));
        }
        if is_text(name, "lower") || is_text(name, "upper") || is_text(name, "trim") {
            if args.len() != 1 {
                return Some(Err(RunStop::Error(arity_msg(name, 1))));
            }
            assert(values_view(args@)[0] == args@[0]@);
            return Some(
                match &args[0] {
                    Value::Str(t) => {
                        if is_text(name, "lower") {
                            Ok(Value::Str(to_lower(t.as_str())))
                        } else if is_text(name, "upper") {
                            Ok(Value::Str(to_upper(t.as_str())))
                        } else {
                            Ok(Value::Str(trim_text(t.as_str())))
                        }
                    },
                    other => {
                        let mut m = name.clone();
                        push_str(&mut m, "() expected str, got ");
                        push_str(&mut m, other.type_label());
                        push_str(&mut m, ".");
                        Err(RunStop::Error(m))
                    },
                },
            );
        }
        if is_text(name, "contains") {
            if args.len() != 2 {
                return Some(Err(RunStop::Error(arity_msg(name, 2))));
            }
            assert(values_view(args@)[0] == args@[0]@);
            assert(values_view(args@)[1] == args@[1]@);
            return Some(
                match (&args[0], &args[1]) {
                    (Value::Str(a), Value::Str(b)) => Ok(Value::Bool(contains(a, b))),
                    (a, b) => {
                        let mut m = owned("contains() expected str, str, got ");
                        push_str(&mut m, a.type_label());
                        push_str(&mut m, ", ");
                        push_str(&mut m, b.type_label());
                        push_str(&mut m, ".");
                        Err(RunStop::Error(m))
                    },
                },
            );
        }
        if is_text(name, "os_run") || is_text(name, "os_capture") {
            return Some(self.command_call(name, args));
        }
        if is_text(name, "os_get_env") || is_text(name, "os_set_env") || is_text(name, "os_read_file")
            || is_text(name, "os_write_file") || is_text(name, "os_exists") || is_text(
            name,
            "os_sleep",
        ) || is_text(name, "os_current_dir") {
            return Some(self.os_call(name, args));
        }
        None
    }
}

/// Whether a value has the type a type name denotes.
fn type_matches_value(ty: &String, v: &Value) -> (r: bool)
    ensures
        r == type_matches(ty@, v@),
{
    let t = clean_type(ty);
    if is_text(&t, "int") {
        matches!(v, Value::Int(_))
    } else if is_text(&t, "str") {
        matches!(v, Value::Str(_))
    } else if is_text(&t, "bool") {
        matches!(v, Value::Bool(_))
    } else if is_text(&t, "arr") || starts_with(&t, "arr_") {
        matches!(v, Value::Array(_))
    } else if is_text(&t, "dict") || starts_with(&t, "dict_") {
        matches!(v, Value::Dict(_))
    } else {
        false
    }
}

fn unary_exec(op: UnaryOp, v: Value) -> (r: Result<Value, String>)
    ensures
        match unary_value(op, v@) {
            Ok(x) => r is Ok && r->Ok_0@ == x,
            Err(m) => r is Err && r->Err_0@ == m,
        },
{
    match op {
        UnaryOp::Not => match v {
            Value::Bool(b) => Ok(Value::Bool(!b)),
            other => {
                let mut m = owned("! expected bool, got ");
                push_str(&mut m, other.type_label());
                push_str(&mut m, ".");
                Err(m)
            },
        },
        UnaryOp::Neg => match v {
            Value::Int(i) => Ok(Value::Int(0i64.wrapping_sub(i))),
            other => {
                let mut m = owned("- expected int, got ");
                push_str(&mut m, other.type_label());
                push_str(&mut m, ".");
                Err(m)
            },
        },
    }
}

fn index_exec(target: Value, index: Value) -> (r: Result<Value, String>)
    ensures
        match index_value(target@, index@) {
            Ok(x) => r is Ok && r->Ok_0@ == x,
            Err(m) => r is Err && r->Err_0@ == m,
        },
{
    match target {
        Value::Array(vs) => match index {
            Value::Int(i) => {
                if i < 0 {
                    return Err(owned("Array index cannot be negative."));
                }
                assert(values_view(vs@).len() == vs@.len());
                if (i as u64) < (vs.len() as u64) {
                    let k = i as usize;
                    assert(values_view(vs@)[i as int] == vs@[i as int]@);
                    Ok(copy_value(&vs[k]))
                } else {
                    let mut m = owned("Array index out of bounds: ");
                    push_i64(&mut m, i);
                    Err(m)
                }
            },
            other => {
                let mut m = owned("Array index must be int, got ");
                push_str(&mut m, other.type_label());
                push_str(&mut m, ".");
                Err(m)
            },
        },
        Value::Dict(es) => match index {
            Value::Str(k) => match dict_lookup(&es, &k) {
                Some(v) => Ok(v),
                None => {
                    let mut m = owned("Dictionary key not found: '");
                    push_str(&mut m, k.as_str());
                    push_str(&mut m, "'.");
                    Err(m)
                },
            },
            other => {
                let mut m = owned("Dictionary index must be str, got ");
                push_str(&mut m, other.type_label());
                push_str(&mut m, ".");
                Err(m)
            },
        },
        other => {
            let mut m = owned("Cannot index value of type ");
            push_str(&mut m, other.type_label());
            push_str(&mut m, ".");
            Err(m)
        },
    }
}

fn op_label(op: BinaryOp) -> (r: &'static str)
    ensures
        r@ == op_name(op),
{
    match op {
        BinaryOp::Add => "Add",
        BinaryOp::Sub => "Sub",
        BinaryOp::Mul => "Mul",
        BinaryOp::Div => "Div",
        BinaryOp::Eq => "Eq",
        BinaryOp::NotEq => "NotEq",
        BinaryOp::Less => "Less",
        BinaryOp::Greater => "Greater",
        BinaryOp::LessEq => "LessEq",
        BinaryOp::GreaterEq => "GreaterEq",
        BinaryOp::And => "And",
        BinaryOp::Or => "Or",
    }
}

#[verifier::spinoff_prover]
fn binary_exec(l: Value, op: BinaryOp, r: Value) -> (res: Result<Value, String>)
    ensures
        match binary_value(l@, op, r@) {
            Ok(x) => res is Ok && res->Ok_0@ == x,
            Err(m) => res is Err && res->Err_0@ == m,
        },
{
    match (&l, op, &r) {
        (Value::Int(a), BinaryOp::Add, Value::Int(b)) => {
            return Ok(Value::Int(a.wrapping_add(*b)));
        },
        (Value::Int(a), BinaryOp::Sub, Value::Int(b)) => {
            return Ok(Value::Int(a.wrapping_sub(*b)));
        },
        (Value::Int(a), BinaryOp::Mul, Value::Int(b)) => {
            return Ok(Value::Int(a.wrapping_mul(*b)));
        },
        (Value::Int(a), BinaryOp::Div, Value::Int(b)) => {
            if *b == 0 {
                return Err(owned("Cannot divide by zero."));
            }
            return match a.checked_div(*b) {
                Some(q) => Ok(Value::Int(q)),
                None => Err(owned("Integer overflow in division.")),
            };
        },
        (Value::Str(a), BinaryOp::Add, Value::Str(b)) => {
            let mut t = a.clone();
            push_str(&mut t, b.as_str());
            return Ok(Value::Str(t));
        },
        (Value::Str(a), BinaryOp::Add, b) => {
            let mut t = a.clone();
            let o = b.to_output();
            push_str(&mut t, o.as_str());
            return Ok(Value::Str(t));
        },
        (a, BinaryOp::Add, Value::Str(b)) => {
            let mut t = a.to_output();
            push_str(&mut t, b.as_str());
            return Ok(Value::Str(t));
        },
        (a, BinaryOp::Eq, b) => {
            return Ok(Value::Bool(values_equal(a, b)));
        },
        (a, BinaryOp::NotEq, b) => {
            return Ok(Value::Bool(!values_equal(a, b)));
        },
        (Value::Int(a), BinaryOp::Less, Value::Int(b)) => {
            return Ok(Value::Bool(*a < *b));
        },
        (Value::Int(a), BinaryOp::Greater, Value::Int(b)) => {
            return Ok(Value::Bool(*a > *b));
        },
        (Value::Int(a), BinaryOp::LessEq, Value::Int(b)) => {
            return Ok(Value::Bool(*a <= *b));
        },
        (Value::Int(a), BinaryOp::GreaterEq, Value::Int(b)) => {
            return Ok(Value::Bool(*a >= *b));
        },
        _ => {},
    }
    let mut m = owned("Invalid binary operation: ");
    push_str(&mut m, l.type_label());
    push_str(&mut m, " ");
    push_str(&mut m, op_label(op));
    push_str(&mut m, " ");
    push_str(&mut m, r.type_label());
    push_str(&mut m, ".");
    Err(m)
}

/// The item index of the function registered under `name` (the last one so named).
fn find_function(functions: &Vec<(String, usize)>, name: &String) -> (r: Option<usize>)
    ensures
        match r {
            Some(k) => function_index(functions_view(functions@), name@) == Some(k as int),
            None => function_index(functions_view(functions@), name@) is None,
        },
{
    let ghost v = functions_view(functions@);
    let mut j = functions.len();
    assert(v.take(j as int) =~= v);
    while j > 0
        invariant
            j <= functions.len(),
            v == functions_view(functions@),
            function_index(v, name@) == function_index(v.take(j as int), name@),
        decreases j,
    {
        assert(v.take(j as int).drop_last() =~= v.take(j - 1));
        if same_text(&functions[j - 1].0, name) {
            return Some(functions[j - 1].1);
        }
        j -= 1;
    }
    None
}

/// The value a call returns, given how the function body ended.
fn finish_call(f: &Function, sig: ExecSignal) -> (r: Result<Value, String>)
    ensures
        match call_result(f@, sig@, RunState { scopes: Seq::empty(), functions: Seq::empty(), output: Seq::empty(), replies: Seq::empty(), next_reply: 0 }) {
            Ok((v, _)) => r is Ok && r->Ok_0@ == v,
            Err((Stop::Error(m), _)) => r is Err && r->Err_0@ == m,
            Err(_) => false,
        },
{
    match sig {
        ExecSignal::Return(v) => match &f.return_type {
            Some(rt) => {
                if !type_matches_value(rt, &v) {
                    let mut m = owned("Function '");
                    push_str(&mut m, f.name.as_str());
                    push_str(&mut m, "' expected return type ");
                    let t = clean_type(rt);
                    push_str(&mut m, t.as_str());
                    push_str(&mut m, ", got ");
                    push_str(&mut m, v.type_label());
                    push_str(&mut m, ".");
                    Err(m)
                } else {
                    Ok(v)
                }
            },
            None => Ok(v),
        },
        ExecSignal::Normal => match &f.return_type {
            Some(rt) => {
                let mut m = owned("Function '");
                push_str(&mut m, f.name.as_str());
                push_str(&mut m, "' expected return type ");
                let t = clean_type(rt);
                push_str(&mut m, t.as_str());
                push_str(&mut m, ", but returned nothing.");
                Err(m)
            },
            None => Ok(Value::Bool(true)),
        },
        ExecSignal::Break => Err(owned("break used outside of loop.")),
        ExecSignal::Continue => Err(owned("continue used outside of loop.")),
    }
}

impl Interpreter {
    /// The value of an expression.
    #[verifier::spinoff_prover]
    #[verifier::rlimit(60)]
    fn eval(&mut self, program: &Program, fuel: u64, e: &Expr) -> (r: Result<Value, RunStop>)
        ensures
            value_agrees(r, final(self)@, eval(program@, fuel as nat, old(self)@, e@)),
        decreases fuel, 0nat, e, 1nat, 0nat,
    {
        match e {
            Expr::Int(v) => Ok(Value::Int(*v)),
            Expr::Str(t) => Ok(Value::Str(t.clone())),
            Expr::Bool(b) => Ok(Value::Bool(*b)),
            Expr::Ident(name) => match self.get_var(name) {
                Some(v) => Ok(v),
                None => {
                    let mut m = owned("Undefined variable '");
                    push_str(&mut m, name.as_str());
                    push_str(&mut m, "'.");
                    Err(RunStop::Error(m))
                },
            },
            Expr::ArrayLiteral(es) => {
                let r = self.eval_list(program, fuel, es, es.len());
                assert(exprs_view(es@).take(es.len() as int) =~= exprs_view(es@));
                match r {
                    Err(x) => Err(x),
                    Ok(vs) => Ok(Value::Array(vs)),
                }
            },
            Expr::DictLiteral(pairs) => {
                let r = self.eval_entries(program, fuel, pairs, pairs.len());
                assert(entries_view(pairs@).take(pairs.len() as int) =~= entries_view(pairs@));
                match r {
                    Err(x) => Err(x),
                    Ok(es) => Ok(Value::Dict(es)),
                }
            },
            Expr::Index { target, index } => {
                let t = match self.eval(program, fuel, target) {
                    Err(x) => {
                        return Err(x);
                    },
                    Ok(t) => t,
                };
                let i = match self.eval(program, fuel, index) {
                    Err(x) => {
                        return Err(x);
                    },
                    Ok(i) => i,
                };
                match index_exec(t, i) {
                    Ok(v) => Ok(v),
                    Err(m) => Err(RunStop::Error(m)),
                }
            },
            Expr::Call { name, args } => {
                let r = self.eval_list(program, fuel, args, args.len());
                assert(exprs_view(args@).take(args.len() as int) =~= exprs_view(args@));
                let vs = match r {
                    Err(x) => {
                        return Err(x);
                    },
                    Ok(vs) => vs,
                };
                match self.builtin_call(name, &vs) {
                    Some(r) => r,
                    None => {
                        if fuel == 0 {
                            Err(RunStop::Error(owned("Execution step limit reached.")))
                        } else {
                            self.call_user(program, fuel - 1, name, vs)
                        }
                    },
                }
            },
            Expr::Unary { op, expr } => {
                let v = match self.eval(program, fuel, expr) {
                    Err(x) => {
                        return Err(x);
                    },
                    Ok(v) => v,
                };
                match unary_exec(*op, v) {
                    Ok(r) => Ok(r),
                    Err(m) => Err(RunStop::Error(m)),
                }
            },
            Expr::Binary { left, op, right } => {
                let l = match self.eval(program, fuel, left) {
                    Err(x) => {
                        return Err(x);
                    },
                    Ok(l) => l,
                };
                if *op == BinaryOp::And || *op == BinaryOp::Or {
                    let sym = if *op == BinaryOp::And { "&&" } else { "||" };
                    match l {
                        Value::Bool(b) => {
                            if b == (*op == BinaryOp::Or) {
                                return Ok(Value::Bool(b));
                            }
                            let r = match self.eval(program, fuel, right) {
                                Err(x) => {
                                    return Err(x);
                                },
                                Ok(r) => r,
                            };
                            match r {
                                Value::Bool(c) => Ok(Value::Bool(c)),
                                other => {
                                    let context = labelled(&owned(sym), " right side");
                                    Err(RunStop::Error(must_be_msg(&context, "bool", &other)))
                                },
                            }
                        },
                        other => {
                            let context = labelled(&owned(sym), " left side");
                            Err(RunStop::Error(must_be_msg(&context, "bool", &other)))
                        },
                    }
                } else {
                    let r = match self.eval(program, fuel, right) {
                        Err(x) => {
                            return Err(x);
                        },
                        Ok(r) => r,
                    };
                    match binary_exec(l, *op, r) {
                        Ok(v) => Ok(v),
                        Err(m) => Err(RunStop::Error(m)),
                    }
                }
            },
        }
    }

    /// The values of the first `k` expressions, in order.
    fn eval_list(&mut self, program: &Program, fuel: u64, es: &Vec<Expr>, k: usize) -> (r: Result<Vec<Value>, RunStop>)
        requires
            k <= es.len(),
        ensures
            values_agree(r, final(self)@, eval_list(program@, fuel as nat, old(self)@, exprs_view(es@).take(k as int))),
        decreases fuel, 0nat, es, 0nat, k,
    {
        let ghost v = exprs_view(es@);
        if k == 0 {
            let out: Vec<Value> = Vec::new();
            assert(values_view(out@) =~= Seq::<ValueV>::empty());
            return Ok(out);
        }
        assert(v.take(k as int).drop_last() =~= v.take(k - 1));
        assert(v.len() == es@.len());
        assert(v[k - 1] == es@[k - 1]@);
        let mut vs = match self.eval_list(program, fuel, es, k - 1) {
            Err(x) => {
                return Err(x);
            },
            Ok(vs) => vs,
        };
        let x = match self.eval(program, fuel, &es[k - 1]) {
            Err(e) => {
                return Err(e);
            },
            Ok(x) => x,
        };
        proof {
            crate::value_views::lemma_values_view_push(vs@, x);
        }
        vs.push(x);
        Ok(vs)
    }

    /// The dictionary of the first `k` entries of a literal, in order.
    fn eval_entries(&mut self, program: &Program, fuel: u64, pairs: &Vec<(String, Expr)>, k: usize) -> (r: Result<Vec<(String, Value)>, RunStop>)
        requires
            k <= pairs.len(),
        ensures
            dict_agrees(r, final(self)@, eval_entries(program@, fuel as nat, old(self)@, entries_view(pairs@).take(k as int))),
        decreases fuel, 0nat, pairs, 0nat, k,
    {
        let ghost v = entries_view(pairs@);
        if k == 0 {
            let out: Vec<(String, Value)> = Vec::new();
            assert(dict_view(out@) =~= Seq::<(Seq<char>, ValueV)>::empty());
            return Ok(out);
        }
        assert(v.take(k as int).drop_last() =~= v.take(k - 1));
        assert(v.len() == pairs@.len());
        assert(v[k - 1] == (pairs@[k - 1].0@, pairs@[k - 1].1@));
        let es = match self.eval_entries(program, fuel, pairs, k - 1) {
            Err(x) => {
                return Err(x);
            },
            Ok(es) => es,
        };
        let x = match self.eval(program, fuel, &pairs[k - 1].1) {
            Err(e) => {
                return Err(e);
            },
            Ok(x) => x,
        };
        Ok(dict_with(&es, pairs[k - 1].0.clone(), x))
    }

    /// Binds the first `k` parameters of `f` to the arguments.
    fn bind_params(&mut self, f: &Function, args: &Vec<Value>, k: usize) -> (r: Result<(), String>)
        requires
            k <= f.params.len(),
            k <= args.len(),
        ensures
            match bind_params(old(self)@, f@, values_view(args@), k as nat) {
                Ok(st) => r is Ok && final(self)@ == st && st.output == old(self)@.output,
                Err(m) => r is Err && r->Err_0@ == m && final(self)@.output == old(self)@.output,
            },
        decreases k,
    {
        if k == 0 {
            return Ok(());
        }
        match self.bind_params(f, args, k - 1) {
            Err(m) => {
                return Err(m);
            },
            Ok(_) => {},
        }
        let prm = &f.params[k - 1];
        assert(values_view(args@).len() == args@.len());
        assert(values_view(args@)[k - 1] == args@[k - 1]@);
        if !type_matches_value(&prm.ty, &args[k - 1]) {
            let mut m = owned("Function '");
            push_str(&mut m, f.name.as_str());
            push_str(&mut m, "' parameter '");
            push_str(&mut m, prm.name.as_str());
            push_str(&mut m, "' expected ");
            let t = clean_type(&prm.ty);
            push_str(&mut m, t.as_str());
            push_str(&mut m, ", got ");
            push_str(&mut m, args[k - 1].type_label());
            push_str(&mut m, ".");
            return Err(m);
        }
        self.define_var(prm.name.clone(), copy_value(&args[k - 1]));
        Ok(())
    }

    /// A call of a function of the program.
    fn call_user(&mut self, program: &Program, fuel: u64, name: &String, args: Vec<Value>) -> (r: Result<Value, RunStop>)
        ensures
            value_agrees(r, final(self)@, call_user(program@, fuel as nat, old(self)@, name@, values_view(args@))),
        decreases fuel, 3nat, program, 0nat, 0nat,
    {
        let index = match find_function(&self.functions, name) {
            None => {
                let mut m = owned("Undefined function '");
                push_str(&mut m, name.as_str());
                push_str(&mut m, "'.");
                return Err(RunStop::Error(m));
            },
            Some(i) => i,
        };
        if index >= program.items.len() {
            let mut m = owned("Internal error: '");
            push_str(&mut m, name.as_str());
            push_str(&mut m, "' is not a function.");
            return Err(RunStop::Error(m));
        }
        assert(items_view(program.items@)[index as int] == program.items@[index as int]@);
        let f = match &program.items[index] {
            Item::Function(f) => f,
            Item::VarDecl(_) => {
                let mut m = owned("Internal error: '");
                push_str(&mut m, name.as_str());
                push_str(&mut m, "' is not a function.");
                return Err(RunStop::Error(m));
            },
        };
        assert(values_view(args@).len() == args@.len());
        if f.params.len() != args.len() {
            let mut m = owned("Function '");
            push_str(&mut m, f.name.as_str());
            push_str(&mut m, "' expected ");
            push_usize(&mut m, f.params.len());
            push_str(&mut m, " arguments, got ");
            push_usize(&mut m, args.len());
            push_str(&mut m, ".");
            return Err(RunStop::Error(m));
        }
        self.push_scope();
        match self.bind_params(f, &args, args.len()) {
            Err(m) => {
                return Err(RunStop::Error(m));
            },
            Ok(_) => {},
        }
        let r = self.exec_block(program, fuel, &f.body, f.body.len());
        assert(stmts_view(f.body@).take(f.body.len() as int) =~= stmts_view(f.body@));
        let sig = match r {
            Err(x) => {
                return Err(x);
            },
            Ok(sig) => sig,
        };
        self.pop_scope();
        match finish_call(f, sig) {
            Ok(v) => Ok(v),
            Err(m) => Err(RunStop::Error(m)),
        }
    }

    /// The statements of `body` up to `k`, until one does not end normally.
    fn exec_block(&mut self, program: &Program, fuel: u64, body: &Vec<Stmt>, k: usize) -> (r: Result<ExecSignal, RunStop>)
        requires
            k <= body.len(),
        ensures
            signal_agrees(r, final(self)@, exec_block(program@, fuel as nat, old(self)@, stmts_view(body@).take(k as int))),
        decreases fuel, 2nat, body, 0nat, k,
    {
        let ghost v = stmts_view(body@);
        if k == 0 {
            return Ok(ExecSignal::Normal);
        }
        assert(v.take(k as int).drop_last() =~= v.take(k - 1));
        assert(v.len() == body@.len());
        assert(v[k - 1] == body@[k - 1]@);
        let sig = match self.exec_block(program, fuel, body, k - 1) {
            Err(x) => {
                return Err(x);
            },
            Ok(sig) => sig,
        };
        match sig {
            ExecSignal::Normal => self.exec_stmt(program, fuel, &body[k - 1]),
            other => Ok(other),
        }
    }
}

impl Interpreter {
    fn declare(&mut self, program: &Program, fuel: u64, d: &VarDecl) -> (r: Result<(), RunStop>)
        ensures
            unit_agrees(r, final(self)@, declare(program@, fuel as nat, old(self)@, d@)),
        decreases fuel, 1nat, d, 0nat, 0nat,
    {
        let v = match self.eval(program, fuel, &d.value) {
            Err(x) => {
                return Err(x);
            },
            Ok(v) => v,
        };
        if !type_matches_value(&d.ty, &v) {
            let mut m = owned("Type mismatch for '");
            push_str(&mut m, d.name.as_str());
            push_str(&mut m, "'. Expected ");
            let t = clean_type(&d.ty);
            push_str(&mut m, t.as_str());
            push_str(&mut m, ", got ");
            push_str(&mut m, v.type_label());
            push_str(&mut m, ".");
            return Err(RunStop::Error(m));
        }
        self.define_var(d.name.clone(), v);
        Ok(())
    }

    fn assign(&mut self, program: &Program, fuel: u64, a: &Assignment) -> (r: Result<(), RunStop>)
        ensures
            unit_agrees(r, final(self)@, assign(program@, fuel as nat, old(self)@, a@)),
        decreases fuel, 1nat, a, 0nat, 0nat,
    {
        let v = match self.eval(program, fuel, &a.value) {
            Err(x) => {
                return Err(x);
            },
            Ok(v) => v,
        };
        let old_value = match self.get_var(&a.name) {
            None => {
                let mut m = owned("Undefined variable '");
                push_str(&mut m, a.name.as_str());
                push_str(&mut m, "'.");
                return Err(RunStop::Error(m));
            },
            Some(o) => o,
        };
        if !is_text(&owned(old_value.type_label()), v.type_label()) {
            let mut m = owned("Type mismatch assigning '");
            push_str(&mut m, a.name.as_str());
            push_str(&mut m, "'. Expected ");
            push_str(&mut m, old_value.type_label());
            push_str(&mut m, ", got ");
            push_str(&mut m, v.type_label());
            push_str(&mut m, ".");
            return Err(RunStop::Error(m));
        }
        self.set_var(&a.name, v);
        Ok(())
    }

    #[verifier::spinoff_prover]
    #[verifier::rlimit(40)]
    fn run_macro(&mut self, program: &Program, fuel: u64, name: &String, args: &Vec<Expr>) -> (r: Result<(), RunStop>)
        ensures
            unit_agrees(r, final(self)@, run_macro(program@, fuel as nat, old(self)@, name@, exprs_view(args@))),
        decreases fuel, 1nat, args, 0nat, 0nat,
    {
        assert(exprs_view(args@).len() == args@.len());
        if is_text(name, "cons") {
            if args.len() != 1 {
                return Err(RunStop::Error(owned("cons!() expects 1 argument.")));
            }
            assert(exprs_view(args@)[0] == args@[0]@);
            let v = match self.eval(program, fuel, &args[0]) {
                Err(x) => {
                    return Err(x);
                },
                Ok(v) => v,
            };
            let mut line = v.to_output();
            push_str(&mut line, "\n");
            self.print(line.as_str());
            return Ok(());
        }
        if is_text(name, "push") {
            if args.len() != 2 {
                return Err(RunStop::Error(owned("push!() expects 2 arguments.")));
            }
            assert(exprs_view(args@)[0] == args@[0]@);
            assert(exprs_view(args@)[1] == args@[1]@);
            let target = match &args[0] {
                Expr::Ident(t) => t,
                _ => {
                    return Err(RunStop::Error(owned("push!() first argument must be an array variable.")));
                },
            };
            let v = match self.eval(program, fuel, &args[1]) {
                Err(x) => {
                    return Err(x);
                },
                Ok(v) => v,
            };
            return match self.get_var(target) {
                None => {
                    let mut m = owned("Undefined array variable '");
                    push_str(&mut m, target.as_str());
                    push_str(&mut m, "'.");
                    Err(RunStop::Error(m))
                },
                Some(Value::Array(vs)) => {
                    let mut vs = vs;
                    proof {
                        crate::value_views::lemma_values_view_push(vs@, v);
                    }
                    vs.push(v);
                    self.set_var(target, Value::Array(vs));
                    Ok(())
                },
                Some(other) => {
                    let mut m = owned("push!() expected arr, got ");
                    push_str(&mut m, other.type_label());
                    push_str(&mut m, ".");
                    Err(RunStop::Error(m))
                },
            };
        }
        if is_text(name, "set") {
            if args.len() != 3 {
                return Err(RunStop::Error(owned("set!() expects 3 arguments.")));
            }
            assert(exprs_view(args@)[0] == args@[0]@);
            assert(exprs_view(args@)[1] == args@[1]@);
            assert(exprs_view(args@)[2] == args@[2]@);
            let target = match &args[0] {
                Expr::Ident(t) => t,
                _ => {
                    return Err(RunStop::Error(owned("set!() first argument must be a dictionary variable.")));
                },
            };
            let k = match self.eval(program, fuel, &args[1]) {
                Err(x) => {
                    return Err(x);
                },
                Ok(k) => k,
            };
            let v = match self.eval(program, fuel, &args[2]) {
                Err(x) => {
                    return Err(x);
                },
                Ok(v) => v,
            };
            let key = match k {
                Value::Str(key) => key,
                other => {
                    let mut m = owned("set!() key must be str, got ");
                    push_str(&mut m, other.type_label());
                    push_str(&mut m, ".");
                    return Err(RunStop::Error(m));
                },
            };
            return match self.get_var(target) {
                None => {
                    let mut m = owned("Undefined dictionary variable '");
                    push_str(&mut m, target.as_str());
                    push_str(&mut m, "'.");
                    Err(RunStop::Error(m))
                },
                Some(Value::Dict(es)) => {
                    let updated = dict_with(&es, key, v);
                    self.set_var(target, Value::Dict(updated));
                    Ok(())
                },
                Some(other) => {
                    let mut m = owned("set!() expected dict, got ");
                    push_str(&mut m, other.type_label());
                    push_str(&mut m, ".");
                    Err(RunStop::Error(m))
                },
            };
        }
        let mut m = owned("Unknown macro '");
        push_str(&mut m, name.as_str());
        push_str(&mut m, "!'.");
        Err(RunStop::Error(m))
    }

    /// The rounds of a `while` loop, at most `left0`.
    fn while_rounds(&mut self, program: &Program, fuel: u64, w: &WhileStmt, left0: u64) -> (r: Result<ExecSignal, RunStop>)
        ensures
            signal_agrees(
                r,
                final(self)@,
                while_rounds(program@, fuel as nat, old(self)@, StmtV::While { condition: w.condition@, body: stmts_view(w.body@) }, left0 as nat),
            ),
        decreases fuel, 2nat, w, 0nat, 0nat,
    {
        let ghost sv = StmtV::While { condition: w.condition@, body: stmts_view(w.body@) };
        let ghost target = while_rounds(program@, fuel as nat, self@, sv, left0 as nat);
        let mut left = left0;
        loop
            invariant
                sv == (StmtV::While { condition: w.condition@, body: stmts_view(w.body@) }),
                while_rounds(program@, fuel as nat, self@, sv, left as nat) == target,
                target == while_rounds(program@, fuel as nat, old(self)@, sv, left0 as nat),
            decreases left,
        {
            let ghost s0 = self@;
            if left == 0 {
                return Err(RunStop::Error(owned("Execution step limit reached.")));
            }
            let c = match self.eval(program, fuel, &w.condition) {
                Err(x) => {
                    return Err(x);
                },
                Ok(c) => c,
            };
            match c {
                Value::Bool(true) => {
                    self.push_scope();
                    let r = self.exec_block(program, fuel, &w.body, w.body.len());
                    assert(stmts_view(w.body@).take(w.body.len() as int) =~= stmts_view(w.body@));
                    let sig = match r {
                        Err(x) => {
                            return Err(x);
                        },
                        Ok(sig) => sig,
                    };
                    self.pop_scope();
                    match sig {
                        ExecSignal::Break => {
                            return Ok(ExecSignal::Normal);
                        },
                        ExecSignal::Return(v) => {
                            return Ok(ExecSignal::Return(v));
                        },
                        _ => {},
                    }
                    left = left - 1;
                },
                Value::Bool(false) => {
                    return Ok(ExecSignal::Normal);
                },
                other => {
                    let mut m = owned("while condition must be bool, got ");
                    push_str(&mut m, other.type_label());
                    push_str(&mut m, ".");
                    return Err(RunStop::Error(m));
                },
            }
        }
    }

    /// The rounds of a classic `for` loop, at most `left0`; its scope is left at the end.
    fn for_rounds(&mut self, program: &Program, fuel: u64, f: &ForStmt, left0: u64) -> (r: Result<ExecSignal, RunStop>)
        ensures
            signal_agrees(
                r,
                final(self)@,
                for_rounds(
                    program@,
                    fuel as nat,
                    old(self)@,
                    StmtV::For {
                        initializer: f.initializer@,
                        condition: f.condition@,
                        update: f.update@,
                        body: stmts_view(f.body@),
                    },
                    left0 as nat,
                ),
            ),
        decreases fuel, 2nat, f, 0nat, 0nat,
    {
        let ghost sv = StmtV::For {
            initializer: f.initializer@,
            condition: f.condition@,
            update: f.update@,
            body: stmts_view(f.body@),
        };
        let ghost target = for_rounds(program@, fuel as nat, self@, sv, left0 as nat);
        let mut left = left0;
        loop
            invariant
                sv == (StmtV::For {
                    initializer: f.initializer@,
                    condition: f.condition@,
                    update: f.update@,
                    body: stmts_view(f.body@),
                }),
                for_rounds(program@, fuel as nat, self@, sv, left as nat) == target,
                target == for_rounds(program@, fuel as nat, old(self)@, sv, left0 as nat),
            decreases left,
        {
            let ghost s0 = self@;
            if left == 0 {
                return Err(RunStop::Error(owned("Execution step limit reached.")));
            }
            let c = match self.eval(program, fuel, &f.condition) {
                Err(x) => {
                    return Err(x);
                },
                Ok(c) => c,
            };
            match c {
                Value::Bool(true) => {
                    let r = self.exec_block(program, fuel, &f.body, f.body.len());
                    assert(stmts_view(f.body@).take(f.body.len() as int) =~= stmts_view(f.body@));
                    let sig = match r {
                        Err(x) => {
                            return Err(x);
                        },
                        Ok(sig) => sig,
                    };
                    match sig {
                        ExecSignal::Break => {
                            self.pop_scope();
                            return Ok(ExecSignal::Normal);
                        },
                        ExecSignal::Return(v) => {
                            self.pop_scope();
                            return Ok(ExecSignal::Return(v));
                        },
                        _ => {},
                    }
                    match self.assign(program, fuel, &f.update) {
                        Err(x) => {
                            return Err(x);
                        },
                        Ok(_) => {},
                    }
                    left = left - 1;
                },
                Value::Bool(false) => {
                    self.pop_scope();
                    return Ok(ExecSignal::Normal);
                },
                other => {
                    let mut m = owned("for condition must be bool, got ");
                    push_str(&mut m, other.type_label());
                    push_str(&mut m, ".");
                    return Err(RunStop::Error(m));
                },
            }
        }
    }

    /// The rounds of a for-each loop over `items`, each in a scope of its own.
    fn each_rounds(&mut self, program: &Program, fuel: u64, f: &ForEachStmt, items: &Vec<Value>, keys: bool) -> (r: Result<ExecSignal, RunStop>)
        ensures
            signal_agrees(
                r,
                final(self)@,
                each_rounds(
                    program@,
                    fuel as nat,
                    old(self)@,
                    StmtV::ForEach {
                        item_ty: f.item_ty@,
                        item_name: f.item_name@,
                        iterable: f.iterable@,
                        body: stmts_view(f.body@),
                    },
                    values_view(items@),
                    keys,
                    0,
                ),
            ),
        decreases fuel, 2nat, f, 0nat, 0nat,
    {
        let ghost sv = StmtV::ForEach {
            item_ty: f.item_ty@,
            item_name: f.item_name@,
            iterable: f.iterable@,
            body: stmts_view(f.body@),
        };
        let ghost iv = values_view(items@);
        let ghost target = each_rounds(program@, fuel as nat, self@, sv, iv, keys, 0);
        let mut i: usize = 0;
        assert(iv.len() == items@.len());
        loop
            invariant
                i <= items.len(),
                iv == values_view(items@),
                iv.len() == items@.len(),
                sv == (StmtV::ForEach {
                    item_ty: f.item_ty@,
                    item_name: f.item_name@,
                    iterable: f.iterable@,
                    body: stmts_view(f.body@),
                }),
                each_rounds(program@, fuel as nat, self@, sv, iv, keys, i as nat) == target,
                target == each_rounds(program@, fuel as nat, old(self)@, sv, iv, keys, 0),
            decreases items.len() - i,
        {
            if i >= items.len() {
                return Ok(ExecSignal::Normal);
            }
            assert(iv[i as int] == items@[i as int]@);
            let v = copy_value(&items[i]);
            if !type_matches_value(&f.item_ty, &v) {
                let mut m = if keys {
                    owned("for-each dictionary key '")
                } else {
                    owned("for-each item '")
                };
                push_str(&mut m, f.item_name.as_str());
                push_str(&mut m, "' expected ");
                let t = clean_type(&f.item_ty);
                push_str(&mut m, t.as_str());
                push_str(&mut m, ", got ");
                push_str(&mut m, v.type_label());
                push_str(&mut m, ".");
                return Err(RunStop::Error(m));
            }
            self.push_scope();
            self.define_var(f.item_name.clone(), v);
            let r = self.exec_block(program, fuel, &f.body, f.body.len());
            assert(stmts_view(f.body@).take(f.body.len() as int) =~= stmts_view(f.body@));
            let sig = match r {
                Err(x) => {
                    return Err(x);
                },
                Ok(sig) => sig,
            };
            self.pop_scope();
            match sig {
                ExecSignal::Break => {
                    return Ok(ExecSignal::Normal);
                },
                ExecSignal::Return(v) => {
                    return Ok(ExecSignal::Return(v));
                },
                _ => {},
            }
            i += 1;
        }
    }
}

/// The keys of a dictionary as string values.
fn key_values(es: &Vec<(String, Value)>) -> (r: Vec<Value>)
    ensures
        values_view(r@) == dict_view(es@).map_values(|e: (Seq<char>, ValueV)| ValueV::Str(e.0)),
{
    let ghost d = dict_view(es@);
    let mut out: Vec<Value> = Vec::new();
    let mut i: usize = 0;
    assert(d.len() == es@.len());
    while i < es.len()
        invariant
            i <= es.len(),
            d == dict_view(es@),
            d.len() == es@.len(),
            out.len() == i,
            forall|k: int| 0 <= k < i ==> out@[k]@ == ValueV::Str(d[k].0),
        decreases es.len() - i,
    {
        assert(d[i as int] == (es@[i as int].0@, es@[i as int].1@));
        out.push(Value::Str(es[i].0.clone()));
        i += 1;
    }
    assert(values_view(out@) =~= d.map_values(|e: (Seq<char>, ValueV)| ValueV::Str(e.0)));
    out
}

impl Interpreter {
    #[verifier::spinoff_prover]
    #[verifier::rlimit(60)]
    fn exec_stmt(&mut self, program: &Program, fuel: u64, s: &Stmt) -> (r: Result<ExecSignal, RunStop>)
        ensures
            signal_agrees(r, final(self)@, exec_stmt(program@, fuel as nat, old(self)@, s@)),
        decreases fuel, 2nat, s, 1nat, 0nat,
    {
        match s {
            Stmt::VarDecl(d) => match self.declare(program, fuel, d) {
                Err(x) => Err(x),
                Ok(_) => Ok(ExecSignal::Normal),
            },
            Stmt::MacroCall(c) => match self.run_macro(program, fuel, &c.name, &c.args) {
                Err(x) => Err(x),
                Ok(_) => Ok(ExecSignal::Normal),
            },
            Stmt::FunctionCall(c) => self.exec_call(program, fuel, c),
            Stmt::Assignment(a) => match self.assign(program, fuel, a) {
                Err(x) => Err(x),
                Ok(_) => Ok(ExecSignal::Normal),
            },
            Stmt::If(i) => self.exec_if(program, fuel, i),
            Stmt::While(w) => self.while_rounds(program, fuel, w, fuel),
            Stmt::For(f) => {
                self.push_scope();
                match self.declare(program, fuel, &f.initializer) {
                    Err(x) => {
                        return Err(x);
                    },
                    Ok(_) => {},
                }
                self.for_rounds(program, fuel, f, fuel)
            },
            Stmt::ForEach(f) => self.exec_for_each(program, fuel, f),
            Stmt::Break => Ok(ExecSignal::Break),
            Stmt::Continue => Ok(ExecSignal::Continue),
            Stmt::Return(ret) => match self.eval(program, fuel, &ret.value) {
                Err(x) => Err(x),
                Ok(v) => Ok(ExecSignal::Return(v)),
            },
        }
    }

    fn exec_call(&mut self, program: &Program, fuel: u64, c: &crate::ast::FunctionCall) -> (r: Result<ExecSignal, RunStop>)
        ensures
            signal_agrees(r, final(self)@, exec_stmt(program@, fuel as nat, old(self)@, Stmt::FunctionCall(*c)@)),
        decreases fuel, 1nat, c, 1nat, 0nat,
    {
        let r = self.eval_list(program, fuel, &c.args, c.args.len());
        assert(exprs_view(c.args@).take(c.args.len() as int) =~= exprs_view(c.args@));
        let vs = match r {
            Err(x) => {
                return Err(x);
            },
            Ok(vs) => vs,
        };
        let result = match self.builtin_call(&c.name, &vs) {
            Some(r) => r,
            None => {
                if fuel == 0 {
                    Err(RunStop::Error(owned("Execution step limit reached.")))
                } else {
                    self.call_user(program, fuel - 1, &c.name, vs)
                }
            },
        };
        match result {
            Err(x) => Err(x),
            Ok(_) => Ok(ExecSignal::Normal),
        }
    }

    fn exec_if(&mut self, program: &Program, fuel: u64, i: &crate::ast::IfStmt) -> (r: Result<ExecSignal, RunStop>)
        ensures
            signal_agrees(r, final(self)@, exec_stmt(program@, fuel as nat, old(self)@, Stmt::If(*i)@)),
        decreases fuel, 2nat, i, 1nat, 0nat,
    {
        let c = match self.eval(program, fuel, &i.condition) {
            Err(x) => {
                return Err(x);
            },
            Ok(c) => c,
        };
        match c {
            Value::Bool(true) => {
                self.push_scope();
                let r = self.exec_block(program, fuel, &i.then_body, i.then_body.len());
                assert(stmts_view(i.then_body@).take(i.then_body.len() as int) =~= stmts_view(i.then_body@));
                if r.is_ok() {
                    self.pop_scope();
                }
                r
            },
            Value::Bool(false) => match &i.else_body {
                Some(b) => {
                    self.push_scope();
                    let r = self.exec_block(program, fuel, b, b.len());
                    assert(stmts_view(b@).take(b.len() as int) =~= stmts_view(b@));
                    if r.is_ok() {
                        self.pop_scope();
                    }
                    r
                },
                None => Ok(ExecSignal::Normal),
            },
            other => {
                let mut m = owned("if condition must be bool, got ");
                push_str(&mut m, other.type_label());
                push_str(&mut m, ".");
                Err(RunStop::Error(m))
            },
        }
    }

    fn exec_for_each(&mut self, program: &Program, fuel: u64, f: &ForEachStmt) -> (r: Result<ExecSignal, RunStop>)
        ensures
            signal_agrees(r, final(self)@, exec_stmt(program@, fuel as nat, old(self)@, Stmt::ForEach(*f)@)),
        decreases fuel, 2nat, f, 1nat, 0nat,
    {
        let v = match self.eval(program, fuel, &f.iterable) {
            Err(x) => {
                return Err(x);
            },
            Ok(v) => v,
        };
        match v {
            Value::Array(vs) => self.each_rounds(program, fuel, f, &vs, false),
            Value::Dict(es) => {
                let keys = key_values(&es);
                self.each_rounds(program, fuel, f, &keys, true)
            },
            other => {
                let mut m = owned("for-each expected arr or dict, got ");
                push_str(&mut m, other.type_label());
                push_str(&mut m, ".");
                Err(RunStop::Error(m))
            },
        }
    }

    /// Forgets everything but the host's answers and registers the program's functions.
    fn reset(&mut self, program: &Program)
        ensures
            final(self)@ == start_state(program@, old(self)@.replies),
            final(self).step_limit() == old(self).step_limit(),
    {
        let ghost iv = items_view(program.items@);
        self.scopes = vec![Vec::new()];
        self.functions = Vec::new();
        self.output = String::new();
        self.next_reply = 0;
        let mut i: usize = 0;
        assert(functions_view(self.functions@) =~= registered(iv.take(0)));
        while i < program.items.len()
            invariant
                i <= program.items.len(),
                iv == items_view(program.items@),
                self.replies == old(self).replies,
                self.step_limit == old(self).step_limit,
                self.scopes@.len() == 1,
                self.scopes@[0]@.len() == 0,
                self.output@.len() == 0,
                self.next_reply == 0,
                functions_view(self.functions@) == registered(iv.take(i as int)),
            decreases program.items.len() - i,
        {
            assert(iv.take(i + 1).drop_last() =~= iv.take(i as int));
            if let Item::Function(f) = &program.items[i] {
                let ghost before = self.functions@;
                self.functions.push((f.name.clone(), i));
                assert(functions_view(self.functions@) =~= functions_view(before).push((f.name@, i as int)));
            }
            i += 1;
        }
        assert(iv.take(program.items.len() as int) =~= iv);
        assert(run_scope_view(self.scopes@[0]@) =~= Seq::<(Seq<char>, ValueV)>::empty());
        assert(self@.scopes =~= seq![Seq::<(Seq<char>, ValueV)>::empty()]);
        assert(self@.output =~= Seq::<char>::empty());
    }

    /// Calls `main` when the program has one.
    fn run_main(&mut self, program: &Program, fuel: u64) -> (r: Result<(), RunStop>)
        ensures
            unit_agrees(r, final(self)@, main_step(program@, fuel as nat, old(self)@)),
    {
        let main = owned("main");
        match find_function(&self.functions, &main) {
            None => Ok(()),
            Some(_) => {
                let no_args: Vec<Value> = Vec::new();
                assert(values_view(no_args@) =~= Seq::<ValueV>::empty());
                let called = match self.builtin_call(&main, &no_args) {
                    Some(r) => r,
                    None => {
                        if fuel == 0 {
                            Err(RunStop::Error(owned("Execution step limit reached.")))
                        } else {
                            self.call_user(program, fuel - 1, &main, no_args)
                        }
                    },
                };
                match called {
                    Err(x) => Err(x),
                    Ok(_) => Ok(()),
                }
            },
        }
    }

    /// Runs the top-level declarations among the first `k` items.
    fn run_globals(&mut self, program: &Program, fuel: u64, k: usize) -> (r: Result<(), RunStop>)
        requires
            k <= program.items.len(),
        ensures
            unit_agrees(r, final(self)@, globals(program@, fuel as nat, old(self)@, items_view(program.items@).take(k as int))),
        decreases k,
    {
        let ghost v = items_view(program.items@);
        if k == 0 {
            return Ok(());
        }
        assert(v.take(k as int).drop_last() =~= v.take(k - 1));
        match self.run_globals(program, fuel, k - 1) {
            Err(x) => {
                return Err(x);
            },
            Ok(_) => {},
        }
        match &program.items[k - 1] {
            Item::VarDecl(d) => self.declare(program, fuel, d),
            Item::Function(_) => Ok(()),
        }
    }

    /// Runs a program from its start: its top-level declarations, then `main` when there
    /// is one. Requests are answered from the host's answers given so far; the first one
    /// without an answer ends the run as `Waiting`.
    #[verifier::spinoff_prover]
    #[verifier::rlimit(60)]
    pub fn run(&mut self, program: &Program) -> (r: Result<RunOutcome, String>)
        ensures
            match run_program(program@, old(self).step_limit() as nat, old(self)@.replies) {
                Ok(st) => r matches Ok(RunOutcome::Finished) && final(self)@.output == st.output,
                Err((Stop::Error(m), o)) => r matches Err(e) && e@ == m && final(self)@.output == o,
                Err((Stop::Wait(q), o)) => r matches Ok(RunOutcome::Waiting(h)) && h@ == q
                    && final(self)@.output == o,
            },
    {
        self.reset(program);
        let fuel = self.step_limit;
        let globals_done = self.run_globals(program, fuel, program.items.len());
        assert(items_view(program.items@).take(program.items.len() as int) =~= items_view(program.items@));
        let stop = match globals_done {
            Err(x) => Some(x),
            Ok(_) => match self.run_main(program, fuel) {
                Err(x) => Some(x),
                Ok(_) => None,
            },
        };
        match stop {
            None => Ok(RunOutcome::Finished),
            Some(RunStop::Error(m)) => Err(m),
            Some(RunStop::Wait(q)) => Ok(RunOutcome::Waiting(q)),
        }
    }
}

} // verus!
