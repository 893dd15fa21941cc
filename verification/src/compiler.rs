//! Compiles a program to the source of a Rust program that runs it.
use vstd::prelude::*;
use crate::ast::{
    Assignment, AssignmentV, BinaryOp, Expr, ExprV, Function, Item, Param, ParamV, Program,
    Stmt, UnaryOp, VarDecl, entries_view, exprs_view, items_view, params_view, stmts_view,
};
use crate::compile_spec::{
    CompState, MAIN_WRAPPER, return_check, return_text, assignment_text, for_each_head,
    for_each_middle, for_each_tail, builtin_call_text, bumped, debug_quote, entries_text,
    expr_text, exprs_text, fn_text, function_text, functions_text, has_main, ident_chars, inc,
    indent_text, is_ident_char, is_main, joined, line, loop_body_text, macro_text,
    param_checks_text, param_decl_text, program_text, sanitized, stmt_text, stmts_text,
    temp_text, var_decl_text, var_text, with_loop, without_loop,
};
use crate::runtime::runtime_source;
use crate::text::{
    chars_of, clean_type, is_text, owned, push_bool, push_char, push_i64, push_str, push_usize,
    starts_with,
};

verus! {

broadcast use crate::ast::group_ast_views;

/// The texts of a vector of strings.
pub open spec fn texts(v: Seq<String>) -> Seq<Seq<char>> {
    v.map_values(|s: String| s@)
}

fn is_ident_character(c: char) -> (r: bool)
    ensures
        r == is_ident_char(c),
{
    ('a' <= c && c <= 'z') || ('A' <= c && c <= 'Z') || ('0' <= c && c <= '9') || c == '_'
}

/// A Rust identifier made from a name.
fn sanitize_ident(name: &String) -> (r: String)
    ensures
        r@ == sanitized(name@),
{
    let chars = chars_of(name.as_str());
    let ghost mapped = ident_chars(name@);
    let mut result = String::new();
    let mut i: usize = 0;
    while i < chars.len()
        invariant
            i <= chars.len(),
            chars@ == name@,
            mapped == ident_chars(name@),
            result@ == mapped.take(i as int),
        decreases chars.len() - i,
    {
        let c = chars[i];
        if is_ident_character(c) {
            push_char(&mut result, c);
        } else {
            push_char(&mut result, '_');
        }
        assert(mapped.take(i + 1) =~= mapped.take(i as int).push(mapped[i as int]));
        i += 1;
    }
    assert(mapped.take(chars.len() as int) =~= mapped);
    let mut underscore = String::new();
    push_char(&mut underscore, '_');
    assert(underscore@ =~= seq!['_']);
    if chars.len() == 0 {
        return underscore;
    }
    let first = if is_ident_character(chars[0]) { chars[0] } else { '_' };
    assert(first == mapped[0]);
    if '0' <= first && first <= '9' {
        push_str(&mut underscore, result.as_str());
        underscore
    } else {
        result
    }
}

fn rust_var(name: &String) -> (r: String)
    ensures
        r@ == var_text(name@),
{
    let mut r = owned("v_");
    let s = sanitize_ident(name);
    push_str(&mut r, s.as_str());
    r
}

fn rust_fn(name: &String) -> (r: String)
    ensures
        r@ == fn_text(name@),
{
    let mut r = owned("tsst_");
    let s = sanitize_ident(name);
    push_str(&mut r, s.as_str());
    r
}

fn deeper(n: usize) -> (r: usize)
    ensures
        r == inc(n),
{
    if n < usize::MAX {
        n + 1
    } else {
        n
    }
}

/// Four spaces per level.
fn indentation(indent: usize) -> (r: String)
    ensures
        r@ == indent_text(indent as nat),
{
    let mut r = String::new();
    let mut i: usize = 0;
    while i < indent
        invariant
            i <= indent,
            r@ == indent_text(i as nat),
        decreases indent - i,
    {
        push_str(&mut r, "    ");
        i += 1;
    }
    r
}

/// One indented line of output.
fn indent_line(indent: usize, value: &str) -> (r: String)
    ensures
        r@ == line(indent, value@),
{
    let mut r = indentation(indent);
    push_str(&mut r, value);
    push_str(&mut r, "\n");
    r
}

/// The strings joined with `, `.
fn join_parts(parts: &Vec<String>) -> (r: String)
    ensures
        r@ == joined(texts(parts@)),
{
    let ghost v = texts(parts@);
    let mut r = String::new();
    let mut i: usize = 0;
    while i < parts.len()
        invariant
            i <= parts.len(),
            v == texts(parts@),
            r@ == joined(v.take(i as int)),
        decreases parts.len() - i,
    {
        assert(v.take(i + 1).drop_last() =~= v.take(i as int));
        if i > 0 {
            push_str(&mut r, ", ");
        }
        push_str(&mut r, parts[i].as_str());
        i += 1;
    }
    assert(v.take(parts.len() as int) =~= v);
    r
}

/// The runtime call of a builtin, given its compiled arguments.
fn builtin_call(name: &String, args: &String) -> (r: Option<String>)
    ensures
        match builtin_call_text(name@, args@) {
            Some(t) => r is Some && r->0@ == t,
            None => r is None,
        },
{
    let f = if is_text(name, "len") {
        "builtin_len"
    } else if is_text(name, "input_str") {
        "builtin_input_str"
    } else if is_text(name, "input_int") {
        "builtin_input_int"
    } else if is_text(name, "lower") {
        "builtin_lower"
    } else if is_text(name, "upper") {
        "builtin_upper"
    } else if is_text(name, "trim") {
        "builtin_trim"
    } else if is_text(name, "contains") {
        "builtin_contains"
    } else if is_text(name, "os_run") {
        "builtin_os_run"
    } else if is_text(name, "os_capture") {
        "builtin_os_capture"
    } else if is_text(name, "os_get_env") {
        "builtin_os_get_env"
    } else if is_text(name, "os_set_env") {
        "builtin_os_set_env"
    } else if is_text(name, "os_read_file") {
        "builtin_os_read_file"
    } else if is_text(name, "os_write_file") {
        "builtin_os_write_file"
    } else if is_text(name, "os_exists") {
        "builtin_os_exists"
    } else if is_text(name, "os_sleep") {
        "builtin_os_sleep"
    } else if is_text(name, "os_current_dir") {
        return Some(owned("builtin_os_current_dir()?"));
    } else {
        return None;
    };
    let mut r = owned(f);
    push_str(&mut r, "(");
    push_str(&mut r, args.as_str());
    push_str(&mut r, ")?");
    Some(r)
}

/// A copy of an expression.
pub fn copy_expr(e: &Expr) -> (r: Expr)
    ensures
        r@ == e@,
    decreases e, 1nat,
{
    match e {
        Expr::Int(v) => Expr::Int(*v),
        Expr::Str(s) => Expr::Str(s.clone()),
        Expr::Bool(b) => Expr::Bool(*b),
        Expr::Ident(s) => Expr::Ident(s.clone()),
        Expr::ArrayLiteral(values) => Expr::ArrayLiteral(copy_exprs(values)),
        Expr::DictLiteral(pairs) => Expr::DictLiteral(copy_entries(pairs)),
        Expr::Index { target, index } => Expr::Index {
            target: Box::new(copy_expr(target)),
            index: Box::new(copy_expr(index)),
        },
        Expr::Call { name, args } => Expr::Call { name: name.clone(), args: copy_exprs(args) },
        Expr::Unary { op, expr } => Expr::Unary { op: *op, expr: Box::new(copy_expr(expr)) },
        Expr::Binary { left, op, right } => Expr::Binary {
            left: Box::new(copy_expr(left)),
            op: *op,
            right: Box::new(copy_expr(right)),
        },
    }
}

/// A copy of the entries of a dictionary literal.
pub fn copy_entries(pairs: &Vec<(String, Expr)>) -> (r: Vec<(String, Expr)>)
    ensures
        entries_view(r@) == entries_view(pairs@),
    decreases pairs, 0nat,
{
    let mut out: Vec<(String, Expr)> = Vec::new();
    let mut i: usize = 0;
    while i < pairs.len()
        invariant
            i <= pairs.len(),
            entries_view(out@) == entries_view(pairs@).take(i as int),
        decreases pairs.len() - i,
    {
        let value = copy_expr(&pairs[i].1);
        let key = pairs[i].0.clone();
        let ghost before = out@;
        out.push((key, value));
        proof {
            assert(entries_view(pairs@).len() == pairs@.len());
            assert(entries_view(pairs@)[i as int] == (pairs@[i as int].0@, pairs@[i as int].1@));
            assert(key@ == pairs@[i as int].0@);
            crate::ast::lemma_entries_view_push(before, out@.last());
            assert(before.push(out@.last()) =~= out@);
            assert(entries_view(pairs@).take(i + 1) =~= entries_view(pairs@).take(i as int).push(
                entries_view(pairs@)[i as int],
            ));
        }
        i += 1;
    }
    assert(entries_view(pairs@).take(pairs.len() as int) =~= entries_view(pairs@));
    out
}

/// A copy of a vector of expressions.
pub fn copy_exprs(es: &Vec<Expr>) -> (r: Vec<Expr>)
    ensures
        exprs_view(r@) == exprs_view(es@),
    decreases es, 0nat,
{
    let mut out: Vec<Expr> = Vec::new();
    let mut i: usize = 0;
    while i < es.len()
        invariant
            i <= es.len(),
            exprs_view(out@) == exprs_view(es@).take(i as int),
        decreases es.len() - i,
    {
        let e = copy_expr(&es[i]);
        let ghost before = out@;
        out.push(e);
        proof {
            assert(exprs_view(es@).len() == es@.len());
            assert(exprs_view(es@)[i as int] == es@[i as int]@);
            crate::ast::lemma_exprs_view_push(before, e);
            assert(before.push(e) =~= out@);
            assert(exprs_view(es@).take(i + 1) =~= exprs_view(es@).take(i as int).push(
                exprs_view(es@)[i as int],
            ));
        }
        i += 1;
    }
    assert(exprs_view(es@).take(es.len() as int) =~= exprs_view(es@));
    out
}

/// A copy of an assignment.
pub fn copy_assignment(a: &Assignment) -> (r: Assignment)
    ensures
        r@ == a@,
{
    Assignment { name: a.name.clone(), value: copy_expr(&a.value) }
}

/// Generates Rust source for a program.
pub struct Compiler {
    temp_counter: usize,
    current_return_type: Option<String>,
    current_function_name: String,
    loop_stack: Vec<Option<Assignment>>,
    uses_gui: bool,
}

pub open spec fn opt_text(o: Option<String>) -> Option<Seq<char>> {
    match o {
        Some(s) => Some(s@),
        None => None,
    }
}

pub open spec fn loops_view(v: Seq<Option<Assignment>>) -> Seq<Option<AssignmentV>> {
    v.map_values(
        |o: Option<Assignment>|
            match o {
                Some(a) => Some(a@),
                None => None,
            },
    )
}

impl View for Compiler {
    type V = CompState;

    closed spec fn view(&self) -> CompState {
        CompState {
            temp: self.temp_counter,
            return_type: opt_text(self.current_return_type),
            function_name: self.current_function_name@,
            loops: loops_view(self.loop_stack@),
            uses_gui: self.uses_gui,
        }
    }
}

impl Compiler {
    pub fn new() -> (r: Self)
        ensures
            r@ == (CompState {
                temp: 0,
                return_type: None,
                function_name: Seq::empty(),
                loops: Seq::empty(),
                uses_gui: false,
            }),
    {
        let r = Self {
            temp_counter: 0,
            current_return_type: None,
            current_function_name: String::new(),
            loop_stack: Vec::new(),
            uses_gui: false,
        };
        assert(r@.loops =~= Seq::<Option<AssignmentV>>::empty());
        r
    }

    fn next_temp(&mut self) -> (r: String)
        ensures
            final(self)@ == bumped(old(self)@),
            r@ == temp_text(final(self)@),
            same_frame(old(self)@, final(self)@),
    {
        self.temp_counter = deeper(self.temp_counter);
        let mut r = owned("__tsst_temp_");
        push_usize(&mut r, self.temp_counter);
        r
    }

    #[verifier::spinoff_prover]
    fn compile_expr(&mut self, e: &Expr) -> (r: String)
        ensures
            (r@, final(self)@) == expr_text(old(self)@, e@),
            same_frame(old(self)@, final(self)@),
        decreases e, 1nat,
    {
        match e {
            Expr::Int(v) => {
                let mut r = owned("RtValue::Int(");
                push_i64(&mut r, *v);
                push_str(&mut r, ")");
                r
            },
            Expr::Str(v) => {
                let mut r = owned("RtValue::Str(String::from(");
                let q = debug_quote(v.as_str());
                push_str(&mut r, q.as_str());
                push_str(&mut r, "))");
                r
            },
            Expr::Bool(b) => {
                let mut r = owned("RtValue::Bool(");
                push_bool(&mut r, *b);
                push_str(&mut r, ")");
                r
            },
            Expr::Ident(n) => {
                let mut r = rust_var(n);
                push_str(&mut r, ".clone()");
                r
            },
            Expr::ArrayLiteral(values) => {
                let parts = self.compile_exprs(values, values.len());
                assert(exprs_view(values@).take(values.len() as int) =~= exprs_view(values@));
                let mut r = owned("RtValue::Array(vec![");
                let j = join_parts(&parts);
                push_str(&mut r, j.as_str());
                push_str(&mut r, "])");
                r
            },
            Expr::DictLiteral(pairs) => {
                if pairs.len() == 0 {
                    assert(entries_view(pairs@).len() == 0);
                    return owned("RtValue::Dict(HashMap::new())");
                }
                let parts = self.compile_entries(pairs, pairs.len());
                assert(entries_view(pairs@).take(pairs.len() as int) =~= entries_view(pairs@));
                let mut r = owned("RtValue::Dict(HashMap::from([");
                let j = join_parts(&parts);
                push_str(&mut r, j.as_str());
                push_str(&mut r, "]))");
                r
            },
            Expr::Index { target, index } => {
                let t = self.compile_expr(target);
                let i = self.compile_expr(index);
                let mut r = owned("index_value(");
                push_str(&mut r, t.as_str());
                push_str(&mut r, ", ");
                push_str(&mut r, i.as_str());
                push_str(&mut r, ")?");
                r
            },
            Expr::Call { name, args } => self.compile_call(name, args),
            Expr::Unary { op, expr } => {
                let v = self.compile_expr(expr);
                let mut r = match op {
                    UnaryOp::Not => owned("unary_not("),
                    UnaryOp::Neg => owned("unary_neg("),
                };
                push_str(&mut r, v.as_str());
                push_str(&mut r, ")?");
                r
            },
            Expr::Binary { left, op, right } => {
                if *op == BinaryOp::And || *op == BinaryOp::Or {
                    let t = self.next_temp();
                    let l = self.compile_expr(left);
                    let rt = self.compile_expr(right);
                    let mut r = owned("{ let ");
                    push_str(&mut r, t.as_str());
                    push_str(&mut r, " = expect_bool(");
                    push_str(&mut r, l.as_str());
                    if *op == BinaryOp::And {
                        push_str(&mut r, ", \"&& left\")?; if !");
                        push_str(&mut r, t.as_str());
                        push_str(&mut r, " { RtValue::Bool(false) } else { RtValue::Bool(expect_bool(");
                        push_str(&mut r, rt.as_str());
                        push_str(&mut r, ", \"&& right\")?) } }");
                    } else {
                        push_str(&mut r, ", \"|| left\")?; if ");
                        push_str(&mut r, t.as_str());
                        push_str(&mut r, " { RtValue::Bool(true) } else { RtValue::Bool(expect_bool(");
                        push_str(&mut r, rt.as_str());
                        push_str(&mut r, ", \"|| right\")?) } }");
                    }
                    return r;
                }
                let l = self.compile_expr(left);
                let rt = self.compile_expr(right);
                let (head, middle, tail) = match op {
                    BinaryOp::Add => ("binary_add(", ", ", ")?"),
                    BinaryOp::Sub => ("binary_sub(", ", ", ")?"),
                    BinaryOp::Mul => ("binary_mul(", ", ", ")?"),
                    BinaryOp::Div => ("binary_div(", ", ", ")?"),
                    BinaryOp::Eq => ("RtValue::Bool(", " == ", ")"),
                    BinaryOp::NotEq => ("RtValue::Bool(", " != ", ")"),
                    BinaryOp::Less => ("binary_less(", ", ", ")?"),
                    BinaryOp::Greater => ("binary_greater(", ", ", ")?"),
                    BinaryOp::LessEq => ("binary_less_eq(", ", ", ")?"),
                    _ => ("binary_greater_eq(", ", ", ")?"),
                };
                let mut r = owned(head);
                push_str(&mut r, l.as_str());
                push_str(&mut r, middle);
                push_str(&mut r, rt.as_str());
                push_str(&mut r, tail);
                r
            },
        }
    }

    fn compile_call(&mut self, name: &String, args: &Vec<Expr>) -> (r: String)
        ensures
            (r@, final(self)@) == expr_text(old(self)@, ExprV::Call { name: name@, args: exprs_view(args@) }),
            same_frame(old(self)@, final(self)@),
        decreases args, 2nat,
    {
        if starts_with(name, "gui_") {
            self.uses_gui = true;
        }
        let parts = self.compile_exprs(args, args.len());
        assert(exprs_view(args@).take(args.len() as int) =~= exprs_view(args@));
        let a = join_parts(&parts);
        match builtin_call(name, &a) {
            Some(t) => t,
            None => {
                let mut r = rust_fn(name);
                push_str(&mut r, "(");
                push_str(&mut r, a.as_str());
                push_str(&mut r, ")?");
                r
            },
        }
    }

    /// Compiles the first `n` expressions, in order.
    fn compile_exprs(&mut self, es: &Vec<Expr>, n: usize) -> (r: Vec<String>)
        requires
            n <= es.len(),
        ensures
            (texts(r@), final(self)@) == exprs_text(old(self)@, exprs_view(es@).take(n as int)),
            same_frame(old(self)@, final(self)@),
        decreases es, 0nat, n,
    {
        let ghost v = exprs_view(es@);
        if n == 0 {
            let r: Vec<String> = Vec::new();
            assert(texts(r@) =~= Seq::<Seq<char>>::empty());
            return r;
        }
        assert(v.take(n as int).drop_last() =~= v.take(n - 1));
        assert(v.len() == es@.len());
        assert(v[n - 1] == es@[n - 1]@);
        let mut parts = self.compile_exprs(es, n - 1);
        let t = self.compile_expr(&es[n - 1]);
        let ghost before = parts@;
        parts.push(t);
        assert(texts(parts@) =~= texts(before).push(t@));
        parts
    }

    /// Compiles the first `n` entries of a dictionary literal, in order.
    fn compile_entries(&mut self, pairs: &Vec<(String, Expr)>, n: usize) -> (r: Vec<String>)
        requires
            n <= pairs.len(),
        ensures
            (texts(r@), final(self)@) == entries_text(old(self)@, entries_view(pairs@).take(n as int)),
            same_frame(old(self)@, final(self)@),
        decreases pairs, 0nat, n,
    {
        let ghost v = entries_view(pairs@);
        if n == 0 {
            let r: Vec<String> = Vec::new();
            assert(texts(r@) =~= Seq::<Seq<char>>::empty());
            return r;
        }
        assert(v.take(n as int).drop_last() =~= v.take(n - 1));
        assert(v.len() == pairs@.len());
        assert(v[n - 1] == (pairs@[n - 1].0@, pairs@[n - 1].1@));
        let mut parts = self.compile_entries(pairs, n - 1);
        let value = self.compile_expr(&pairs[n - 1].1);
        let mut t = owned("(String::from(");
        let q = debug_quote(pairs[n - 1].0.as_str());
        push_str(&mut t, q.as_str());
        push_str(&mut t, "), ");
        push_str(&mut t, value.as_str());
        push_str(&mut t, ")");
        let ghost before = parts@;
        parts.push(t);
        assert(texts(parts@) =~= texts(before).push(t@));
        parts
    }
}

/// Compiling an expression changes only the temporary count and the GUI flag.
pub open spec fn same_frame(a: CompState, b: CompState) -> bool {
    a.return_type == b.return_type && a.function_name == b.function_name && a.loops == b.loops
}

/// `r` and `after` agree with the outcome `s` of a compilation rule.
pub open spec fn text_agrees(r: Result<String, String>, after: CompState, s: Result<(Seq<char>, CompState), Seq<char>>) -> bool {
    match s {
        Ok((t, s1)) => r is Ok && r->Ok_0@ == t && after == s1,
        Err(m) => r is Err && r->Err_0@ == m,
    }
}

pub open spec fn opt_assignment(o: Option<Assignment>) -> Option<AssignmentV> {
    match o {
        Some(a) => Some(a@),
        None => None,
    }
}

impl Compiler {
    fn compile_assignment(&mut self, a: &Assignment, ind: usize) -> (r: String)
        ensures
            final(self)@.loops == old(self)@.loops,
            (r@, final(self)@) == assignment_text(old(self)@, a@, ind),
    {
        let t = self.next_temp();
        let v = self.compile_expr(&a.value);
        let name = rust_var(&a.name);
        let inner = deeper(ind);
        let mut out = indent_line(ind, "{");
        let mut l1 = owned("let ");
        push_str(&mut l1, t.as_str());
        push_str(&mut l1, " = ");
        push_str(&mut l1, v.as_str());
        push_str(&mut l1, ";");
        let l1 = indent_line(inner, l1.as_str());
        push_str(&mut out, l1.as_str());
        let mut l2 = owned("ensure_same_type(&");
        push_str(&mut l2, name.as_str());
        push_str(&mut l2, ", &");
        push_str(&mut l2, t.as_str());
        push_str(&mut l2, ", \"");
        push_str(&mut l2, a.name.as_str());
        push_str(&mut l2, "\")?;");
        let l2 = indent_line(inner, l2.as_str());
        push_str(&mut out, l2.as_str());
        let mut l3 = name.clone();
        push_str(&mut l3, " = ");
        push_str(&mut l3, t.as_str());
        push_str(&mut l3, ";");
        let l3 = indent_line(inner, l3.as_str());
        push_str(&mut out, l3.as_str());
        let l4 = indent_line(ind, "}");
        push_str(&mut out, l4.as_str());
        out
    }

    fn compile_var_decl(&mut self, d: &VarDecl, ind: usize) -> (r: String)
        ensures
            final(self)@.loops == old(self)@.loops,
            (r@, final(self)@) == var_decl_text(old(self)@, d@, ind),
    {
        let v = self.compile_expr(&d.value);
        let name = rust_var(&d.name);
        let mut l1 = owned("let mut ");
        push_str(&mut l1, name.as_str());
        push_str(&mut l1, " = ");
        push_str(&mut l1, v.as_str());
        push_str(&mut l1, ";");
        let mut out = indent_line(ind, l1.as_str());
        let mut l2 = owned("assert_type(&");
        push_str(&mut l2, name.as_str());
        push_str(&mut l2, ", \"");
        let ty = clean_type(&d.ty);
        push_str(&mut l2, ty.as_str());
        push_str(&mut l2, "\", \"variable '");
        push_str(&mut l2, d.name.as_str());
        push_str(&mut l2, "'\")?;");
        let l2 = indent_line(ind, l2.as_str());
        push_str(&mut out, l2.as_str());
        out
    }

    fn compile_macro_call(&mut self, name: &String, args: &Vec<Expr>, ind: usize) -> (r: Result<String, String>)
        ensures
            final(self)@.loops == old(self)@.loops,
            text_agrees(r, final(self)@, macro_text(old(self)@, name@, exprs_view(args@), ind)),
    {
        assert(exprs_view(args@).len() == args@.len());
        if is_text(name, "cons") {
            if args.len() != 1 {
                return Err(owned("cons!() expects 1 argument."));
            }
            assert(exprs_view(args@)[0] == args@[0]@);
            let v = self.compile_expr(&args[0]);
            let mut l = owned("println!(\"{}\", ");
            push_str(&mut l, v.as_str());
            push_str(&mut l, ".to_output());");
            return Ok(indent_line(ind, l.as_str()));
        }
        if is_text(name, "push") {
            if args.len() != 2 {
                return Err(owned("push!() expects 2 arguments."));
            }
            assert(exprs_view(args@)[0] == args@[0]@);
            assert(exprs_view(args@)[1] == args@[1]@);
            let target = match &args[0] {
                Expr::Ident(n) => rust_var(n),
                _ => {
                    return Err(owned("push!() first argument must be an array variable."));
                },
            };
            let v = self.compile_expr(&args[1]);
            let mut l = owned("push_value(&mut ");
            push_str(&mut l, target.as_str());
            push_str(&mut l, ", ");
            push_str(&mut l, v.as_str());
            push_str(&mut l, ", \"push!\")?;");
            return Ok(indent_line(ind, l.as_str()));
        }
        if is_text(name, "set") {
            if args.len() != 3 {
                return Err(owned("set!() expects 3 arguments."));
            }
            assert(exprs_view(args@)[0] == args@[0]@);
            assert(exprs_view(args@)[1] == args@[1]@);
            assert(exprs_view(args@)[2] == args@[2]@);
            let target = match &args[0] {
                Expr::Ident(n) => rust_var(n),
                _ => {
                    return Err(owned("set!() first argument must be a dictionary variable."));
                },
            };
            let k = self.compile_expr(&args[1]);
            let v = self.compile_expr(&args[2]);
            let mut l = owned("set_value(&mut ");
            push_str(&mut l, target.as_str());
            push_str(&mut l, ", ");
            push_str(&mut l, k.as_str());
            push_str(&mut l, ", ");
            push_str(&mut l, v.as_str());
            push_str(&mut l, ", \"set!\")?;");
            return Ok(indent_line(ind, l.as_str()));
        }
        let mut m = owned("Unknown macro '");
        push_str(&mut m, name.as_str());
        push_str(&mut m, "!'.");
        Err(m)
    }

    /// Compiles a loop body with `l` as the innermost loop.
    fn compile_loop_body(&mut self, body: &Vec<Stmt>, ind: usize, l: Option<Assignment>) -> (r: Result<String, String>)
        ensures
            final(self)@.loops == old(self)@.loops,
            text_agrees(r, final(self)@, loop_body_text(old(self)@, stmts_view(body@), ind, opt_assignment(l))),
        decreases body, 1nat, 0nat,
    {
        let ghost lv = opt_assignment(l);
        self.loop_stack.push(l);
        proof {
            assert(loops_view(self.loop_stack@) =~= loops_view(old(self).loop_stack@).push(lv));
            assert(self@ == with_loop(old(self)@, lv));
        }
        let r = self.compile_stmts(body, body.len(), ind);
        assert(stmts_view(body@).take(body.len() as int) =~= stmts_view(body@));
        let ghost mid = self@;
        let _ = self.loop_stack.pop();
        proof {
            if mid.loops.len() > 0 {
                assert(self@.loops =~= mid.loops.drop_last());
            }
            assert(self@ == without_loop(mid));
        }
        r
    }

    /// Compiles the first `n` statements of `body`, in order.
    fn compile_stmts(&mut self, body: &Vec<Stmt>, n: usize, ind: usize) -> (r: Result<String, String>)
        requires
            n <= body.len(),
        ensures
            final(self)@.loops == old(self)@.loops,
            text_agrees(r, final(self)@, stmts_text(old(self)@, stmts_view(body@).take(n as int), ind)),
        decreases body, 0nat, n,
    {
        let ghost v = stmts_view(body@);
        if n == 0 {
            return Ok(String::new());
        }
        assert(v.take(n as int).drop_last() =~= v.take(n - 1));
        assert(v.len() == body@.len());
        assert(v[n - 1] == body@[n - 1]@);
        assert(v.take(n as int).last() == body@[n - 1]@);
        let mut t = match self.compile_stmts(body, n - 1, ind) {
            Err(m) => {
                return Err(m);
            },
            Ok(t) => t,
        };
        let u = match self.compile_stmt(&body[n - 1], ind) {
            Err(m) => {
                return Err(m);
            },
            Ok(u) => u,
        };
        push_str(&mut t, u.as_str());
        Ok(t)
    }

    #[verifier::spinoff_prover]
    #[verifier::rlimit(60)]
    fn compile_stmt(&mut self, s: &Stmt, ind: usize) -> (r: Result<String, String>)
        ensures
            final(self)@.loops == old(self)@.loops,
            text_agrees(r, final(self)@, stmt_text(old(self)@, s@, ind)),
        decreases s, 2nat, 0nat,
    {
        match s {
            Stmt::VarDecl(d) => Ok(self.compile_var_decl(d, ind)),
            Stmt::MacroCall(call) => self.compile_macro_call(&call.name, &call.args, ind),
            Stmt::FunctionCall(call) => {
                let mut t = self.compile_call(&call.name, &call.args);
                push_str(&mut t, ";");
                Ok(indent_line(ind, t.as_str()))
            },
            Stmt::Assignment(a) => Ok(self.compile_assignment(a, ind)),
            Stmt::If(if_stmt) => self.compile_if(if_stmt, ind),
            Stmt::While(w) => self.compile_while(w, ind),
            Stmt::For(f) => self.compile_for(f, ind),
            Stmt::ForEach(f) => self.compile_for_each(f, ind),
            Stmt::Break => Ok(indent_line(ind, "break;")),
            Stmt::Continue => self.compile_continue(ind),
            Stmt::Return(r) => self.compile_return(r, ind),
        }
    }

    #[verifier::spinoff_prover]
    fn compile_while(&mut self, w: &crate::ast::WhileStmt, ind: usize) -> (r: Result<String, String>)
        ensures
            final(self)@.loops == old(self)@.loops,
            text_agrees(r, final(self)@, stmt_text(old(self)@, Stmt::While(*w)@, ind)),
        decreases w, 0nat, 0nat,
    {
        let c = self.compile_expr(&w.condition);
        let b = match self.compile_loop_body(&w.body, deeper(ind), None) {
            Err(m) => {
                return Err(m);
            },
            Ok(b) => b,
        };
        let mut head = owned("while expect_bool(");
        push_str(&mut head, c.as_str());
        push_str(&mut head, ", \"while condition\")? {");
        let mut out = indent_line(ind, head.as_str());
        push_str(&mut out, b.as_str());
        let close = indent_line(ind, "}");
        push_str(&mut out, close.as_str());
        Ok(out)
    }

    #[verifier::spinoff_prover]
    fn compile_continue(&mut self, ind: usize) -> (r: Result<String, String>)
        ensures
            final(self)@.loops == old(self)@.loops,
            text_agrees(r, final(self)@, stmt_text(old(self)@, crate::ast::StmtV::Continue, ind)),
    {
        let update = if self.loop_stack.len() > 0 {
            match &self.loop_stack[self.loop_stack.len() - 1] {
                Some(a) => Some(copy_assignment(a)),
                None => None,
            }
        } else {
            None
        };
        match update {
            Some(a) => {
                let mut u = self.compile_assignment(&a, ind);
                let c = indent_line(ind, "continue;");
                push_str(&mut u, c.as_str());
                Ok(u)
            },
            None => Ok(indent_line(ind, "continue;")),
        }
    }

    #[verifier::spinoff_prover]
    #[verifier::rlimit(50)]
    fn compile_return(&mut self, r: &crate::ast::ReturnStmt, ind: usize) -> (res: Result<String, String>)
        ensures
            final(self)@.loops == old(self)@.loops,
            text_agrees(res, final(self)@, return_text(old(self)@, r.value@, ind)),
    {
                let v = self.compile_expr(&r.value);
                let t = self.next_temp();
                let i1 = deeper(ind);
                let mut out = indent_line(ind, "{");
                let mut l1 = owned("let ");
                push_str(&mut l1, t.as_str());
                push_str(&mut l1, " = ");
                push_str(&mut l1, v.as_str());
                push_str(&mut l1, ";");
                let l1 = indent_line(i1, l1.as_str());
                push_str(&mut out, l1.as_str());
                let check = return_check_text(&self.current_return_type, &self.current_function_name, &t, i1);
                push_str(&mut out, check.as_str());
                let mut l3 = owned("return Ok(");
                push_str(&mut l3, t.as_str());
                push_str(&mut l3, ");");
                let l3 = indent_line(i1, l3.as_str());
                push_str(&mut out, l3.as_str());
                let l4 = indent_line(ind, "}");
                push_str(&mut out, l4.as_str());
                Ok(out)
    }

    #[verifier::spinoff_prover]
    fn compile_if(&mut self, if_stmt: &crate::ast::IfStmt, ind: usize) -> (r: Result<String, String>)
        ensures
            final(self)@.loops == old(self)@.loops,
            text_agrees(
                r,
                final(self)@,
                stmt_text(old(self)@, Stmt::If(*if_stmt)@, ind),
            ),
        decreases if_stmt, 0nat, 0nat,
    {
        let c = self.compile_expr(&if_stmt.condition);
        let mut head = owned("if expect_bool(");
        push_str(&mut head, c.as_str());
        push_str(&mut head, ", \"if condition\")? {");
        let mut out = indent_line(ind, head.as_str());
        let t = self.compile_stmts(&if_stmt.then_body, if_stmt.then_body.len(), deeper(ind));
        assert(stmts_view(if_stmt.then_body@).take(if_stmt.then_body.len() as int) =~= stmts_view(if_stmt.then_body@));
        let t = match t {
            Err(m) => {
                return Err(m);
            },
            Ok(t) => t,
        };
        push_str(&mut out, t.as_str());
        let spaces = indentation(ind);
        push_str(&mut out, spaces.as_str());
        push_str(&mut out, "}");
        match &if_stmt.else_body {
            None => {
                push_str(&mut out, "\n");
                Ok(out)
            },
            Some(b) => {
                let e = self.compile_stmts(b, b.len(), deeper(ind));
                assert(stmts_view(b@).take(b.len() as int) =~= stmts_view(b@));
                let e = match e {
                    Err(m) => {
                        return Err(m);
                    },
                    Ok(e) => e,
                };
                push_str(&mut out, " else {\n");
                push_str(&mut out, e.as_str());
                let close = indent_line(ind, "}");
                push_str(&mut out, close.as_str());
                Ok(out)
            },
        }
    }

    #[verifier::spinoff_prover]
    fn compile_for(&mut self, f: &crate::ast::ForStmt, ind: usize) -> (r: Result<String, String>)
        ensures
            final(self)@.loops == old(self)@.loops,
            text_agrees(r, final(self)@, stmt_text(old(self)@, Stmt::For(*f)@, ind)),
        decreases f, 0nat, 0nat,
    {
        let init = self.compile_expr(&f.initializer.value);
        let c = self.compile_expr(&f.condition);
        let i1 = deeper(ind);
        let i2 = deeper(i1);
        let name = rust_var(&f.initializer.name);
        let mut out = indent_line(ind, "{");
        let mut l1 = owned("let mut ");
        push_str(&mut l1, name.as_str());
        push_str(&mut l1, " = ");
        push_str(&mut l1, init.as_str());
        push_str(&mut l1, ";");
        let l1 = indent_line(i1, l1.as_str());
        push_str(&mut out, l1.as_str());
        let mut l2 = owned("assert_type(&");
        push_str(&mut l2, name.as_str());
        push_str(&mut l2, ", \"");
        let ty = clean_type(&f.initializer.ty);
        push_str(&mut l2, ty.as_str());
        push_str(&mut l2, "\", \"for initializer '");
        push_str(&mut l2, f.initializer.name.as_str());
        push_str(&mut l2, "'\")?;");
        let l2 = indent_line(i1, l2.as_str());
        push_str(&mut out, l2.as_str());
        let mut l3 = owned("while expect_bool(");
        push_str(&mut l3, c.as_str());
        push_str(&mut l3, ", \"for condition\")? {");
        let l3 = indent_line(i1, l3.as_str());
        push_str(&mut out, l3.as_str());
        let b = match self.compile_loop_body(&f.body, i2, Some(copy_assignment(&f.update))) {
            Err(m) => {
                return Err(m);
            },
            Ok(b) => b,
        };
        push_str(&mut out, b.as_str());
        let u = self.compile_assignment(&f.update, i2);
        push_str(&mut out, u.as_str());
        let c1 = indent_line(i1, "}");
        push_str(&mut out, c1.as_str());
        let c2 = indent_line(ind, "}");
        push_str(&mut out, c2.as_str());
        Ok(out)
    }

    #[verifier::spinoff_prover]
    fn compile_for_each(&mut self, f: &crate::ast::ForEachStmt, ind: usize) -> (r: Result<String, String>)
        ensures
            final(self)@.loops == old(self)@.loops,
            text_agrees(r, final(self)@, stmt_text(old(self)@, Stmt::ForEach(*f)@, ind)),
        decreases f, 0nat, 0nat,
    {
        let it = self.compile_expr(&f.iterable);
        let t = self.next_temp();
        let keys = self.next_temp();
        let v = rust_var(&f.item_name);
        let ty = clean_type(&f.item_ty);
        let i4 = deeper(deeper(deeper(deeper(ind))));
        let mut out = for_each_head_text(ind, &t, &it, &v, &ty, &f.item_name);
        let array_body = match self.compile_loop_body(&f.body, i4, None) {
            Err(m) => {
                return Err(m);
            },
            Ok(b) => b,
        };
        push_str(&mut out, array_body.as_str());
        let middle = for_each_middle_text(ind, &keys, &v, &ty, &f.item_name);
        push_str(&mut out, middle.as_str());
        let dict_body = match self.compile_loop_body(&f.body, i4, None) {
            Err(m) => {
                return Err(m);
            },
            Ok(b) => b,
        };
        push_str(&mut out, dict_body.as_str());
        let tail = for_each_tail_text(ind);
        push_str(&mut out, tail.as_str());
        Ok(out)
    }
}

fn for_each_head_text(ind: usize, t: &String, it: &String, v: &String, ty: &String, name: &String) -> (r: String)
    ensures
        r@ == for_each_head(ind, t@, it@, v@, ty@, name@),
{
    let i1 = deeper(ind);
    let i2 = deeper(i1);
    let i3 = deeper(i2);
    let i4 = deeper(i3);
    let mut out = indent_line(ind, "{");
    let mut l = owned("let ");
    push_str(&mut l, t.as_str());
    push_str(&mut l, " = ");
    push_str(&mut l, it.as_str());
    push_str(&mut l, ";");
    let l = indent_line(i1, l.as_str());
    push_str(&mut out, l.as_str());
    let mut l = owned("match ");
    push_str(&mut l, t.as_str());
    push_str(&mut l, " {");
    let l = indent_line(i1, l.as_str());
    push_str(&mut out, l.as_str());
    let l = indent_line(i2, "RtValue::Array(values) => {");
    push_str(&mut out, l.as_str());
    let l = indent_line(i3, "for item in values {");
    push_str(&mut out, l.as_str());
    let mut l = owned("let mut ");
    push_str(&mut l, v.as_str());
    push_str(&mut l, " = item;");
    let l = indent_line(i4, l.as_str());
    push_str(&mut out, l.as_str());
    let mut l = owned("assert_type(&");
    push_str(&mut l, v.as_str());
    push_str(&mut l, ", \"");
    push_str(&mut l, ty.as_str());
    push_str(&mut l, "\", \"for-each item '");
    push_str(&mut l, name.as_str());
    push_str(&mut l, "'\")?;");
    let l = indent_line(i4, l.as_str());
    push_str(&mut out, l.as_str());
    out
}

fn for_each_middle_text(ind: usize, keys: &String, v: &String, ty: &String, name: &String) -> (r: String)
    ensures
        r@ == for_each_middle(ind, keys@, v@, ty@, name@),
{
    let i1 = deeper(ind);
    let i2 = deeper(i1);
    let i3 = deeper(i2);
    let i4 = deeper(i3);
    let mut out = indent_line(i3, "}");
    let l = indent_line(i2, "}");
    push_str(&mut out, l.as_str());
    let l = indent_line(i2, "RtValue::Dict(values) => {");
    push_str(&mut out, l.as_str());
    let mut l = owned("let mut ");
    push_str(&mut l, keys.as_str());
    push_str(&mut l, ": Vec<String> = values.keys().cloned().collect();");
    let l = indent_line(i3, l.as_str());
    push_str(&mut out, l.as_str());
    let mut l = keys.clone();
    push_str(&mut l, ".sort();");
    let l = indent_line(i3, l.as_str());
    push_str(&mut out, l.as_str());
    let mut l = owned("for key in ");
    push_str(&mut l, keys.as_str());
    push_str(&mut l, " {");
    let l = indent_line(i3, l.as_str());
    push_str(&mut out, l.as_str());
    let mut l = owned("let mut ");
    push_str(&mut l, v.as_str());
    push_str(&mut l, " = RtValue::Str(key);");
    let l = indent_line(i4, l.as_str());
    push_str(&mut out, l.as_str());
    let mut l = owned("assert_type(&");
    push_str(&mut l, v.as_str());
    push_str(&mut l, ", \"");
    push_str(&mut l, ty.as_str());
    push_str(&mut l, "\", \"for-each key '");
    push_str(&mut l, name.as_str());
    push_str(&mut l, "'\")?;");
    let l = indent_line(i4, l.as_str());
    push_str(&mut out, l.as_str());
    out
}

fn return_check_text(rt: &Option<String>, fname: &String, t: &String, ind: usize) -> (r: String)
    ensures
        r@ == return_check(opt_text(*rt), fname@, t@, ind),
{
    match rt {
        Some(rt) => {
            let mut l = owned("assert_type(&");
            push_str(&mut l, t.as_str());
            push_str(&mut l, ", \"");
            let ty = clean_type(rt);
            push_str(&mut l, ty.as_str());
            push_str(&mut l, "\", \"return value from '");
            push_str(&mut l, fname.as_str());
            push_str(&mut l, "'\")?;");
            indent_line(ind, l.as_str())
        },
        None => String::new(),
    }
}

fn for_each_tail_text(ind: usize) -> (r: String)
    ensures
        r@ == for_each_tail(ind),
{
    let i1 = deeper(ind);
    let i2 = deeper(i1);
    let i3 = deeper(i2);
    let mut out = indent_line(i3, "}");
    let l = indent_line(i2, "}");
    push_str(&mut out, l.as_str());
    let l = indent_line(
        i2,
        "other => return Err(format!(\"for-each expected arr or dict, got {}.\", other.type_name())),",
    );
    push_str(&mut out, l.as_str());
    let l = indent_line(i1, "}");
    push_str(&mut out, l.as_str());
    let l = indent_line(ind, "}");
    push_str(&mut out, l.as_str());
    out
}

/// Whether a function named `main` is among the items.
fn find_main(items: &Vec<Item>) -> (r: bool)
    ensures
        r == has_main(items_view(items@)),
{
    let ghost v = items_view(items@);
    let mut i: usize = 0;
    while i < items.len()
        invariant
            i <= items.len(),
            v == items_view(items@),
            forall|k: int| 0 <= k < i ==> !is_main(#[trigger] v[k]),
        decreases items.len() - i,
    {
        assert(v[i as int] == items@[i as int]@);
        if let Item::Function(f) = &items[i] {
            if is_text(&f.name, "main") {
                assert(is_main(v[i as int]));
                return true;
            }
        }
        i += 1;
    }
    false
}

impl Compiler {
    /// The parameter list of a compiled function's signature.
    fn param_list(params: &Vec<Param>) -> (r: String)
        ensures
            r@ == joined(params_view(params@).map_values(|p: ParamV| param_decl_text(p))),
    {
        let ghost pv = params_view(params@).map_values(|p: ParamV| param_decl_text(p));
        let mut parts: Vec<String> = Vec::new();
        let mut i: usize = 0;
        while i < params.len()
            invariant
                i <= params.len(),
                pv == params_view(params@).map_values(|p: ParamV| param_decl_text(p)),
                texts(parts@) == pv.take(i as int),
            decreases params.len() - i,
        {
            let mut d = owned("mut ");
            let name = rust_var(&params[i].name);
            push_str(&mut d, name.as_str());
            push_str(&mut d, ": RtValue");
            let ghost before = parts@;
            parts.push(d);
            assert(texts(parts@) =~= texts(before).push(d@));
            assert(pv.take(i + 1) =~= pv.take(i as int).push(pv[i as int]));
            i += 1;
        }
        assert(pv.take(params.len() as int) =~= pv);
        join_parts(&parts)
    }

    /// The type checks of the parameters.
    fn param_checks(params: &Vec<Param>) -> (r: String)
        ensures
            r@ == param_checks_text(params_view(params@)),
    {
        let ghost pv = params_view(params@);
        let mut out = String::new();
        let mut i: usize = 0;
        while i < params.len()
            invariant
                i <= params.len(),
                pv == params_view(params@),
                out@ == param_checks_text(pv.take(i as int)),
            decreases params.len() - i,
        {
            assert(pv.take(i + 1).drop_last() =~= pv.take(i as int));
            let mut l = owned("assert_type(&");
            let name = rust_var(&params[i].name);
            push_str(&mut l, name.as_str());
            push_str(&mut l, ", \"");
            let ty = clean_type(&params[i].ty);
            push_str(&mut l, ty.as_str());
            push_str(&mut l, "\", \"parameter '");
            push_str(&mut l, params[i].name.as_str());
            push_str(&mut l, "'\")?;");
            let l = indent_line(1, l.as_str());
            push_str(&mut out, l.as_str());
            i += 1;
        }
        assert(pv.take(params.len() as int) =~= pv);
        out
    }

    fn compile_function(&mut self, f: &Function) -> (r: Result<String, String>)
        ensures
            final(self)@.loops == old(self)@.loops,
            text_agrees(r, final(self)@, function_text(old(self)@, f@)),
    {
        self.current_return_type = match &f.return_type {
            Some(t) => Some(t.clone()),
            None => None,
        };
        self.current_function_name = f.name.clone();
        let mut out = owned("fn ");
        let name = rust_fn(&f.name);
        push_str(&mut out, name.as_str());
        push_str(&mut out, "(");
        let params = Self::param_list(&f.params);
        push_str(&mut out, params.as_str());
        push_str(&mut out, ") -> Result<RtValue, String> {\n");
        let checks = Self::param_checks(&f.params);
        push_str(&mut out, checks.as_str());
        let body = self.compile_stmts(&f.body, f.body.len(), 1);
        assert(stmts_view(f.body@).take(f.body.len() as int) =~= stmts_view(f.body@));
        let body = match body {
            Err(m) => {
                return Err(m);
            },
            Ok(b) => b,
        };
        push_str(&mut out, body.as_str());
        let tail = match &f.return_type {
            Some(rt) => {
                let mut l = owned("Err(format!(\"Function '");
                push_str(&mut l, f.name.as_str());
                push_str(&mut l, "' expected return type ");
                let ty = clean_type(rt);
                push_str(&mut l, ty.as_str());
                push_str(&mut l, ", but returned nothing.\"))");
                indent_line(1, l.as_str())
            },
            None => indent_line(1, "Ok(RtValue::Bool(true))"),
        };
        push_str(&mut out, tail.as_str());
        push_str(&mut out, "}\n");
        self.current_return_type = None;
        self.current_function_name = String::new();
        Ok(out)
    }

    /// Compiles the functions among the first `n` items.
    fn compile_functions(&mut self, items: &Vec<Item>, n: usize) -> (r: Result<String, String>)
        requires
            n <= items.len(),
        ensures
            final(self)@.loops == old(self)@.loops,
            text_agrees(r, final(self)@, functions_text(old(self)@, items_view(items@).take(n as int))),
        decreases n,
    {
        let ghost v = items_view(items@);
        if n == 0 {
            return Ok(String::new());
        }
        assert(v.take(n as int).drop_last() =~= v.take(n - 1));
        let mut t = match self.compile_functions(items, n - 1) {
            Err(m) => {
                return Err(m);
            },
            Ok(t) => t,
        };
        match &items[n - 1] {
            Item::VarDecl(_) => Err(owned("Top-level variables are not supported by tsst build yet.")),
            Item::Function(f) => {
                let u = match self.compile_function(f) {
                    Err(m) => {
                        return Err(m);
                    },
                    Ok(u) => u,
                };
                push_str(&mut t, u.as_str());
                push_str(&mut t, "\n");
                Ok(t)
            },
        }
    }

    /// Compiles a program to Rust source: the runtime, each function, and an entry point.
    pub fn compile_program(&mut self, program: &Program) -> (r: Result<String, String>)
        ensures
            final(self)@.loops == old(self)@.loops,
            text_agrees(r, final(self)@, program_text(old(self)@, program@)),
    {
        self.uses_gui = false;
        let fs = self.compile_functions(&program.items, program.items.len());
        assert(items_view(program.items@).take(program.items.len() as int) =~= items_view(program.items@));
        let fs = match fs {
            Err(m) => {
                return Err(m);
            },
            Ok(fs) => fs,
        };
        let mut output = runtime_source(self.uses_gui);
        push_str(&mut output, "\n");
        push_str(&mut output, fs.as_str());
        if !find_main(&program.items) {
            return Err(owned("Cannot build project because no main function exists."));
        }
        push_str(&mut output, MAIN_WRAPPER);
        Ok(output)
    }
}

} // verus!
