//! The Rust text that each construct of the language compiles to.
//!
//! A compilation state counts the temporaries handed out, remembers the
//! function being compiled, the enclosing loops (with the update of each
//! classic `for` loop) and whether a GUI builtin was called.
use vstd::prelude::*;
use crate::ast::{AssignmentV, BinaryOp, ExprV, FunctionV, ItemV, ParamV, ProgramV, StmtV, UnaryOp, VarDeclV};
use crate::runtime::runtime_text;
use crate::text::{bool_text, clean_type_text, has_prefix, int_decimal, nat_decimal};

verus! {

/// How `{:?}` renders a string: quoted, with escapes.
pub uninterp spec fn debug_str(s: Seq<char>) -> Seq<char>;

/// `format!("{:?}", s)`: std's `Debug` rendering of a string slice. Its result is
/// named, not stated; it depends on `s` alone.
#[verifier::external_body]
pub(crate) fn debug_quote(s: &str) -> (r: String)
    ensures
        r@ == debug_str(s@),
{
    format!("{:?}", s)
}

pub struct CompState {
    pub temp: usize,
    pub return_type: Option<Seq<char>>,
    pub function_name: Seq<char>,
    pub loops: Seq<Option<AssignmentV>>,
    pub uses_gui: bool,
}

pub open spec fn is_ident_char(c: char) -> bool {
    ('a' <= c <= 'z') || ('A' <= c <= 'Z') || ('0' <= c <= '9') || c == '_'
}

/// Each character that cannot stand in a Rust identifier becomes `_`.
pub open spec fn ident_chars(name: Seq<char>) -> Seq<char> {
    name.map_values(|c: char| if is_ident_char(c) { c } else { '_' })
}

/// A Rust identifier made from a name: never empty, never starting with a digit.
pub open spec fn sanitized(name: Seq<char>) -> Seq<char> {
    let s = ident_chars(name);
    if s.len() == 0 {
        seq!['_']
    } else if '0' <= s[0] <= '9' {
        seq!['_'] + s
    } else {
        s
    }
}

pub open spec fn var_text(name: Seq<char>) -> Seq<char> {
    "v_"@ + sanitized(name)
}

pub open spec fn fn_text(name: Seq<char>) -> Seq<char> {
    "tsst_"@ + sanitized(name)
}

/// Four spaces per level.
pub open spec fn indent_text(n: nat) -> Seq<char>
    decreases n,
{
    if n == 0 {
        Seq::empty()
    } else {
        indent_text((n - 1) as nat) + "    "@
    }
}

/// One line of output at a given indentation.
pub open spec fn line(n: usize, v: Seq<char>) -> Seq<char> {
    indent_text(n as nat) + v + "\n"@
}

/// One level deeper (the count stops at its largest value).
pub open spec fn inc(n: usize) -> usize {
    if n < usize::MAX {
        (n + 1) as usize
    } else {
        n
    }
}

/// The parts joined with `, `.
pub open spec fn joined(parts: Seq<Seq<char>>) -> Seq<char>
    decreases parts.len(),
{
    if parts.len() == 0 {
        Seq::empty()
    } else if parts.len() == 1 {
        parts[0]
    } else {
        joined(parts.drop_last()) + ", "@ + parts.last()
    }
}

/// The state after handing out one more temporary.
pub open spec fn bumped(st: CompState) -> CompState {
    CompState { temp: inc(st.temp), ..st }
}

/// The name of the temporary handed out last in `st`.
pub open spec fn temp_text(st: CompState) -> Seq<char> {
    "__tsst_temp_"@ + nat_decimal(st.temp as nat)
}

/// The runtime call that a builtin compiles to, given its compiled arguments.
pub open spec fn builtin_call_text(name: Seq<char>, args: Seq<char>) -> Option<Seq<char>> {
    let wrap = |f: Seq<char>| Some(f + "("@ + args + ")?"@);
    if name == "len"@ {
        wrap("builtin_len"@)
    } else if name == "input_str"@ {
        wrap("builtin_input_str"@)
    } else if name == "input_int"@ {
        wrap("builtin_input_int"@)
    } else if name == "lower"@ {
        wrap("builtin_lower"@)
    } else if name == "upper"@ {
        wrap("builtin_upper"@)
    } else if name == "trim"@ {
        wrap("builtin_trim"@)
    } else if name == "contains"@ {
        wrap("builtin_contains"@)
    } else if name == "os_run"@ {
        wrap("builtin_os_run"@)
    } else if name == "os_capture"@ {
        wrap("builtin_os_capture"@)
    } else if name == "os_get_env"@ {
        wrap("builtin_os_get_env"@)
    } else if name == "os_set_env"@ {
        wrap("builtin_os_set_env"@)
    } else if name == "os_read_file"@ {
        wrap("builtin_os_read_file"@)
    } else if name == "os_write_file"@ {
        wrap("builtin_os_write_file"@)
    } else if name == "os_exists"@ {
        wrap("builtin_os_exists"@)
    } else if name == "os_sleep"@ {
        wrap("builtin_os_sleep"@)
    } else if name == "os_current_dir"@ {
        Some("builtin_os_current_dir()?"@)
    } else {
        None
    }
}

/// The runtime function applied by a binary operator other than `&&` and `||`.
pub open spec fn binary_text(op: BinaryOp, l: Seq<char>, r: Seq<char>) -> Seq<char> {
    match op {
        BinaryOp::Add => "binary_add("@ + l + ", "@ + r + ")?"@,
        BinaryOp::Sub => "binary_sub("@ + l + ", "@ + r + ")?"@,
        BinaryOp::Mul => "binary_mul("@ + l + ", "@ + r + ")?"@,
        BinaryOp::Div => "binary_div("@ + l + ", "@ + r + ")?"@,
        BinaryOp::Eq => "RtValue::Bool("@ + l + " == "@ + r + ")"@,
        BinaryOp::NotEq => "RtValue::Bool("@ + l + " != "@ + r + ")"@,
        BinaryOp::Less => "binary_less("@ + l + ", "@ + r + ")?"@,
        BinaryOp::Greater => "binary_greater("@ + l + ", "@ + r + ")?"@,
        BinaryOp::LessEq => "binary_less_eq("@ + l + ", "@ + r + ")?"@,
        BinaryOp::GreaterEq => "binary_greater_eq("@ + l + ", "@ + r + ")?"@,
        BinaryOp::And => "&&"@,
        BinaryOp::Or => "||"@,
    }
}

/// The short-circuit form of `&&` (`is_and`) or `||` with temporary `t`.
pub open spec fn logic_text(is_and: bool, t: Seq<char>, l: Seq<char>, r: Seq<char>) -> Seq<char> {
    if is_and {
        "{ let "@ + t + " = expect_bool("@ + l + ", \"&& left\")?; if !"@ + t
            + " { RtValue::Bool(false) } else { RtValue::Bool(expect_bool("@ + r
            + ", \"&& right\")?) } }"@
    } else {
        "{ let "@ + t + " = expect_bool("@ + l + ", \"|| left\")?; if "@ + t
            + " { RtValue::Bool(true) } else { RtValue::Bool(expect_bool("@ + r
            + ", \"|| right\")?) } }"@
    }
}

/// The text of an expression and the state after compiling it.
pub open spec fn expr_text(st: CompState, e: ExprV) -> (Seq<char>, CompState)
    decreases e, 1nat,
{
    match e {
        ExprV::Int(v) => ("RtValue::Int("@ + int_decimal(v as int) + ")"@, st),
        ExprV::Str(v) => ("RtValue::Str(String::from("@ + debug_str(v) + "))"@, st),
        ExprV::Bool(b) => ("RtValue::Bool("@ + bool_text(b) + ")"@, st),
        ExprV::Ident(n) => (var_text(n) + ".clone()"@, st),
        ExprV::ArrayLiteral(values) => {
            let (parts, s1) = exprs_text(st, values);
            ("RtValue::Array(vec!["@ + joined(parts) + "])"@, s1)
        },
        ExprV::DictLiteral(pairs) => if pairs.len() == 0 {
            ("RtValue::Dict(HashMap::new())"@, st)
        } else {
            let (parts, s1) = entries_text(st, pairs);
            ("RtValue::Dict(HashMap::from(["@ + joined(parts) + "]))"@, s1)
        },
        ExprV::Index { target, index } => {
            let (t, s1) = expr_text(st, *target);
            let (i, s2) = expr_text(s1, *index);
            ("index_value("@ + t + ", "@ + i + ")?"@, s2)
        },
        ExprV::Call { name, args } => {
            let s0 = if has_prefix(name, "gui_"@) {
                CompState { uses_gui: true, ..st }
            } else {
                st
            };
            let (parts, s1) = exprs_text(s0, args);
            let a = joined(parts);
            match builtin_call_text(name, a) {
                Some(t) => (t, s1),
                None => (fn_text(name) + "("@ + a + ")?"@, s1),
            }
        },
        ExprV::Unary { op, expr } => {
            let (v, s1) = expr_text(st, *expr);
            match op {
                UnaryOp::Not => ("unary_not("@ + v + ")?"@, s1),
                UnaryOp::Neg => ("unary_neg("@ + v + ")?"@, s1),
            }
        },
        ExprV::Binary { left, op, right } => if op == BinaryOp::And || op == BinaryOp::Or {
            let s0 = bumped(st);
            let (l, s1) = expr_text(s0, *left);
            let (r, s2) = expr_text(s1, *right);
            (logic_text(op == BinaryOp::And, temp_text(s0), l, r), s2)
        } else {
            let (l, s1) = expr_text(st, *left);
            let (r, s2) = expr_text(s1, *right);
            (binary_text(op, l, r), s2)
        },
    }
}

/// The texts of a sequence of expressions, compiled in order.
pub open spec fn exprs_text(st: CompState, es: Seq<ExprV>) -> (Seq<Seq<char>>, CompState)
    decreases es, 0nat,
{
    if es.len() == 0 {
        (Seq::empty(), st)
    } else {
        let (parts, s1) = exprs_text(st, es.drop_last());
        let (t, s2) = expr_text(s1, es.last());
        (parts.push(t), s2)
    }
}

/// The texts of the entries of a dictionary literal, compiled in order.
pub open spec fn entries_text(st: CompState, pairs: Seq<(Seq<char>, ExprV)>) -> (Seq<Seq<char>>, CompState)
    decreases pairs, 0nat,
{
    if pairs.len() == 0 {
        (Seq::empty(), st)
    } else {
        let (parts, s1) = entries_text(st, pairs.drop_last());
        let (t, s2) = expr_text(s1, pairs.last().1);
        (parts.push("(String::from("@ + debug_str(pairs.last().0) + "), "@ + t + ")"@), s2)
    }
}

/// The `main` that runs the compiled `main` function and reports a runtime error.
pub const MAIN_WRAPPER: &'static str = r#"
fn main() {
    match tsst_main() {
        Ok(_) => {}
        Err(error) => {
            eprintln!("Runtime error: {}", error);
            std::process::exit(1);
        }
    }
}
"#;

/// An assignment: the value goes through a temporary and a type check.
pub open spec fn assignment_text(st: CompState, a: AssignmentV, ind: usize) -> (Seq<char>, CompState) {
    let s0 = bumped(st);
    let t = temp_text(s0);
    let (v, s1) = expr_text(s0, a.value);
    let inner = inc(ind);
    (
        line(ind, "{"@) + line(inner, "let "@ + t + " = "@ + v + ";"@) + line(
            inner,
            "ensure_same_type(&"@ + var_text(a.name) + ", &"@ + t + ", \""@ + a.name + "\")?;"@,
        ) + line(inner, var_text(a.name) + " = "@ + t + ";"@) + line(ind, "}"@),
        s1,
    )
}

/// A variable declaration with its type check.
pub open spec fn var_decl_text(st: CompState, d: VarDeclV, ind: usize) -> (Seq<char>, CompState) {
    let (v, s1) = expr_text(st, d.value);
    (
        line(ind, "let mut "@ + var_text(d.name) + " = "@ + v + ";"@) + line(
            ind,
            "assert_type(&"@ + var_text(d.name) + ", \""@ + clean_type_text(d.ty) + "\", \"variable '"@
                + d.name + "'\")?;"@,
        ),
        s1,
    )
}

/// A macro call: `cons!`, `push!` or `set!`.
pub open spec fn macro_text(st: CompState, name: Seq<char>, args: Seq<ExprV>, ind: usize) -> Result<(Seq<char>, CompState), Seq<char>> {
    if name == "cons"@ {
        if args.len() != 1 {
            Err("cons!() expects 1 argument."@)
        } else {
            let (v, s1) = expr_text(st, args[0]);
            Ok((line(ind, "println!(\"{}\", "@ + v + ".to_output());"@), s1))
        }
    } else if name == "push"@ {
        if args.len() != 2 {
            Err("push!() expects 2 arguments."@)
        } else {
            match args[0] {
                ExprV::Ident(n) => {
                    let (v, s1) = expr_text(st, args[1]);
                    Ok(
                        (
                            line(ind, "push_value(&mut "@ + var_text(n) + ", "@ + v + ", \"push!\")?;"@),
                            s1,
                        ),
                    )
                },
                _ => Err("push!() first argument must be an array variable."@),
            }
        }
    } else if name == "set"@ {
        if args.len() != 3 {
            Err("set!() expects 3 arguments."@)
        } else {
            match args[0] {
                ExprV::Ident(n) => {
                    let (k, s1) = expr_text(st, args[1]);
                    let (v, s2) = expr_text(s1, args[2]);
                    Ok(
                        (
                            line(
                                ind,
                                "set_value(&mut "@ + var_text(n) + ", "@ + k + ", "@ + v
                                    + ", \"set!\")?;"@,
                            ),
                            s2,
                        ),
                    )
                },
                _ => Err("set!() first argument must be a dictionary variable."@),
            }
        }
    } else {
        Err("Unknown macro '"@ + name + "!'."@)
    }
}

pub open spec fn with_loop(st: CompState, l: Option<AssignmentV>) -> CompState {
    CompState { loops: st.loops.push(l), ..st }
}

pub open spec fn without_loop(st: CompState) -> CompState {
    if st.loops.len() > 0 {
        CompState { loops: st.loops.drop_last(), ..st }
    } else {
        st
    }
}

/// The body of a loop, compiled with `l` as the innermost loop.
pub open spec fn loop_body_text(st: CompState, body: Seq<StmtV>, ind: usize, l: Option<AssignmentV>) -> Result<(Seq<char>, CompState), Seq<char>>
    decreases body, 1nat,
{
    match stmts_text(with_loop(st, l), body, ind) {
        Err(m) => Err(m),
        Ok((t, s1)) => Ok((t, without_loop(s1))),
    }
}

/// A for-each loop up to the body of its array case.
pub open spec fn for_each_head(ind: usize, t: Seq<char>, it: Seq<char>, v: Seq<char>, ty: Seq<char>, name: Seq<char>) -> Seq<char> {
    let i1 = inc(ind);
    let i2 = inc(i1);
    let i3 = inc(i2);
    let i4 = inc(i3);
    line(ind, "{"@) + line(i1, "let "@ + t + " = "@ + it + ";"@) + line(i1, "match "@ + t + " {"@)
        + line(i2, "RtValue::Array(values) => {"@) + line(i3, "for item in values {"@) + line(
        i4,
        "let mut "@ + v + " = item;"@,
    ) + line(i4, "assert_type(&"@ + v + ", \""@ + ty + "\", \"for-each item '"@ + name + "'\")?;"@)
}

/// A for-each loop between the bodies of its array and dictionary cases.
pub open spec fn for_each_middle(ind: usize, keys: Seq<char>, v: Seq<char>, ty: Seq<char>, name: Seq<char>) -> Seq<char> {
    let i1 = inc(ind);
    let i2 = inc(i1);
    let i3 = inc(i2);
    let i4 = inc(i3);
    line(i3, "}"@) + line(i2, "}"@) + line(i2, "RtValue::Dict(values) => {"@) + line(
        i3,
        "let mut "@ + keys + ": Vec<String> = values.keys().cloned().collect();"@,
    ) + line(i3, keys + ".sort();"@) + line(i3, "for key in "@ + keys + " {"@) + line(
        i4,
        "let mut "@ + v + " = RtValue::Str(key);"@,
    ) + line(i4, "assert_type(&"@ + v + ", \""@ + ty + "\", \"for-each key '"@ + name + "'\")?;"@)
}

/// A for-each loop after the body of its dictionary case.
pub open spec fn for_each_tail(ind: usize) -> Seq<char> {
    let i1 = inc(ind);
    let i2 = inc(i1);
    let i3 = inc(i2);
    line(i3, "}"@) + line(i2, "}"@) + line(
        i2,
        "other => return Err(format!(\"for-each expected arr or dict, got {}.\", other.type_name())),"@,
    ) + line(i1, "}"@) + line(ind, "}"@)
}

/// The check of a returned value against the declared return type, if any.
pub open spec fn return_check(rt: Option<Seq<char>>, fname: Seq<char>, t: Seq<char>, ind: usize) -> Seq<char> {
    match rt {
        Some(r) => line(
            ind,
            "assert_type(&"@ + t + ", \""@ + clean_type_text(r) + "\", \"return value from '"@ + fname
                + "'\")?;"@,
        ),
        None => Seq::empty(),
    }
}

/// A `return`: the value goes through a temporary and, in a typed function, a type check.
pub open spec fn return_text(st: CompState, value: ExprV, ind: usize) -> Result<(Seq<char>, CompState), Seq<char>> {
    let (v, s1) = expr_text(st, value);
    let s2 = bumped(s1);
    let t = temp_text(s2);
    let i1 = inc(ind);
    let check = return_check(st.return_type, st.function_name, t, i1);
    Ok(
        (
            line(ind, "{"@) + line(i1, "let "@ + t + " = "@ + v + ";"@) + check + line(
                i1,
                "return Ok("@ + t + ");"@,
            ) + line(ind, "}"@),
            s2,
        ),
    )
}

/// The text of a statement at indentation `ind`.
pub open spec fn stmt_text(st: CompState, s: StmtV, ind: usize) -> Result<(Seq<char>, CompState), Seq<char>>
    decreases s, 2nat,
{
    match s {
        StmtV::VarDecl(d) => Ok(var_decl_text(st, d, ind)),
        StmtV::MacroCall { name, args } => macro_text(st, name, args, ind),
        StmtV::FunctionCall { name, args } => {
            let (t, s1) = expr_text(st, ExprV::Call { name, args });
            Ok((line(ind, t + ";"@), s1))
        },
        StmtV::Assignment(a) => Ok(assignment_text(st, a, ind)),
        StmtV::If { condition, then_body, else_body } => {
            let (c, s1) = expr_text(st, condition);
            let head = line(ind, "if expect_bool("@ + c + ", \"if condition\")? {"@);
            match stmts_text(s1, then_body, inc(ind)) {
                Err(m) => Err(m),
                Ok((t, s2)) => {
                    let then_part = head + t + indent_text(ind as nat) + "}"@;
                    match else_body {
                        None => Ok((then_part + "\n"@, s2)),
                        Some(b) => match stmts_text(s2, b, inc(ind)) {
                            Err(m) => Err(m),
                            Ok((e, s3)) => Ok((then_part + " else {\n"@ + e + line(ind, "}"@), s3)),
                        },
                    }
                },
            }
        },
        StmtV::While { condition, body } => {
            let (c, s1) = expr_text(st, condition);
            match loop_body_text(s1, body, inc(ind), None) {
                Err(m) => Err(m),
                Ok((b, s2)) => Ok(
                    (
                        line(ind, "while expect_bool("@ + c + ", \"while condition\")? {"@) + b
                            + line(ind, "}"@),
                        s2,
                    ),
                ),
            }
        },
        StmtV::For { initializer, condition, update, body } => {
            let (init, s1) = expr_text(st, initializer.value);
            let (c, s2) = expr_text(s1, condition);
            let i1 = inc(ind);
            let i2 = inc(i1);
            let head = line(ind, "{"@) + line(
                i1,
                "let mut "@ + var_text(initializer.name) + " = "@ + init + ";"@,
            ) + line(
                i1,
                "assert_type(&"@ + var_text(initializer.name) + ", \""@ + clean_type_text(
                    initializer.ty,
                ) + "\", \"for initializer '"@ + initializer.name + "'\")?;"@,
            ) + line(i1, "while expect_bool("@ + c + ", \"for condition\")? {"@);
            match loop_body_text(s2, body, i2, Some(update)) {
                Err(m) => Err(m),
                Ok((b, s3)) => {
                    let (u, s4) = assignment_text(s3, update, i2);
                    Ok((head + b + u + line(i1, "}"@) + line(ind, "}"@), s4))
                },
            }
        },
        StmtV::ForEach { item_ty, item_name, iterable, body } => {
            let (it, s1) = expr_text(st, iterable);
            let s2 = bumped(s1);
            let t = temp_text(s2);
            let s3 = bumped(s2);
            let keys = temp_text(s3);
            let i1 = inc(ind);
            let i2 = inc(i1);
            let i3 = inc(i2);
            let i4 = inc(i3);
            let v = var_text(item_name);
            let ty = clean_type_text(item_ty);
            match loop_body_text(s3, body, i4, None) {
                Err(m) => Err(m),
                Ok((array_body, s4)) => match loop_body_text(s4, body, i4, None) {
                    Err(m) => Err(m),
                    Ok((dict_body, s5)) => Ok(
                        (
                            for_each_head(ind, t, it, v, ty, item_name) + array_body
                                + for_each_middle(ind, keys, v, ty, item_name) + dict_body
                                + for_each_tail(ind),
                            s5,
                        ),
                    ),
                },
            }
        },
        StmtV::Break => Ok((line(ind, "break;"@), st)),
        StmtV::Continue => if st.loops.len() > 0 && st.loops.last() is Some {
            let (u, s1) = assignment_text(st, st.loops.last()->0, ind);
            Ok((u + line(ind, "continue;"@), s1))
        } else {
            Ok((line(ind, "continue;"@), st))
        },
        StmtV::Return { value } => return_text(st, value, ind),
    }
}

/// The statements of a block, compiled in order at indentation `ind`.
pub open spec fn stmts_text(st: CompState, body: Seq<StmtV>, ind: usize) -> Result<(Seq<char>, CompState), Seq<char>>
    decreases body, 0nat,
{
    if body.len() == 0 {
        Ok((Seq::empty(), st))
    } else {
        match stmts_text(st, body.drop_last(), ind) {
            Err(m) => Err(m),
            Ok((t, s1)) => match stmt_text(s1, body.last(), ind) {
                Err(m) => Err(m),
                Ok((u, s2)) => Ok((t + u, s2)),
            },
        }
    }
}

/// A parameter in a compiled function's signature.
pub open spec fn param_decl_text(p: ParamV) -> Seq<char> {
    "mut "@ + var_text(p.name) + ": RtValue"@
}

/// The type checks of the parameters at the start of a compiled function.
pub open spec fn param_checks_text(params: Seq<ParamV>) -> Seq<char>
    decreases params.len(),
{
    if params.len() == 0 {
        Seq::empty()
    } else {
        param_checks_text(params.drop_last()) + line(
            1,
            "assert_type(&"@ + var_text(params.last().name) + ", \""@ + clean_type_text(
                params.last().ty,
            ) + "\", \"parameter '"@ + params.last().name + "'\")?;"@,
        )
    }
}

/// A compiled function definition.
pub open spec fn function_text(st: CompState, f: FunctionV) -> Result<(Seq<char>, CompState), Seq<char>> {
    let s0 = CompState { return_type: f.return_type, function_name: f.name, ..st };
    let header = "fn "@ + fn_text(f.name) + "("@ + joined(f.params.map_values(|p: ParamV| param_decl_text(p)))
        + ") -> Result<RtValue, String> {\n"@;
    match stmts_text(s0, f.body, 1) {
        Err(m) => Err(m),
        Ok((b, s1)) => {
            let tail = match f.return_type {
                Some(rt) => line(
                    1,
                    "Err(format!(\"Function '"@ + f.name + "' expected return type "@ + clean_type_text(rt)
                        + ", but returned nothing.\"))"@,
                ),
                None => line(1, "Ok(RtValue::Bool(true))"@),
            };
            Ok(
                (
                    header + param_checks_text(f.params) + b + tail + "}\n"@,
                    CompState { return_type: None, function_name: Seq::empty(), ..s1 },
                ),
            )
        },
    }
}

/// The compiled functions of the items, in order, each followed by a blank line.
pub open spec fn functions_text(st: CompState, items: Seq<ItemV>) -> Result<(Seq<char>, CompState), Seq<char>>
    decreases items.len(),
{
    if items.len() == 0 {
        Ok((Seq::empty(), st))
    } else {
        match functions_text(st, items.drop_last()) {
            Err(m) => Err(m),
            Ok((t, s1)) => match items.last() {
                ItemV::VarDecl(_) => Err("Top-level variables are not supported by tsst build yet."@),
                ItemV::Function(f) => match function_text(s1, f) {
                    Err(m) => Err(m),
                    Ok((u, s2)) => Ok((t + u + "\n"@, s2)),
                },
            },
        }
    }
}

/// Whether an item is a function named `main`.
pub open spec fn is_main(item: ItemV) -> bool {
    item matches ItemV::Function(f) && f.name == "main"@
}

/// Whether a function named `main` is among the items.
pub open spec fn has_main(items: Seq<ItemV>) -> bool {
    exists|i: int| 0 <= i < items.len() && is_main(#[trigger] items[i])
}

/// The whole compiled program: the runtime, the functions and the entry point.
pub open spec fn program_text(st: CompState, p: ProgramV) -> Result<(Seq<char>, CompState), Seq<char>> {
    match functions_text(CompState { uses_gui: false, ..st }, p.items) {
        Err(m) => Err(m),
        Ok((fs, s1)) => if !has_main(p.items) {
            Err("Cannot build project because no main function exists."@)
        } else {
            Ok((runtime_text(s1.uses_gui) + "\n"@ + fs + MAIN_WRAPPER@, s1))
        },
    }
}

} // verus!
