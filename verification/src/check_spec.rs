//! The typing rules of the language, as functions on the syntax tree's view.
//!
//! A checking state holds the variable scopes (innermost last), the known
//! function signatures and how deeply loops are nested. Statements thread the
//! state through; expressions only read it. Every rule yields either a result
//! or the message of the first error met, in source order.
use vstd::prelude::*;
use crate::ast::{AssignmentV, BinaryOp, ExprV, FunctionV, ItemV, ParamV, ProgramV, StmtV, UnaryOp, VarDeclV};
use crate::text::{clean_type_text, has_prefix, nat_decimal};

verus! {

/// The types a value or expression can have.
#[derive(Debug, Clone, Copy, PartialEq, Eq, Structural)]
pub enum Type {
    Int,
    Str,
    Bool,
    Arr,
    Dict,
    Void,
    Unknown,
}

/// The signature of a function: its parameter types and return type.
pub struct SigV {
    pub params: Seq<Type>,
    pub return_type: Type,
}

/// What the checker knows at a point of the program.
pub struct CheckState {
    pub scopes: Seq<Seq<(Seq<char>, Type)>>,
    pub functions: Seq<(Seq<char>, SigV)>,
    pub loop_depth: usize,
}

pub open spec fn type_text(t: Type) -> Seq<char> {
    match t {
        Type::Int => "int"@,
        Type::Str => "str"@,
        Type::Bool => "bool"@,
        Type::Arr => "arr"@,
        Type::Dict => "dict"@,
        Type::Void => "void"@,
        Type::Unknown => "unknown"@,
    }
}

/// A type is accepted where another is expected when they agree or either is unknown.
pub open spec fn compatible(expected: Type, actual: Type) -> bool {
    expected == actual || expected == Type::Unknown || actual == Type::Unknown
}

/// The type a type name denotes; a leading `cre_` is ignored.
pub open spec fn type_from_text(name: Seq<char>) -> Result<Type, Seq<char>> {
    let n = clean_type_text(name);
    if n == "int"@ {
        Ok(Type::Int)
    } else if n == "str"@ {
        Ok(Type::Str)
    } else if n == "bool"@ {
        Ok(Type::Bool)
    } else if n == "arr"@ {
        Ok(Type::Arr)
    } else if n == "dict"@ {
        Ok(Type::Dict)
    } else {
        Err("Unknown type '"@ + n + "'"@)
    }
}

/// The latest binding of `n` in one scope.
pub open spec fn scope_lookup(scope: Seq<(Seq<char>, Type)>, n: Seq<char>) -> Option<Type>
    decreases scope.len(),
{
    if scope.len() == 0 {
        None
    } else if scope.last().0 == n {
        Some(scope.last().1)
    } else {
        scope_lookup(scope.drop_last(), n)
    }
}

/// The binding of `n` in the innermost scope that has one.
pub open spec fn var_lookup(scopes: Seq<Seq<(Seq<char>, Type)>>, n: Seq<char>) -> Option<Type>
    decreases scopes.len(),
{
    if scopes.len() == 0 {
        None
    } else {
        match scope_lookup(scopes.last(), n) {
            Some(t) => Some(t),
            None => var_lookup(scopes.drop_last(), n),
        }
    }
}

/// The signature registered under `n`.
pub open spec fn sig_lookup(fs: Seq<(Seq<char>, SigV)>, n: Seq<char>) -> Option<SigV>
    decreases fs.len(),
{
    if fs.len() == 0 {
        None
    } else if fs.last().0 == n {
        Some(fs.last().1)
    } else {
        sig_lookup(fs.drop_last(), n)
    }
}

pub open spec fn push_scope(st: CheckState) -> CheckState {
    CheckState { scopes: st.scopes.push(Seq::empty()), ..st }
}

pub open spec fn pop_scope(st: CheckState) -> CheckState {
    if st.scopes.len() > 0 {
        CheckState { scopes: st.scopes.drop_last(), ..st }
    } else {
        st
    }
}

pub open spec fn with_depth(st: CheckState, d: usize) -> CheckState {
    CheckState { loop_depth: d, ..st }
}

/// One loop level deeper (the count stops at its largest value).
pub open spec fn deeper(d: usize) -> usize {
    if d < usize::MAX {
        (d + 1) as usize
    } else {
        d
    }
}

/// Declares `n` in the innermost scope.
pub open spec fn define(st: CheckState, n: Seq<char>, t: Type) -> Result<CheckState, Seq<char>> {
    if st.scopes.len() == 0 {
        Err("Internal typechecker error: missing scope"@)
    } else if scope_lookup(st.scopes.last(), n) is Some {
        Err("Variable '"@ + n + "' already exists in this scope"@)
    } else {
        Ok(
            CheckState {
                scopes: st.scopes.update(st.scopes.len() - 1, st.scopes.last().push((n, t))),
                ..st
            },
        )
    }
}

/// The result type of a binary operator on operands of the given types.
pub open spec fn binary_type(left: Type, op: BinaryOp, right: Type) -> Result<Type, Seq<char>> {
    let ints = compatible(Type::Int, left) && compatible(Type::Int, right);
    match op {
        BinaryOp::Add => if left == Type::Str || right == Type::Str {
            Ok(Type::Str)
        } else if ints {
            Ok(Type::Int)
        } else if left == Type::Unknown || right == Type::Unknown {
            Ok(Type::Unknown)
        } else {
            Err("Cannot add "@ + type_text(left) + " and "@ + type_text(right))
        },
        BinaryOp::Sub | BinaryOp::Mul | BinaryOp::Div => if ints {
            Ok(Type::Int)
        } else {
            Err(
                "Operator requires int and int, got "@ + type_text(left) + " and "@ + type_text(
                    right,
                ),
            )
        },
        BinaryOp::Less | BinaryOp::Greater | BinaryOp::LessEq | BinaryOp::GreaterEq => if ints {
            Ok(Type::Bool)
        } else {
            Err(
                "Comparison requires int and int, got "@ + type_text(left) + " and "@ + type_text(
                    right,
                ),
            )
        },
        BinaryOp::Eq | BinaryOp::NotEq => Ok(Type::Bool),
        BinaryOp::And | BinaryOp::Or => if compatible(Type::Bool, left) && compatible(
            Type::Bool,
            right,
        ) {
            Ok(Type::Bool)
        } else {
            Err(
                "Boolean operator requires bool and bool, got "@ + type_text(left) + " and "@
                    + type_text(right),
            )
        },
    }
}

/// The parameter and result types of the builtin functions other than `len`.
pub open spec fn builtin_sig(name: Seq<char>) -> Option<(Seq<Type>, Type)> {
    if name == "input_str"@ {
        Some((seq![Type::Str], Type::Str))
    } else if name == "input_int"@ || name == "to_int"@ {
        Some((seq![Type::Str], Type::Int))
    } else if name == "lower"@ || name == "upper"@ || name == "trim"@ {
        Some((seq![Type::Str], Type::Str))
    } else if name == "contains"@ {
        Some((seq![Type::Str, Type::Str], Type::Bool))
    } else if name == "os_run"@ {
        Some((seq![Type::Str, Type::Arr], Type::Int))
    } else if name == "os_capture"@ {
        Some((seq![Type::Str, Type::Arr], Type::Str))
    } else if name == "os_get_env"@ || name == "os_read_file"@ {
        Some((seq![Type::Str], Type::Str))
    } else if name == "os_set_env"@ || name == "os_write_file"@ {
        Some((seq![Type::Str, Type::Str], Type::Bool))
    } else if name == "os_exists"@ {
        Some((seq![Type::Str], Type::Bool))
    } else if name == "os_sleep"@ {
        Some((seq![Type::Int], Type::Bool))
    } else if name == "os_current_dir"@ {
        Some((Seq::empty(), Type::Str))
    } else if name == "gui_button_call"@ {
        Some((seq![Type::Str, Type::Str], Type::Bool))
    } else if name == "gui_profile_dashboard"@ {
        Some(
            (
                seq![Type::Arr, Type::Str, Type::Int, Type::Int, Type::Str, Type::Str, Type::Str],
                Type::Bool,
            ),
        )
    } else if name == "gui_get_string"@ {
        Some((seq![Type::Str], Type::Str))
    } else if name == "gui_get_int"@ {
        Some((seq![Type::Str], Type::Int))
    } else {
        None
    }
}

/// The GUI builtins whose arguments are checked against a signature.
pub open spec fn is_checked_gui(name: Seq<char>) -> bool {
    name == "gui_button_call"@ || name == "gui_profile_dashboard"@ || name == "gui_get_string"@
        || name == "gui_get_int"@
}

/// The type of an expression.
pub open spec fn expr_type(st: CheckState, e: ExprV) -> Result<Type, Seq<char>>
    decreases e, 3nat,
{
    match e {
        ExprV::Int(_) => Ok(Type::Int),
        ExprV::Str(_) => Ok(Type::Str),
        ExprV::Bool(_) => Ok(Type::Bool),
        ExprV::Ident(n) => match var_lookup(st.scopes, n) {
            Some(t) => Ok(t),
            None => Err("Unknown variable '"@ + n + "'"@),
        },
        ExprV::ArrayLiteral(items) => match all_typed(st, items) {
            Err(m) => Err(m),
            Ok(_) => Ok(Type::Arr),
        },
        ExprV::DictLiteral(pairs) => match values_typed(st, pairs) {
            Err(m) => Err(m),
            Ok(_) => Ok(Type::Dict),
        },
        ExprV::Index { target, index } => match expr_type(st, *target) {
            Err(m) => Err(m),
            Ok(t) => match expr_type(st, *index) {
                Err(m) => Err(m),
                Ok(i) => match t {
                    Type::Arr => if compatible(Type::Int, i) {
                        Ok(Type::Unknown)
                    } else {
                        Err("Array index must be int, got "@ + type_text(i))
                    },
                    Type::Dict => if compatible(Type::Str, i) {
                        Ok(Type::Unknown)
                    } else {
                        Err("Dictionary index must be str, got "@ + type_text(i))
                    },
                    Type::Unknown => Ok(Type::Unknown),
                    other => Err("Cannot index "@ + type_text(other)),
                },
            },
        },
        ExprV::Call { name, args } => call_type(st, name, args, true),
        ExprV::Unary { op, expr } => match expr_type(st, *expr) {
            Err(m) => Err(m),
            Ok(actual) => {
                let expected = match op {
                    UnaryOp::Not => Type::Bool,
                    UnaryOp::Neg => Type::Int,
                };
                if compatible(expected, actual) {
                    Ok(expected)
                } else {
                    Err(
                        "Unary operator expected "@ + type_text(expected) + ", got "@ + type_text(
                            actual,
                        ),
                    )
                }
            },
        },
        ExprV::Binary { left, op, right } => match expr_type(st, *left) {
            Err(m) => Err(m),
            Ok(l) => match expr_type(st, *right) {
                Err(m) => Err(m),
                Ok(r) => binary_type(l, op, r),
            },
        },
    }
}

/// Every expression of `items` is well typed (the first error otherwise).
pub open spec fn all_typed(st: CheckState, items: Seq<ExprV>) -> Result<(), Seq<char>>
    decreases items, 0nat,
{
    if items.len() == 0 {
        Ok(())
    } else {
        match all_typed(st, items.drop_last()) {
            Err(m) => Err(m),
            Ok(_) => match expr_type(st, items.last()) {
                Err(m) => Err(m),
                Ok(_) => Ok(()),
            },
        }
    }
}

/// Every value of a dictionary literal is well typed.
pub open spec fn values_typed(st: CheckState, pairs: Seq<(Seq<char>, ExprV)>) -> Result<(), Seq<char>>
    decreases pairs, 0nat,
{
    if pairs.len() == 0 {
        Ok(())
    } else {
        match values_typed(st, pairs.drop_last()) {
            Err(m) => Err(m),
            Ok(_) => match expr_type(st, pairs.last().1) {
                Err(m) => Err(m),
                Ok(_) => Ok(()),
            },
        }
    }
}

/// The arguments match the parameter types; `label` names the callee in messages.
pub open spec fn args_match(st: CheckState, args: Seq<ExprV>, params: Seq<Type>, label: Seq<char>) -> Result<(), Seq<char>>
    decreases args, 0nat,
{
    if args.len() == 0 {
        Ok(())
    } else {
        match args_match(st, args.drop_last(), params, label) {
            Err(m) => Err(m),
            Ok(_) => {
                let i = args.len() - 1;
                match expr_type(st, args.last()) {
                    Err(m) => Err(m),
                    Ok(actual) => if compatible(params[i], actual) {
                        Ok(())
                    } else {
                        Err(
                            label + " argument "@ + nat_decimal((i + 1) as nat) + " expected "@
                                + type_text(params[i]) + ", got "@ + type_text(actual),
                        )
                    },
                }
            },
        }
    }
}

/// The type of a builtin call (`None` when `name` is no builtin).
pub open spec fn builtin_type(st: CheckState, name: Seq<char>, args: Seq<ExprV>) -> Option<Result<Type, Seq<char>>>
    decreases args, 1nat,
{
    if name == "len"@ {
        if args.len() != 1 {
            Some(Err("len expected 1 arg, got "@ + nat_decimal(args.len())))
        } else {
            match expr_type(st, args[0]) {
                Err(m) => Some(Err(m)),
                Ok(t) => match t {
                    Type::Str | Type::Arr | Type::Dict | Type::Unknown => Some(Ok(Type::Int)),
                    other => Some(Err("len cannot be used on "@ + type_text(other))),
                },
            }
        }
    } else {
        match builtin_sig(name) {
            None => None,
            Some((params, result)) => if params.len() != args.len() {
                Some(
                    Err(
                        name + " expected "@ + nat_decimal(params.len()) + " args, got "@
                            + nat_decimal(args.len()),
                    ),
                )
            } else {
                match args_match(st, args, params, name) {
                    Err(m) => Some(Err(m)),
                    Ok(_) => Some(Ok(result)),
                }
            },
        }
    }
}

/// The type of a call of `name`; `as_value` when the call stands in an expression.
pub open spec fn call_type(st: CheckState, name: Seq<char>, args: Seq<ExprV>, as_value: bool) -> Result<Type, Seq<char>>
    decreases args, 2nat,
{
    if is_checked_gui(name) && builtin_type(st, name, args) is Some {
        builtin_type(st, name, args)->0
    } else if has_prefix(name, "gui_"@) {
        match all_typed(st, args) {
            Err(m) => Err(m),
            Ok(_) => Ok(Type::Unknown),
        }
    } else if builtin_type(st, name, args) is Some {
        builtin_type(st, name, args)->0
    } else {
        match sig_lookup(st.functions, name) {
            None => Err("Unknown function '"@ + name + "'"@),
            Some(sig) => if sig.params.len() != args.len() {
                Err(
                    "Function '"@ + name + "' expected "@ + nat_decimal(sig.params.len())
                        + " args, got "@ + nat_decimal(args.len()),
                )
            } else {
                match args_match(st, args, sig.params, "Function '"@ + name + "'"@) {
                    Err(m) => Err(m),
                    Ok(_) => if as_value && sig.return_type == Type::Void {
                        Err("Function '"@ + name + "' does not return a value"@)
                    } else {
                        Ok(sig.return_type)
                    },
                }
            },
        }
    }
}

/// Checks a variable declaration and declares the variable.
pub open spec fn var_decl_checked(st: CheckState, d: VarDeclV) -> Result<CheckState, Seq<char>> {
    match type_from_text(d.ty) {
        Err(m) => Err(m),
        Ok(expected) => match expr_type(st, d.value) {
            Err(m) => Err(m),
            Ok(actual) => if !compatible(expected, actual) {
                Err(
                    "Variable '"@ + d.name + "' expected "@ + type_text(expected) + ", got "@
                        + type_text(actual),
                )
            } else {
                define(st, d.name, expected)
            },
        },
    }
}

/// Checks an assignment to a declared variable.
pub open spec fn assignment_checked(st: CheckState, a: AssignmentV) -> Result<(), Seq<char>> {
    match var_lookup(st.scopes, a.name) {
        None => Err("Unknown variable '"@ + a.name + "'"@),
        Some(expected) => match expr_type(st, a.value) {
            Err(m) => Err(m),
            Ok(actual) => if !compatible(expected, actual) {
                Err(
                    "Cannot assign "@ + type_text(actual) + " to variable '"@ + a.name
                        + "' of type "@ + type_text(expected),
                )
            } else {
                Ok(())
            },
        },
    }
}

/// Checks a macro call: `cons!`, `push!` or `set!`.
pub open spec fn macro_checked(st: CheckState, name: Seq<char>, args: Seq<ExprV>) -> Result<(), Seq<char>> {
    if name == "cons"@ {
        all_typed(st, args)
    } else if name == "push"@ {
        if args.len() != 2 {
            Err("push! expected 2 args, got "@ + nat_decimal(args.len()))
        } else {
            match args[0] {
                ExprV::Ident(n) => match var_lookup(st.scopes, n) {
                    None => Err("Unknown variable '"@ + n + "'"@),
                    Some(t) => if !compatible(Type::Arr, t) {
                        Err("push! expected arr, got "@ + type_text(t))
                    } else {
                        match expr_type(st, args[1]) {
                            Err(m) => Err(m),
                            Ok(_) => Ok(()),
                        }
                    },
                },
                _ => Err("push! first argument must be an array variable"@),
            }
        }
    } else if name == "set"@ {
        if args.len() != 3 {
            Err("set! expected 3 args, got "@ + nat_decimal(args.len()))
        } else {
            match args[0] {
                ExprV::Ident(n) => match var_lookup(st.scopes, n) {
                    None => Err("Unknown variable '"@ + n + "'"@),
                    Some(t) => if !compatible(Type::Dict, t) {
                        Err("set! expected dict, got "@ + type_text(t))
                    } else {
                        match expr_type(st, args[1]) {
                            Err(m) => Err(m),
                            Ok(k) => if !compatible(Type::Str, k) {
                                Err("set! key must be str, got "@ + type_text(k))
                            } else {
                                match expr_type(st, args[2]) {
                                    Err(m) => Err(m),
                                    Ok(_) => Ok(()),
                                }
                            },
                        }
                    },
                },
                _ => Err("set! first argument must be a dictionary variable"@),
            }
        }
    } else {
        Err("Unknown macro '"@ + name + "!'"@)
    }
}

/// A condition of the kind named by `what` must be a boolean.
pub open spec fn condition_checked(st: CheckState, c: ExprV, what: Seq<char>) -> Result<(), Seq<char>> {
    match expr_type(st, c) {
        Err(m) => Err(m),
        Ok(t) => if compatible(Type::Bool, t) {
            Ok(())
        } else {
            Err(what + " condition must be bool, got "@ + type_text(t))
        },
    }
}

/// The state after a statement, in a function whose return type is `ret`.
pub open spec fn stmt_checked(st: CheckState, s: StmtV, ret: Type) -> Result<CheckState, Seq<char>>
    decreases s, 0nat,
{
    match s {
        StmtV::VarDecl(d) => var_decl_checked(st, d),
        StmtV::MacroCall { name, args } => match macro_checked(st, name, args) {
            Err(m) => Err(m),
            Ok(_) => Ok(st),
        },
        StmtV::FunctionCall { name, args } => match call_type(st, name, args, false) {
            Err(m) => Err(m),
            Ok(_) => Ok(st),
        },
        StmtV::Assignment(a) => match assignment_checked(st, a) {
            Err(m) => Err(m),
            Ok(_) => Ok(st),
        },
        StmtV::If { condition, then_body, else_body } => match condition_checked(st, condition, "If"@) {
            Err(m) => Err(m),
            Ok(_) => match scoped_checked(st, then_body, ret) {
                Err(m) => Err(m),
                Ok(s1) => match else_body {
                    None => Ok(s1),
                    Some(b) => scoped_checked(s1, b, ret),
                },
            },
        },
        StmtV::While { condition, body } => match condition_checked(st, condition, "While"@) {
            Err(m) => Err(m),
            Ok(_) => match scoped_checked(with_depth(st, deeper(st.loop_depth)), body, ret) {
                Err(m) => Err(m),
                Ok(s1) => Ok(with_depth(s1, st.loop_depth)),
            },
        },
        StmtV::For { initializer, condition, update, body } => {
            let s0 = push_scope(st);
            match var_decl_checked(s0, initializer) {
                Err(m) => Err(m),
                Ok(s1) => match condition_checked(s1, condition, "For"@) {
                    Err(m) => Err(m),
                    Ok(_) => match scoped_checked(with_depth(s1, deeper(s1.loop_depth)), body, ret) {
                        Err(m) => Err(m),
                        Ok(s2) => {
                            let s3 = with_depth(s2, s1.loop_depth);
                            match assignment_checked(s3, update) {
                                Err(m) => Err(m),
                                Ok(_) => Ok(pop_scope(s3)),
                            }
                        },
                    },
                },
            }
        },
        StmtV::ForEach { item_ty, item_name, iterable, body } => match expr_type(st, iterable) {
            Err(m) => Err(m),
            Ok(it) => {
                let iterable_ok: Result<(), Seq<char>> = match it {
                    Type::Arr | Type::Unknown => Ok(()),
                    Type::Dict => match type_from_text(item_ty) {
                        Err(m) => Err(m),
                        Ok(t) => if t != Type::Str {
                            Err(
                                "For-each over dict gives string keys, but '"@ + item_name
                                    + "' is "@ + type_text(t),
                            )
                        } else {
                            Ok(())
                        },
                    },
                    other => Err("For-each expected arr or dict, got "@ + type_text(other)),
                };
                match iterable_ok {
                    Err(m) => Err(m),
                    Ok(_) => match type_from_text(item_ty) {
                        Err(m) => Err(m),
                        Ok(t) => match define(push_scope(st), item_name, t) {
                            Err(m) => Err(m),
                            Ok(s1) => match block_checked(
                                with_depth(s1, deeper(s1.loop_depth)),
                                body,
                                ret,
                            ) {
                                Err(m) => Err(m),
                                Ok(s2) => Ok(pop_scope(with_depth(s2, s1.loop_depth))),
                            },
                        },
                    },
                }
            },
        },
        StmtV::Break => if st.loop_depth == 0 {
            Err("break used outside of loop"@)
        } else {
            Ok(st)
        },
        StmtV::Continue => if st.loop_depth == 0 {
            Err("continue used outside of loop"@)
        } else {
            Ok(st)
        },
        StmtV::Return { value } => match expr_type(st, value) {
            Err(m) => Err(m),
            Ok(actual) => if ret == Type::Void {
                Err("Cannot return a value from a function with no return type"@)
            } else if !compatible(ret, actual) {
                Err("Return expected "@ + type_text(ret) + ", got "@ + type_text(actual))
            } else {
                Ok(st)
            },
        },
    }
}

/// The state after the statements of `body`, in order.
pub open spec fn block_checked(st: CheckState, body: Seq<StmtV>, ret: Type) -> Result<CheckState, Seq<char>>
    decreases body, 0nat,
{
    if body.len() == 0 {
        Ok(st)
    } else {
        match block_checked(st, body.drop_last(), ret) {
            Err(m) => Err(m),
            Ok(s1) => stmt_checked(s1, body.last(), ret),
        }
    }
}

/// A block checked in a scope of its own.
pub open spec fn scoped_checked(st: CheckState, body: Seq<StmtV>, ret: Type) -> Result<CheckState, Seq<char>>
    decreases body, 1nat,
{
    match block_checked(push_scope(st), body, ret) {
        Err(m) => Err(m),
        Ok(s1) => Ok(pop_scope(s1)),
    }
}

/// Whether every path through a block ends in a `return`.
pub open spec fn block_returns(body: Seq<StmtV>) -> bool
    decreases body, 0nat,
{
    if body.len() == 0 {
        false
    } else {
        block_returns(body.drop_last()) || stmt_returns(body.last())
    }
}

/// Whether every path through a statement ends in a `return`.
pub open spec fn stmt_returns(s: StmtV) -> bool
    decreases s, 1nat,
{
    match s {
        StmtV::Return { .. } => true,
        StmtV::If { then_body, else_body, .. } => block_returns(then_body) && match else_body {
            Some(b) => block_returns(b),
            None => false,
        },
        _ => false,
    }
}

/// The declared return type of a function (`void` when it declares none).
pub open spec fn return_type_of(f: FunctionV) -> Result<Type, Seq<char>> {
    match f.return_type {
        Some(t) => type_from_text(t),
        None => Ok(Type::Void),
    }
}

/// Declares the parameters, in order.
pub open spec fn params_declared(st: CheckState, params: Seq<ParamV>) -> Result<CheckState, Seq<char>>
    decreases params.len(),
{
    if params.len() == 0 {
        Ok(st)
    } else {
        match params_declared(st, params.drop_last()) {
            Err(m) => Err(m),
            Ok(s1) => match type_from_text(params.last().ty) {
                Err(m) => Err(m),
                Ok(t) => define(s1, params.last().name, t),
            },
        }
    }
}

/// Checks one function definition.
pub open spec fn function_checked(st: CheckState, f: FunctionV) -> Result<CheckState, Seq<char>> {
    match params_declared(push_scope(st), f.params) {
        Err(m) => Err(m),
        Ok(s1) => match return_type_of(f) {
            Err(m) => Err(m),
            Ok(ret) => match block_checked(s1, f.body, ret) {
                Err(m) => Err(m),
                Ok(s2) => if ret != Type::Void && !block_returns(f.body) {
                    Err(
                        "Function '"@ + f.name + "' should return "@ + type_text(ret)
                            + " on every path"@,
                    )
                } else {
                    Ok(pop_scope(s2))
                },
            },
        },
    }
}

/// The parameter types of a signature.
pub open spec fn param_types(params: Seq<ParamV>) -> Result<Seq<Type>, Seq<char>>
    decreases params.len(),
{
    if params.len() == 0 {
        Ok(Seq::empty())
    } else {
        match param_types(params.drop_last()) {
            Err(m) => Err(m),
            Ok(ts) => match type_from_text(params.last().ty) {
                Err(m) => Err(m),
                Ok(t) => Ok(ts.push(t)),
            },
        }
    }
}

/// Registers the signatures of the functions among `items`, in order.
pub open spec fn signatures(fs: Seq<(Seq<char>, SigV)>, items: Seq<ItemV>) -> Result<Seq<(Seq<char>, SigV)>, Seq<char>>
    decreases items.len(),
{
    if items.len() == 0 {
        Ok(fs)
    } else {
        match signatures(fs, items.drop_last()) {
            Err(m) => Err(m),
            Ok(fs1) => match items.last() {
                ItemV::VarDecl(_) => Ok(fs1),
                ItemV::Function(f) => if sig_lookup(fs1, f.name) is Some {
                    Err("Function '"@ + f.name + "' already exists"@)
                } else {
                    match param_types(f.params) {
                        Err(m) => Err(m),
                        Ok(ps) => match return_type_of(f) {
                            Err(m) => Err(m),
                            Ok(r) => Ok(fs1.push((f.name, SigV { params: ps, return_type: r }))),
                        },
                    }
                },
            },
        }
    }
}

/// Registers all signatures and checks that a `main` without parameters exists.
pub open spec fn functions_collected(st: CheckState, p: ProgramV) -> Result<CheckState, Seq<char>> {
    match signatures(st.functions, p.items) {
        Err(m) => Err(m),
        Ok(fs) => match sig_lookup(fs, "main"@) {
            None => Err("No main function exists"@),
            Some(sig) => if sig.params.len() != 0 {
                Err("main function cannot have parameters"@)
            } else {
                Ok(CheckState { functions: fs, ..st })
            },
        },
    }
}

/// The index of the first top-level variable declaration at or after `i`.
pub open spec fn first_var_decl(items: Seq<ItemV>, i: int) -> Option<int>
    decreases items.len() - i,
{
    if i < 0 || i >= items.len() {
        None
    } else if items[i] is VarDecl {
        Some(i)
    } else {
        first_var_decl(items, i + 1)
    }
}

/// Checks the function definitions among `items`, in order.
pub open spec fn functions_checked(st: CheckState, items: Seq<ItemV>) -> Result<CheckState, Seq<char>>
    decreases items.len(),
{
    if items.len() == 0 {
        Ok(st)
    } else {
        match functions_checked(st, items.drop_last()) {
            Err(m) => Err(m),
            Ok(s1) => match items.last() {
                ItemV::VarDecl(_) => Ok(s1),
                ItemV::Function(f) => function_checked(s1, f),
            },
        }
    }
}

/// The outcome of checking a whole program from state `st`.
pub open spec fn program_checked(st: CheckState, p: ProgramV) -> Result<CheckState, Seq<char>> {
    match functions_collected(st, p) {
        Err(m) => Err(m),
        Ok(s1) => match first_var_decl(p.items, 0) {
            Some(i) => {
                let d = p.items[i]->VarDecl_0;
                match var_decl_checked(s1, d) {
                    Err(m) => Err(m),
                    Ok(_) => Err(
                        "Top-level variable '"@ + d.name
                            + "' is not supported; declare it inside a function"@,
                    ),
                }
            },
            None => functions_checked(s1, p.items),
        },
    }
}

} // verus!
