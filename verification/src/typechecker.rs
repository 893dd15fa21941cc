//! Static checking of programs before they run or are compiled.
use vstd::prelude::*;
use crate::ast::{
    Assignment, Expr, Function, Item, Param, Program, Stmt, VarDecl, BinaryOp, UnaryOp,
    entries_view, exprs_view, items_view, params_view, stmts_view,
};
use crate::check_spec::{
    CheckState, SigV, Type, all_typed, args_match, assignment_checked, binary_type,
    block_checked, block_returns, builtin_sig, builtin_type, call_type, compatible,
    condition_checked, deeper, define, expr_type, first_var_decl, function_checked,
    functions_checked, functions_collected, is_checked_gui, macro_checked, param_types,
    params_declared, pop_scope, program_checked, push_scope, return_type_of, scope_lookup,
    scoped_checked, sig_lookup, signatures, stmt_checked, stmt_returns, type_from_text,
    type_text, values_typed, var_decl_checked, var_lookup, with_depth,
};
use crate::text::{clean_type, is_text, owned, push_str, push_usize, starts_with};

verus! {

broadcast use crate::ast::group_ast_views;

/// A function's parameter types and return type.
pub struct FunctionSig {
    pub params: Vec<Type>,
    pub return_type: Type,
}

/// Checks types, scopes and control flow of a program.
pub struct TypeChecker {
    scopes: Vec<Vec<(String, Type)>>,
    functions: Vec<(String, FunctionSig)>,
    loop_depth: usize,
}

pub open spec fn scope_view(s: Seq<(String, Type)>) -> Seq<(Seq<char>, Type)> {
    s.map_values(|p: (String, Type)| (p.0@, p.1))
}

pub open spec fn scopes_view(s: Seq<Vec<(String, Type)>>) -> Seq<Seq<(Seq<char>, Type)>> {
    s.map_values(|v: Vec<(String, Type)>| scope_view(v@))
}

pub open spec fn sigs_view(s: Seq<(String, FunctionSig)>) -> Seq<(Seq<char>, SigV)> {
    s.map_values(
        |p: (String, FunctionSig)| (p.0@, SigV { params: p.1.params@, return_type: p.1.return_type }),
    )
}

impl View for TypeChecker {
    type V = CheckState;

    closed spec fn view(&self) -> CheckState {
        CheckState {
            scopes: scopes_view(self.scopes@),
            functions: sigs_view(self.functions@),
            loop_depth: self.loop_depth,
        }
    }
}

/// A checking outcome with its message as characters.
pub open spec fn outcome<T>(r: Result<T, String>) -> Result<T, Seq<char>> {
    match r {
        Ok(t) => Ok(t),
        Err(e) => Err(e@),
    }
}

/// `r` and `after` agree with the outcome `s` of a state-changing rule.
pub open spec fn agrees(r: Result<(), String>, after: CheckState, s: Result<CheckState, Seq<char>>) -> bool {
    match s {
        Ok(s1) => r is Ok && after == s1,
        Err(m) => r is Err && r->Err_0@ == m,
    }
}

/// Whether a rule's outcome is a success, and a failure carries the message of `r`.
pub open spec fn agrees_unit<T>(r: Result<(), String>, s: Result<T, Seq<char>>) -> bool {
    match s {
        Ok(_) => r is Ok,
        Err(m) => r is Err && r->Err_0@ == m,
    }
}

impl Type {
    /// The name of the type as messages show it.
    pub fn name(&self) -> (r: &'static str)
        ensures
            r@ == type_text(*self),
    {
        match self {
            Type::Int => "int",
            Type::Str => "str",
            Type::Bool => "bool",
            Type::Arr => "arr",
            Type::Dict => "dict",
            Type::Void => "void",
            Type::Unknown => "unknown",
        }
    }
}

fn types_compatible(expected: Type, actual: Type) -> (r: bool)
    ensures
        r == compatible(expected, actual),
{
    expected == actual || expected == Type::Unknown || actual == Type::Unknown
}

fn type_from_name(name: &String) -> (r: Result<Type, String>)
    ensures
        outcome(r) == type_from_text(name@),
{
    let n = clean_type(name);
    if is_text(&n, "int") {
        Ok(Type::Int)
    } else if is_text(&n, "str") {
        Ok(Type::Str)
    } else if is_text(&n, "bool") {
        Ok(Type::Bool)
    } else if is_text(&n, "arr") {
        Ok(Type::Arr)
    } else if is_text(&n, "dict") {
        Ok(Type::Dict)
    } else {
        let mut m = owned("Unknown type '");
        push_str(&mut m, n.as_str());
        push_str(&mut m, "'");
        Err(m)
    }
}

/// "`a`<left> and <right>" with the two type names.
fn two_types(prefix: &str, left: Type, right: Type) -> (r: String)
    ensures
        r@ == prefix@ + type_text(left) + " and "@ + type_text(right),
{
    let mut m = owned(prefix);
    push_str(&mut m, left.name());
    push_str(&mut m, " and ");
    push_str(&mut m, right.name());
    m
}

fn check_binary(left: Type, op: BinaryOp, right: Type) -> (r: Result<Type, String>)
    ensures
        outcome(r) == binary_type(left, op, right),
{
    let ints = types_compatible(Type::Int, left) && types_compatible(Type::Int, right);
    match op {
        BinaryOp::Add => {
            if left == Type::Str || right == Type::Str {
                Ok(Type::Str)
            } else if ints {
                Ok(Type::Int)
            } else if left == Type::Unknown || right == Type::Unknown {
                Ok(Type::Unknown)
            } else {
                Err(two_types("Cannot add ", left, right))
            }
        },
        BinaryOp::Sub | BinaryOp::Mul | BinaryOp::Div => {
            if ints {
                Ok(Type::Int)
            } else {
                Err(two_types("Operator requires int and int, got ", left, right))
            }
        },
        BinaryOp::Less | BinaryOp::Greater | BinaryOp::LessEq | BinaryOp::GreaterEq => {
            if ints {
                Ok(Type::Bool)
            } else {
                Err(two_types("Comparison requires int and int, got ", left, right))
            }
        },
        BinaryOp::Eq | BinaryOp::NotEq => Ok(Type::Bool),
        BinaryOp::And | BinaryOp::Or => {
            if types_compatible(Type::Bool, left) && types_compatible(Type::Bool, right) {
                Ok(Type::Bool)
            } else {
                Err(two_types("Boolean operator requires bool and bool, got ", left, right))
            }
        },
    }
}

/// The builtin signature of `name`, other than that of `len`.
fn builtin_signature(name: &String) -> (r: Option<(Vec<Type>, Type)>)
    ensures
        match builtin_sig(name@) {
            None => r is None,
            Some((ps, t)) => r is Some && r.unwrap().0@ == ps && r.unwrap().1 == t,
        },
{
    if is_text(name, "input_str") {
        Some((vec![Type::Str], Type::Str))
    } else if is_text(name, "input_int") || is_text(name, "to_int") {
        Some((vec![Type::Str], Type::Int))
    } else if is_text(name, "lower") || is_text(name, "upper") || is_text(name, "trim") {
        Some((vec![Type::Str], Type::Str))
    } else if is_text(name, "contains") {
        Some((vec![Type::Str, Type::Str], Type::Bool))
    } else if is_text(name, "os_run") {
        Some((vec![Type::Str, Type::Arr], Type::Int))
    } else if is_text(name, "os_capture") {
        Some((vec![Type::Str, Type::Arr], Type::Str))
    } else if is_text(name, "os_get_env") || is_text(name, "os_read_file") {
        Some((vec![Type::Str], Type::Str))
    } else if is_text(name, "os_set_env") || is_text(name, "os_write_file") {
        Some((vec![Type::Str, Type::Str], Type::Bool))
    } else if is_text(name, "os_exists") {
        Some((vec![Type::Str], Type::Bool))
    } else if is_text(name, "os_sleep") {
        Some((vec![Type::Int], Type::Bool))
    } else if is_text(name, "os_current_dir") {
        Some((Vec::new(), Type::Str))
    } else if is_text(name, "gui_button_call") {
        Some((vec![Type::Str, Type::Str], Type::Bool))
    } else if is_text(name, "gui_profile_dashboard") {
        Some(
            (
                vec![Type::Arr, Type::Str, Type::Int, Type::Int, Type::Str, Type::Str, Type::Str],
                Type::Bool,
            ),
        )
    } else if is_text(name, "gui_get_string") {
        Some((vec![Type::Str], Type::Str))
    } else if is_text(name, "gui_get_int") {
        Some((vec![Type::Str], Type::Int))
    } else {
        None
    }
}

fn scope_get(scope: &Vec<(String, Type)>, name: &String) -> (r: Option<Type>)
    ensures
        r == scope_lookup(scope_view(scope@), name@),
{
    let ghost v = scope_view(scope@);
    let mut j = scope.len();
    assert(v.take(j as int) =~= v);
    while j > 0
        invariant
            j <= scope.len(),
            v == scope_view(scope@),
            scope_lookup(v, name@) == scope_lookup(v.take(j as int), name@),
        decreases j,
    {
        assert(v.take(j as int).drop_last() =~= v.take(j - 1));
        if *name == scope[j - 1].0 {
            return Some(scope[j - 1].1);
        }
        j -= 1;
    }
    None
}

fn sig_index(functions: &Vec<(String, FunctionSig)>, name: &String) -> (r: Option<usize>)
    ensures
        match r {
            None => sig_lookup(sigs_view(functions@), name@) is None,
            Some(i) => i < functions.len() && sig_lookup(sigs_view(functions@), name@) == Some(
                sigs_view(functions@)[i as int].1,
            ),
        },
{
    let ghost v = sigs_view(functions@);
    let mut j = functions.len();
    assert(v.take(j as int) =~= v);
    while j > 0
        invariant
            j <= functions.len(),
            v == sigs_view(functions@),
            sig_lookup(v, name@) == sig_lookup(v.take(j as int), name@),
        decreases j,
    {
        assert(v.take(j as int).drop_last() =~= v.take(j - 1));
        if *name == functions[j - 1].0 {
            return Some(j - 1);
        }
        j -= 1;
    }
    None
}

/// Is `name` one of the GUI builtins whose arguments are checked?
fn checked_gui(name: &String) -> (r: bool)
    ensures
        r == is_checked_gui(name@),
{
    is_text(name, "gui_button_call") || is_text(name, "gui_profile_dashboard") || is_text(
        name,
        "gui_get_string",
    ) || is_text(name, "gui_get_int")
}

impl TypeChecker {
    pub fn new() -> (r: Self)
        ensures
            r@.scopes == seq![Seq::<(Seq<char>, Type)>::empty()],
            r@.functions == Seq::<(Seq<char>, SigV)>::empty(),
            r@.loop_depth == 0,
    {
        let r = Self { scopes: vec![Vec::new()], functions: Vec::new(), loop_depth: 0 };
        assert(scope_view(r.scopes@[0]@) =~= Seq::<(Seq<char>, Type)>::empty());
        assert(r@.scopes =~= seq![Seq::<(Seq<char>, Type)>::empty()]);
        assert(r@.functions =~= Seq::<(Seq<char>, SigV)>::empty());
        r
    }

    fn get_var(&self, name: &String) -> (r: Option<Type>)
        ensures
            r == var_lookup(self@.scopes, name@),
    {
        let ghost v = self@.scopes;
        let mut j = self.scopes.len();
        assert(v.take(j as int) =~= v);
        while j > 0
            invariant
                j <= self.scopes.len(),
                v == self@.scopes,
                var_lookup(v, name@) == var_lookup(v.take(j as int), name@),
            decreases j,
        {
            assert(v.take(j as int).drop_last() =~= v.take(j - 1));
            let found = scope_get(&self.scopes[j - 1], name);
            if found.is_some() {
                return found;
            }
            j -= 1;
        }
        None
    }

    fn unknown_variable(name: &String) -> (r: String)
        ensures
            r@ == "Unknown variable '"@ + name@ + "'"@,
    {
        let mut m = owned("Unknown variable '");
        push_str(&mut m, name.as_str());
        push_str(&mut m, "'");
        m
    }

    fn check_expr(&self, e: &Expr) -> (r: Result<Type, String>)
        ensures
            outcome(r) == expr_type(self@, e@),
        decreases e, 3nat, 0nat,
    {
        match e {
            Expr::Int(_) => Ok(Type::Int),
            Expr::Str(_) => Ok(Type::Str),
            Expr::Bool(_) => Ok(Type::Bool),
            Expr::Ident(name) => match self.get_var(name) {
                Some(t) => Ok(t),
                None => Err(Self::unknown_variable(name)),
            },
            Expr::ArrayLiteral(items) => {
                let r = self.check_all(items, items.len());
                assert(exprs_view(items@).take(items.len() as int) =~= exprs_view(items@));
                match r {
                    Err(m) => Err(m),
                    Ok(_) => Ok(Type::Arr),
                }
            },
            Expr::DictLiteral(pairs) => {
                let r = self.check_values(pairs, pairs.len());
                assert(entries_view(pairs@).take(pairs.len() as int) =~= entries_view(pairs@));
                match r {
                    Err(m) => Err(m),
                    Ok(_) => Ok(Type::Dict),
                }
            },
            Expr::Index { target, index } => {
                let t = match self.check_expr(target) {
                    Ok(t) => t,
                    Err(m) => {
                        return Err(m);
                    },
                };
                let i = match self.check_expr(index) {
                    Ok(i) => i,
                    Err(m) => {
                        return Err(m);
                    },
                };
                match t {
                    Type::Arr => {
                        if types_compatible(Type::Int, i) {
                            Ok(Type::Unknown)
                        } else {
                            let mut m = owned("Array index must be int, got ");
                            push_str(&mut m, i.name());
                            Err(m)
                        }
                    },
                    Type::Dict => {
                        if types_compatible(Type::Str, i) {
                            Ok(Type::Unknown)
                        } else {
                            let mut m = owned("Dictionary index must be str, got ");
                            push_str(&mut m, i.name());
                            Err(m)
                        }
                    },
                    Type::Unknown => Ok(Type::Unknown),
                    other => {
                        let mut m = owned("Cannot index ");
                        push_str(&mut m, other.name());
                        Err(m)
                    },
                }
            },
            Expr::Call { name, args } => self.check_function_call(name, args, true),
            Expr::Unary { op, expr } => {
                let actual = match self.check_expr(expr) {
                    Ok(t) => t,
                    Err(m) => {
                        return Err(m);
                    },
                };
                let expected = match op {
                    UnaryOp::Not => Type::Bool,
                    UnaryOp::Neg => Type::Int,
                };
                if types_compatible(expected, actual) {
                    Ok(expected)
                } else {
                    let mut m = owned("Unary operator expected ");
                    push_str(&mut m, expected.name());
                    push_str(&mut m, ", got ");
                    push_str(&mut m, actual.name());
                    Err(m)
                }
            },
            Expr::Binary { left, op, right } => {
                let l = match self.check_expr(left) {
                    Ok(t) => t,
                    Err(m) => {
                        return Err(m);
                    },
                };
                let r = match self.check_expr(right) {
                    Ok(t) => t,
                    Err(m) => {
                        return Err(m);
                    },
                };
                check_binary(l, *op, r)
            },
        }
    }

    /// Checks the first `n` expressions of `items`.
    fn check_all(&self, items: &Vec<Expr>, n: usize) -> (r: Result<(), String>)
        requires
            n <= items.len(),
        ensures
            outcome(r) == all_typed(self@, exprs_view(items@).take(n as int)),
        decreases items, 0nat, n,
    {
        let ghost v = exprs_view(items@);
        if n == 0 {
            return Ok(());
        }
        assert(v.take(n as int).drop_last() =~= v.take(n - 1));
        assert(v.len() == items@.len());
        assert(v[n - 1] == items@[n - 1]@);
        assert(v.take(n as int).last() == items@[n - 1]@);
        match self.check_all(items, n - 1) {
            Err(m) => {
                return Err(m);
            },
            Ok(_) => {},
        }
        match self.check_expr(&items[n - 1]) {
            Err(m) => Err(m),
            Ok(_) => Ok(()),
        }
    }

    /// Checks the values of the first `n` entries of a dictionary literal.
    fn check_values(&self, pairs: &Vec<(String, Expr)>, n: usize) -> (r: Result<(), String>)
        requires
            n <= pairs.len(),
        ensures
            outcome(r) == values_typed(self@, entries_view(pairs@).take(n as int)),
        decreases pairs, 0nat, n,
    {
        let ghost v = entries_view(pairs@);
        if n == 0 {
            return Ok(());
        }
        assert(v.take(n as int).drop_last() =~= v.take(n - 1));
        assert(v.len() == pairs@.len());
        assert(v[n - 1] == (pairs@[n - 1].0@, pairs@[n - 1].1@));
        assert(v.take(n as int).last().1 == pairs@[n - 1].1@);
        match self.check_values(pairs, n - 1) {
            Err(m) => {
                return Err(m);
            },
            Ok(_) => {},
        }
        match self.check_expr(&pairs[n - 1].1) {
            Err(m) => Err(m),
            Ok(_) => Ok(()),
        }
    }

    /// Checks the first `n` arguments against the parameter types.
    fn check_args(&self, args: &Vec<Expr>, params: &Vec<Type>, label: &String, n: usize) -> (r: Result<(), String>)
        requires
            n <= args.len(),
            args.len() == params.len(),
        ensures
            outcome(r) == args_match(self@, exprs_view(args@).take(n as int), params@, label@),
        decreases args, 0nat, n,
    {
        let ghost v = exprs_view(args@);
        if n == 0 {
            return Ok(());
        }
        assert(v.take(n as int).drop_last() =~= v.take(n - 1));
        assert(v.len() == args@.len());
        assert(v[n - 1] == args@[n - 1]@);
        assert(v.take(n as int).last() == args@[n - 1]@);
        match self.check_args(args, params, label, n - 1) {
            Err(m) => {
                return Err(m);
            },
            Ok(_) => {},
        }
        let actual = match self.check_expr(&args[n - 1]) {
            Err(m) => {
                return Err(m);
            },
            Ok(t) => t,
        };
        let expected = params[n - 1];
        if types_compatible(expected, actual) {
            Ok(())
        } else {
            let mut m = label.clone();
            push_str(&mut m, " argument ");
            push_usize(&mut m, n);
            push_str(&mut m, " expected ");
            push_str(&mut m, expected.name());
            push_str(&mut m, ", got ");
            push_str(&mut m, actual.name());
            Err(m)
        }
    }

    fn check_builtin_call(&self, name: &String, args: &Vec<Expr>) -> (r: Option<Result<Type, String>>)
        ensures
            match builtin_type(self@, name@, exprs_view(args@)) {
                None => r is None,
                Some(s) => r is Some && outcome(r->0) == s,
            },
        decreases args, 1nat, 0nat,
    {
        let ghost v = exprs_view(args@);
        if is_text(name, "len") {
            if args.len() != 1 {
                let mut m = owned("len expected 1 arg, got ");
                push_usize(&mut m, args.len());
                return Some(Err(m));
            }
            let actual = match self.check_expr(&args[0]) {
                Err(m) => {
                    return Some(Err(m));
                },
                Ok(t) => t,
            };
            return match actual {
                Type::Str | Type::Arr | Type::Dict | Type::Unknown => Some(Ok(Type::Int)),
                other => {
                    let mut m = owned("len cannot be used on ");
                    push_str(&mut m, other.name());
                    Some(Err(m))
                },
            };
        }
        let (params, result) = match builtin_signature(name) {
            None => {
                return None;
            },
            Some(sig) => sig,
        };
        if params.len() != args.len() {
            let mut m = name.clone();
            push_str(&mut m, " expected ");
            push_usize(&mut m, params.len());
            push_str(&mut m, " args, got ");
            push_usize(&mut m, args.len());
            return Some(Err(m));
        }
        let checked = self.check_args(args, &params, name, args.len());
        assert(v.take(args.len() as int) =~= v);
        match checked {
            Err(m) => Some(Err(m)),
            Ok(_) => Some(Ok(result)),
        }
    }

    fn check_function_call(&self, name: &String, args: &Vec<Expr>, as_value: bool) -> (r: Result<Type, String>)
        ensures
            outcome(r) == call_type(self@, name@, exprs_view(args@), as_value),
        decreases args, 2nat, 0nat,
    {
        let ghost v = exprs_view(args@);
        if checked_gui(name) {
            if let Some(result) = self.check_builtin_call(name, args) {
                return result;
            }
        }
        if starts_with(name, "gui_") {
            let r = self.check_all(args, args.len());
            assert(v.take(args.len() as int) =~= v);
            return match r {
                Err(m) => Err(m),
                Ok(_) => Ok(Type::Unknown),
            };
        }
        if let Some(result) = self.check_builtin_call(name, args) {
            return result;
        }
        let index = match sig_index(&self.functions, name) {
            None => {
                let mut m = owned("Unknown function '");
                push_str(&mut m, name.as_str());
                push_str(&mut m, "'");
                return Err(m);
            },
            Some(i) => i,
        };
        let sig = &self.functions[index].1;
        if sig.params.len() != args.len() {
            let mut m = owned("Function '");
            push_str(&mut m, name.as_str());
            push_str(&mut m, "' expected ");
            push_usize(&mut m, sig.params.len());
            push_str(&mut m, " args, got ");
            push_usize(&mut m, args.len());
            return Err(m);
        }
        let mut label = owned("Function '");
        push_str(&mut label, name.as_str());
        push_str(&mut label, "'");
        let checked = self.check_args(args, &sig.params, &label, args.len());
        assert(v.take(args.len() as int) =~= v);
        match checked {
            Err(m) => Err(m),
            Ok(_) => {
                if as_value && sig.return_type == Type::Void {
                    let mut m = owned("Function '");
                    push_str(&mut m, name.as_str());
                    push_str(&mut m, "' does not return a value");
                    Err(m)
                } else {
                    Ok(sig.return_type)
                }
            },
        }
    }
}

impl TypeChecker {
    fn push_scope(&mut self)
        ensures
            final(self)@ == push_scope(old(self)@),
    {
        self.scopes.push(Vec::new());
        assert(scope_view(Seq::<(String, Type)>::empty()) =~= Seq::<(Seq<char>, Type)>::empty());
        assert(final(self)@.scopes =~= push_scope(old(self)@).scopes);
    }

    fn pop_scope(&mut self)
        ensures
            final(self)@ == pop_scope(old(self)@),
    {
        let _ = self.scopes.pop();
        assert(final(self)@.scopes =~= pop_scope(old(self)@).scopes);
    }

    fn define_var(&mut self, name: String, ty: Type) -> (r: Result<(), String>)
        ensures
            agrees(r, final(self)@, define(old(self)@, name@, ty)),
    {
        let n = self.scopes.len();
        if n == 0 {
            return Err(owned("Internal typechecker error: missing scope"));
        }
        if scope_get(&self.scopes[n - 1], &name).is_some() {
            let mut m = owned("Variable '");
            push_str(&mut m, name.as_str());
            push_str(&mut m, "' already exists in this scope");
            return Err(m);
        }
        let ghost before = self.scopes@;
        let mut scope = self.scopes.pop().unwrap();
        let ghost name_view = name@;
        scope.push((name, ty));
        self.scopes.push(scope);
        proof {
            assert(scope_view(scope@) =~= scope_view(before[n - 1]@).push((name_view, ty)));
            assert(final(self)@.scopes =~= old(self)@.scopes.update(
                n - 1,
                old(self)@.scopes.last().push((name_view, ty)),
            ));
        }
        Ok(())
    }

    fn check_var_decl(&mut self, d: &VarDecl) -> (r: Result<(), String>)
        ensures
            agrees(r, final(self)@, var_decl_checked(old(self)@, d@)),
    {
        let expected = match type_from_name(&d.ty) {
            Err(m) => {
                return Err(m);
            },
            Ok(t) => t,
        };
        let actual = match self.check_expr(&d.value) {
            Err(m) => {
                return Err(m);
            },
            Ok(t) => t,
        };
        if !types_compatible(expected, actual) {
            let mut m = owned("Variable '");
            push_str(&mut m, d.name.as_str());
            push_str(&mut m, "' expected ");
            push_str(&mut m, expected.name());
            push_str(&mut m, ", got ");
            push_str(&mut m, actual.name());
            return Err(m);
        }
        self.define_var(d.name.clone(), expected)
    }

    fn check_assignment(&self, a: &Assignment) -> (r: Result<(), String>)
        ensures
            agrees_unit(r, assignment_checked(self@, a@)),
    {
        let expected = match self.get_var(&a.name) {
            None => {
                return Err(Self::unknown_variable(&a.name));
            },
            Some(t) => t,
        };
        let actual = match self.check_expr(&a.value) {
            Err(m) => {
                return Err(m);
            },
            Ok(t) => t,
        };
        if !types_compatible(expected, actual) {
            let mut m = owned("Cannot assign ");
            push_str(&mut m, actual.name());
            push_str(&mut m, " to variable '");
            push_str(&mut m, a.name.as_str());
            push_str(&mut m, "' of type ");
            push_str(&mut m, expected.name());
            return Err(m);
        }
        Ok(())
    }

    fn check_macro_call(&self, name: &String, args: &Vec<Expr>) -> (r: Result<(), String>)
        ensures
            agrees_unit(r, macro_checked(self@, name@, exprs_view(args@))),
    {
        let ghost v = exprs_view(args@);
        if is_text(name, "cons") {
            let r = self.check_all(args, args.len());
            assert(v.take(args.len() as int) =~= v);
            return r;
        }
        if is_text(name, "push") {
            if args.len() != 2 {
                let mut m = owned("push! expected 2 args, got ");
                push_usize(&mut m, args.len());
                return Err(m);
            }
            assert(v[0] == args@[0]@ && v[1] == args@[1]@);
            let array_name = match &args[0] {
                Expr::Ident(n) => n,
                _ => {
                    return Err(owned("push! first argument must be an array variable"));
                },
            };
            let array_type = match self.get_var(array_name) {
                None => {
                    return Err(Self::unknown_variable(array_name));
                },
                Some(t) => t,
            };
            if !types_compatible(Type::Arr, array_type) {
                let mut m = owned("push! expected arr, got ");
                push_str(&mut m, array_type.name());
                return Err(m);
            }
            return match self.check_expr(&args[1]) {
                Err(m) => Err(m),
                Ok(_) => Ok(()),
            };
        }
        if is_text(name, "set") {
            if args.len() != 3 {
                let mut m = owned("set! expected 3 args, got ");
                push_usize(&mut m, args.len());
                return Err(m);
            }
            assert(v[0] == args@[0]@ && v[1] == args@[1]@ && v[2] == args@[2]@);
            let dict_name = match &args[0] {
                Expr::Ident(n) => n,
                _ => {
                    return Err(owned("set! first argument must be a dictionary variable"));
                },
            };
            let dict_type = match self.get_var(dict_name) {
                None => {
                    return Err(Self::unknown_variable(dict_name));
                },
                Some(t) => t,
            };
            if !types_compatible(Type::Dict, dict_type) {
                let mut m = owned("set! expected dict, got ");
                push_str(&mut m, dict_type.name());
                return Err(m);
            }
            let key_type = match self.check_expr(&args[1]) {
                Err(m) => {
                    return Err(m);
                },
                Ok(t) => t,
            };
            if !types_compatible(Type::Str, key_type) {
                let mut m = owned("set! key must be str, got ");
                push_str(&mut m, key_type.name());
                return Err(m);
            }
            return match self.check_expr(&args[2]) {
                Err(m) => Err(m),
                Ok(_) => Ok(()),
            };
        }
        let mut m = owned("Unknown macro '");
        push_str(&mut m, name.as_str());
        push_str(&mut m, "!'");
        Err(m)
    }

    fn check_condition(&self, c: &Expr, what: &str) -> (r: Result<(), String>)
        ensures
            agrees_unit(r, condition_checked(self@, c@, what@)),
    {
        let t = match self.check_expr(c) {
            Err(m) => {
                return Err(m);
            },
            Ok(t) => t,
        };
        if types_compatible(Type::Bool, t) {
            Ok(())
        } else {
            let mut m = owned(what);
            push_str(&mut m, " condition must be bool, got ");
            push_str(&mut m, t.name());
            Err(m)
        }
    }

    /// Runs `body` one loop level deeper, in a scope of its own.
    fn check_loop_body(&mut self, body: &Vec<Stmt>, ret: Type) -> (r: Result<(), String>)
        ensures
            match scoped_checked(with_depth(old(self)@, deeper(old(self)@.loop_depth)), stmts_view(body@), ret) {
                Ok(s1) => r is Ok && final(self)@ == with_depth(s1, old(self)@.loop_depth),
                Err(m) => r is Err && r->Err_0@ == m,
            },
        decreases body, 2nat, 0nat,
    {
        let saved = self.loop_depth;
        self.loop_depth = if saved < usize::MAX { saved + 1 } else { saved };
        match self.check_scoped_body(body, ret) {
            Err(m) => {
                return Err(m);
            },
            Ok(_) => {},
        }
        self.loop_depth = saved;
        Ok(())
    }

    #[verifier::spinoff_prover]
    #[verifier::rlimit(60)]
    fn check_stmt(&mut self, s: &Stmt, ret: Type) -> (r: Result<(), String>)
        ensures
            agrees(r, final(self)@, stmt_checked(old(self)@, s@, ret)),
        decreases s, 3nat, 0nat,
    {
        match s {
            Stmt::VarDecl(d) => self.check_var_decl(d),
            Stmt::MacroCall(call) => self.check_macro_call(&call.name, &call.args),
            Stmt::FunctionCall(call) => match self.check_function_call(&call.name, &call.args, false) {
                Err(m) => Err(m),
                Ok(_) => Ok(()),
            },
            Stmt::Assignment(a) => self.check_assignment(a),
            Stmt::If(if_stmt) => {
                match self.check_condition(&if_stmt.condition, "If") {
                    Err(m) => {
                        return Err(m);
                    },
                    Ok(_) => {},
                }
                match self.check_scoped_body(&if_stmt.then_body, ret) {
                    Err(m) => {
                        return Err(m);
                    },
                    Ok(_) => {},
                }
                match &if_stmt.else_body {
                    Some(b) => self.check_scoped_body(b, ret),
                    None => Ok(()),
                }
            },
            Stmt::While(w) => {
                match self.check_condition(&w.condition, "While") {
                    Err(m) => {
                        return Err(m);
                    },
                    Ok(_) => {},
                }
                self.check_loop_body(&w.body, ret)
            },
            Stmt::For(f) => {
                self.push_scope();
                match self.check_var_decl(&f.initializer) {
                    Err(m) => {
                        return Err(m);
                    },
                    Ok(_) => {},
                }
                match self.check_condition(&f.condition, "For") {
                    Err(m) => {
                        return Err(m);
                    },
                    Ok(_) => {},
                }
                match self.check_loop_body(&f.body, ret) {
                    Err(m) => {
                        return Err(m);
                    },
                    Ok(_) => {},
                }
                match self.check_assignment(&f.update) {
                    Err(m) => {
                        return Err(m);
                    },
                    Ok(_) => {},
                }
                self.pop_scope();
                Ok(())
            },
            Stmt::ForEach(f) => {
                let it = match self.check_expr(&f.iterable) {
                    Err(m) => {
                        return Err(m);
                    },
                    Ok(t) => t,
                };
                match it {
                    Type::Arr | Type::Unknown => {},
                    Type::Dict => {
                        let t = match type_from_name(&f.item_ty) {
                            Err(m) => {
                                return Err(m);
                            },
                            Ok(t) => t,
                        };
                        if t != Type::Str {
                            let mut m = owned("For-each over dict gives string keys, but '");
                            push_str(&mut m, f.item_name.as_str());
                            push_str(&mut m, "' is ");
                            push_str(&mut m, t.name());
                            return Err(m);
                        }
                    },
                    other => {
                        let mut m = owned("For-each expected arr or dict, got ");
                        push_str(&mut m, other.name());
                        return Err(m);
                    },
                }
                let item_ty = match type_from_name(&f.item_ty) {
                    Err(m) => {
                        return Err(m);
                    },
                    Ok(t) => t,
                };
                self.push_scope();
                match self.define_var(f.item_name.clone(), item_ty) {
                    Err(m) => {
                        return Err(m);
                    },
                    Ok(_) => {},
                }
                let saved = self.loop_depth;
                self.loop_depth = if saved < usize::MAX { saved + 1 } else { saved };
                let checked = self.check_block(&f.body, f.body.len(), ret);
                assert(stmts_view(f.body@).take(f.body.len() as int) =~= stmts_view(f.body@));
                match checked {
                    Err(m) => {
                        return Err(m);
                    },
                    Ok(_) => {},
                }
                self.loop_depth = saved;
                self.pop_scope();
                Ok(())
            },
            Stmt::Break => {
                if self.loop_depth == 0 {
                    return Err(owned("break used outside of loop"));
                }
                Ok(())
            },
            Stmt::Continue => {
                if self.loop_depth == 0 {
                    return Err(owned("continue used outside of loop"));
                }
                Ok(())
            },
            Stmt::Return(r) => {
                let actual = match self.check_expr(&r.value) {
                    Err(m) => {
                        return Err(m);
                    },
                    Ok(t) => t,
                };
                if ret == Type::Void {
                    return Err(owned("Cannot return a value from a function with no return type"));
                }
                if !types_compatible(ret, actual) {
                    let mut m = owned("Return expected ");
                    push_str(&mut m, ret.name());
                    push_str(&mut m, ", got ");
                    push_str(&mut m, actual.name());
                    return Err(m);
                }
                Ok(())
            },
        }
    }

    /// Checks the first `n` statements of `body`, in the current scope.
    fn check_block(&mut self, body: &Vec<Stmt>, n: usize, ret: Type) -> (r: Result<(), String>)
        requires
            n <= body.len(),
        ensures
            agrees(r, final(self)@, block_checked(old(self)@, stmts_view(body@).take(n as int), ret)),
        decreases body, 0nat, n,
    {
        let ghost v = stmts_view(body@);
        if n == 0 {
            return Ok(());
        }
        assert(v.take(n as int).drop_last() =~= v.take(n - 1));
        assert(v.len() == body@.len());
        assert(v[n - 1] == body@[n - 1]@);
        assert(v.take(n as int).last() == body@[n - 1]@);
        match self.check_block(body, n - 1, ret) {
            Err(m) => {
                return Err(m);
            },
            Ok(_) => {},
        }
        self.check_stmt(&body[n - 1], ret)
    }

    fn check_scoped_body(&mut self, body: &Vec<Stmt>, ret: Type) -> (r: Result<(), String>)
        ensures
            agrees(r, final(self)@, scoped_checked(old(self)@, stmts_view(body@), ret)),
        decreases body, 1nat, 0nat,
    {
        self.push_scope();
        let result = self.check_block(body, body.len(), ret);
        assert(stmts_view(body@).take(body.len() as int) =~= stmts_view(body@));
        self.pop_scope();
        result
    }
}

/// Whether some statement among the first `n` of `body` returns on every path.
fn block_definitely_returns(body: &Vec<Stmt>, n: usize) -> (r: bool)
    requires
        n <= body.len(),
    ensures
        r == block_returns(stmts_view(body@).take(n as int)),
    decreases body, 0nat, n,
{
    let ghost v = stmts_view(body@);
    if n == 0 {
        return false;
    }
    assert(v.take(n as int).drop_last() =~= v.take(n - 1));
    assert(v.len() == body@.len());
    assert(v[n - 1] == body@[n - 1]@);
    assert(v.take(n as int).last() == body@[n - 1]@);
    block_definitely_returns(body, n - 1) || stmt_definitely_returns(&body[n - 1])
}

/// Whether a statement returns on every path.
fn stmt_definitely_returns(s: &Stmt) -> (r: bool)
    ensures
        r == stmt_returns(s@),
    decreases s, 1nat, 0nat,
{
    match s {
        Stmt::Return(_) => true,
        Stmt::If(if_stmt) => {
            let then_returns = block_definitely_returns(&if_stmt.then_body, if_stmt.then_body.len());
            assert(stmts_view(if_stmt.then_body@).take(if_stmt.then_body.len() as int) =~= stmts_view(if_stmt.then_body@));
            then_returns && match &if_stmt.else_body {
                Some(b) => {
                    let r = block_definitely_returns(b, b.len());
                    assert(stmts_view(b@).take(b.len() as int) =~= stmts_view(b@));
                    r
                },
                None => false,
            }
        },
        _ => false,
    }
}

/// The types of the first `n` parameters.
fn param_types_of(params: &Vec<Param>, n: usize) -> (r: Result<Vec<Type>, String>)
    requires
        n <= params.len(),
    ensures
        match param_types(params_view(params@).take(n as int)) {
            Ok(ts) => r is Ok && r->Ok_0@ == ts,
            Err(m) => r is Err && r->Err_0@ == m,
        },
    decreases n,
{
    let ghost v = params_view(params@);
    if n == 0 {
        return Ok(Vec::new());
    }
    assert(v.take(n as int).drop_last() =~= v.take(n - 1));
    let mut ts = match param_types_of(params, n - 1) {
        Err(m) => {
            return Err(m);
        },
        Ok(ts) => ts,
    };
    let t = match type_from_name(&params[n - 1].ty) {
        Err(m) => {
            return Err(m);
        },
        Ok(t) => t,
    };
    ts.push(t);
    Ok(ts)
}

/// The declared return type of a function.
fn declared_return(f: &Function) -> (r: Result<Type, String>)
    ensures
        outcome(r) == return_type_of(f@),
{
    match &f.return_type {
        Some(t) => type_from_name(t),
        None => Ok(Type::Void),
    }
}

/// The position of the first top-level variable declaration at or after `i`.
fn find_var_decl(items: &Vec<Item>, i: usize) -> (r: Option<usize>)
    ensures
        match r {
            Some(k) => first_var_decl(items_view(items@), i as int) == Some(k as int),
            None => first_var_decl(items_view(items@), i as int) is None,
        },
        r matches Some(k) ==> k < items.len() && items@[k as int] is VarDecl,
{
    let ghost v = items_view(items@);
    let mut j = i;
    while j < items.len()
        invariant
            i <= j,
            v == items_view(items@),
            first_var_decl(v, i as int) == first_var_decl(v, j as int),
        decreases items.len() - j,
    {
        if let Item::VarDecl(_) = &items[j] {
            return Some(j);
        }
        j += 1;
    }
    None
}

impl TypeChecker {
    /// Declares the first `n` parameters.
    fn check_params(&mut self, params: &Vec<Param>, n: usize) -> (r: Result<(), String>)
        requires
            n <= params.len(),
        ensures
            agrees(r, final(self)@, params_declared(old(self)@, params_view(params@).take(n as int))),
        decreases n,
    {
        let ghost v = params_view(params@);
        if n == 0 {
            return Ok(());
        }
        assert(v.take(n as int).drop_last() =~= v.take(n - 1));
        match self.check_params(params, n - 1) {
            Err(m) => {
                return Err(m);
            },
            Ok(_) => {},
        }
        let t = match type_from_name(&params[n - 1].ty) {
            Err(m) => {
                return Err(m);
            },
            Ok(t) => t,
        };
        self.define_var(params[n - 1].name.clone(), t)
    }

    fn check_function(&mut self, f: &Function) -> (r: Result<(), String>)
        ensures
            agrees(r, final(self)@, function_checked(old(self)@, f@)),
    {
        self.push_scope();
        let declared = self.check_params(&f.params, f.params.len());
        assert(params_view(f.params@).take(f.params.len() as int) =~= params_view(f.params@));
        match declared {
            Err(m) => {
                return Err(m);
            },
            Ok(_) => {},
        }
        let ret = match declared_return(f) {
            Err(m) => {
                return Err(m);
            },
            Ok(t) => t,
        };
        let checked = self.check_block(&f.body, f.body.len(), ret);
        assert(stmts_view(f.body@).take(f.body.len() as int) =~= stmts_view(f.body@));
        match checked {
            Err(m) => {
                return Err(m);
            },
            Ok(_) => {},
        }
        self.pop_scope();
        if ret != Type::Void && !block_definitely_returns(&f.body, f.body.len()) {
            let mut m = owned("Function '");
            push_str(&mut m, f.name.as_str());
            push_str(&mut m, "' should return ");
            push_str(&mut m, ret.name());
            push_str(&mut m, " on every path");
            return Err(m);
        }
        Ok(())
    }

    /// Registers the signatures of the functions among the first `n` items.
    fn collect_signatures(&mut self, items: &Vec<Item>, n: usize) -> (r: Result<(), String>)
        requires
            n <= items.len(),
        ensures
            match signatures(old(self)@.functions, items_view(items@).take(n as int)) {
                Ok(fs) => r is Ok && final(self)@ == CheckState { functions: fs, ..old(self)@ },
                Err(m) => r is Err && r->Err_0@ == m,
            },
        decreases n,
    {
        let ghost v = items_view(items@);
        if n == 0 {
            return Ok(());
        }
        assert(v.take(n as int).drop_last() =~= v.take(n - 1));
        match self.collect_signatures(items, n - 1) {
            Err(m) => {
                return Err(m);
            },
            Ok(_) => {},
        }
        match &items[n - 1] {
            Item::VarDecl(_) => Ok(()),
            Item::Function(f) => {
                if sig_index(&self.functions, &f.name).is_some() {
                    let mut m = owned("Function '");
                    push_str(&mut m, f.name.as_str());
                    push_str(&mut m, "' already exists");
                    return Err(m);
                }
                let params = param_types_of(&f.params, f.params.len());
                assert(params_view(f.params@).take(f.params.len() as int) =~= params_view(f.params@));
                let params = match params {
                    Err(m) => {
                        return Err(m);
                    },
                    Ok(ps) => ps,
                };
                let return_type = match declared_return(f) {
                    Err(m) => {
                        return Err(m);
                    },
                    Ok(t) => t,
                };
                let ghost before = self.functions@;
                let ghost entry = (f.name@, SigV { params: params@, return_type });
                self.functions.push((f.name.clone(), FunctionSig { params, return_type }));
                assert(sigs_view(self.functions@) =~= sigs_view(before).push(entry));
                Ok(())
            },
        }
    }

    fn collect_functions(&mut self, program: &Program) -> (r: Result<(), String>)
        ensures
            agrees(r, final(self)@, functions_collected(old(self)@, program@)),
    {
        let collected = self.collect_signatures(&program.items, program.items.len());
        assert(items_view(program.items@).take(program.items.len() as int) =~= items_view(program.items@));
        match collected {
            Err(m) => {
                return Err(m);
            },
            Ok(_) => {},
        }
        let main = owned("main");
        match sig_index(&self.functions, &main) {
            None => Err(owned("No main function exists")),
            Some(i) => {
                if self.functions[i].1.params.len() != 0 {
                    Err(owned("main function cannot have parameters"))
                } else {
                    Ok(())
                }
            },
        }
    }

    /// Checks the functions among the first `n` items.
    fn check_functions(&mut self, items: &Vec<Item>, n: usize) -> (r: Result<(), String>)
        requires
            n <= items.len(),
        ensures
            agrees(r, final(self)@, functions_checked(old(self)@, items_view(items@).take(n as int))),
        decreases n,
    {
        let ghost v = items_view(items@);
        if n == 0 {
            return Ok(());
        }
        assert(v.take(n as int).drop_last() =~= v.take(n - 1));
        match self.check_functions(items, n - 1) {
            Err(m) => {
                return Err(m);
            },
            Ok(_) => {},
        }
        match &items[n - 1] {
            Item::VarDecl(_) => Ok(()),
            Item::Function(f) => self.check_function(f),
        }
    }

    /// Checks a whole program: signatures, a `main` without parameters, no top-level
    /// variables, and every function body.
    pub fn check_program(&mut self, program: &Program) -> (r: Result<(), String>)
        ensures
            agrees(r, final(self)@, program_checked(old(self)@, program@)),
    {
        match self.collect_functions(program) {
            Err(m) => {
                return Err(m);
            },
            Ok(_) => {},
        }
        match find_var_decl(&program.items, 0) {
            Some(i) => match &program.items[i] {
                Item::VarDecl(d) => {
                    assert(items_view(program.items@)[i as int] == program.items@[i as int]@);
                    match self.check_var_decl(d) {
                        Err(m) => {
                            return Err(m);
                        },
                        Ok(_) => {},
                    }
                    let mut m = owned("Top-level variable '");
                    push_str(&mut m, d.name.as_str());
                    push_str(&mut m, "' is not supported; declare it inside a function");
                    Err(m)
                },
                Item::Function(_) => Ok(()),
            },
            None => {
                let r = self.check_functions(&program.items, program.items.len());
                assert(items_view(program.items@).take(program.items.len() as int) =~= items_view(program.items@));
                r
            },
        }
    }
}

} // verus!
