//! What a successful check guarantees about a program.
use vstd::prelude::*;
use crate::ast::{BinaryOp, ExprV, ItemV, ParamV, ProgramV, StmtV};
use crate::check_spec::{
    CheckState, SigV, Type, block_checked, block_returns, functions_checked,
    functions_collected, first_var_decl, param_types, program_checked, return_type_of,
    scoped_checked, sig_lookup, signatures, stmt_checked, type_from_text, define,
    var_decl_checked, with_depth, push_scope, pop_scope, condition_checked, expr_type,
};

verus! {

/// The state a fresh checker starts from.
pub open spec fn fresh_state() -> CheckState {
    CheckState { scopes: seq![Seq::empty()], functions: Seq::empty(), loop_depth: 0 }
}

/// A function item named `n`.
pub open spec fn is_function_named(item: ItemV, n: Seq<char>) -> bool {
    item matches ItemV::Function(f) && f.name == n
}

proof fn lemma_param_types_len(params: Seq<ParamV>)
    ensures
        param_types(params) matches Ok(ts) ==> ts.len() == params.len(),
    decreases params.len(),
{
    if params.len() > 0 {
        lemma_param_types_len(params.drop_last());
    }
}

proof fn lemma_sig_lookup_push(fs: Seq<(Seq<char>, SigV)>, e: (Seq<char>, SigV), n: Seq<char>)
    ensures
        sig_lookup(fs.push(e), n) == if e.0 == n {
            Some(e.1)
        } else {
            sig_lookup(fs, n)
        },
{
    assert(fs.push(e).drop_last() =~= fs);
}

/// Every registered signature either was there before or comes from a function item
/// of that name whose parameter types it holds; every function item is registered.
proof fn lemma_signatures(fs: Seq<(Seq<char>, SigV)>, items: Seq<ItemV>, n: Seq<char>)
    ensures
        signatures(fs, items) matches Ok(fs2) ==> {
            &&& (sig_lookup(fs2, n) matches Some(sig) ==> (sig_lookup(fs, n) == Some(sig) || exists|i: int|
                0 <= i < items.len() && #[trigger] is_function_named(items[i], n) && param_types(
                    items[i]->Function_0.params,
                ) == Ok::<Seq<Type>, Seq<char>>(sig.params)))
            &&& ((exists|i: int| 0 <= i < items.len() && #[trigger] is_function_named(items[i], n))
                ==> sig_lookup(fs2, n) is Some)
            &&& (sig_lookup(fs, n) is Some ==> sig_lookup(fs2, n) is Some)
        },
    decreases items.len(),
{
    if items.len() > 0 {
        let prefix = items.drop_last();
        lemma_signatures(fs, prefix, n);
        match signatures(fs, prefix) {
            Err(_) => {},
            Ok(fs1) => {
                match items.last() {
                    ItemV::VarDecl(_) => {
                        assert forall|i: int| 0 <= i < items.len() && #[trigger] is_function_named(items[i], n)
                            implies sig_lookup(fs1, n) is Some by {
                            assert(i < prefix.len());
                            assert(prefix[i] == items[i]);
                        }
                        if sig_lookup(fs1, n) is Some {
                            if sig_lookup(fs, n) != sig_lookup(fs1, n) {
                                let i = choose|i: int|
                                    0 <= i < prefix.len() && #[trigger] is_function_named(prefix[i], n)
                                        && param_types(prefix[i]->Function_0.params) == Ok::<
                                        Seq<Type>,
                                        Seq<char>,
                                    >(sig_lookup(fs1, n)->0.params);
                                assert(items[i] == prefix[i]);
                            }
                        }
                    },
                    ItemV::Function(f) => {
                        if sig_lookup(fs1, f.name) is None {
                            match param_types(f.params) {
                                Err(_) => {},
                                Ok(ps) => match return_type_of(f) {
                                    Err(_) => {},
                                    Ok(r) => {
                                        let e = (f.name, SigV { params: ps, return_type: r });
                                        lemma_sig_lookup_push(fs1, e, n);
                                        let last = items.len() - 1;
                                        assert(items[last] == items.last());
                                        assert forall|i: int| 0 <= i < items.len() && #[trigger] is_function_named(items[i], n)
                                            implies sig_lookup(fs1.push(e), n) is Some by {
                                            if i < prefix.len() {
                                                assert(prefix[i] == items[i]);
                                            }
                                        }
                                        if sig_lookup(fs1.push(e), n) is Some && e.0 != n {
                                            if sig_lookup(fs, n) != sig_lookup(fs1, n) {
                                                let i = choose|i: int|
                                                    0 <= i < prefix.len() && #[trigger] is_function_named(prefix[i], n)
                                                        && param_types(prefix[i]->Function_0.params) == Ok::<
                                                        Seq<Type>,
                                                        Seq<char>,
                                                    >(sig_lookup(fs1, n)->0.params);
                                                assert(items[i] == prefix[i]);
                                            }
                                        }
                                        if e.0 == n {
                                            assert(is_function_named(items[last], n));
                                        }
                                    },
                                },
                            }
                        }
                    },
                }
            },
        }
    }
}

/// No two function items of a program that registers its signatures share a name.
proof fn lemma_signatures_distinct(fs: Seq<(Seq<char>, SigV)>, items: Seq<ItemV>, i: int, j: int)
    requires
        signatures(fs, items) is Ok,
        0 <= i < j < items.len(),
        items[i] is Function,
        items[j] is Function,
    ensures
        items[i]->Function_0.name != items[j]->Function_0.name,
    decreases items.len(),
{
    let prefix = items.drop_last();
    if j < items.len() - 1 {
        assert(prefix[i] == items[i] && prefix[j] == items[j]);
        lemma_signatures_distinct(fs, prefix, i, j);
    } else {
        let n = items[i]->Function_0.name;
        lemma_signatures(fs, prefix, n);
        assert(prefix[i] == items[i]);
        assert(is_function_named(prefix[i], n));
        assert(items.last() == items[j]);
    }
}

/// Statements keep the signatures, the loop depth, the number of scopes and every
/// scope but the innermost.
pub open spec fn same_frame(a: CheckState, b: CheckState) -> bool {
    &&& a.functions == b.functions
    &&& a.loop_depth == b.loop_depth
    &&& a.scopes.len() == b.scopes.len()
    &&& a.scopes.drop_last() == b.scopes.drop_last()
}

proof fn lemma_stmt_frame(st: CheckState, s: StmtV, ret: Type)
    ensures
        stmt_checked(st, s, ret) matches Ok(s1) ==> same_frame(st, s1),
    decreases s, 2nat,
{
    if s is If {
        lemma_if_frame(st, s, ret);
    } else if s is While {
        lemma_while_frame(st, s, ret);
    } else if s is For {
        lemma_for_frame(st, s, ret);
    } else if s is ForEach {
        lemma_for_each_frame(st, s, ret);
    } else {
        lemma_simple_frame(st, s, ret);
    }
}

proof fn lemma_simple_frame(st: CheckState, s: StmtV, ret: Type)
    requires
        !(s is If || s is While || s is For || s is ForEach),
    ensures
        stmt_checked(st, s, ret) matches Ok(s1) ==> same_frame(st, s1),
{
    if let Ok(s1) = stmt_checked(st, s, ret) {
        if s is VarDecl {
            assert(s1.scopes.drop_last() =~= st.scopes.drop_last());
        }
    }
}

proof fn lemma_if_frame(st: CheckState, s: StmtV, ret: Type)
    requires
        s is If,
    ensures
        stmt_checked(st, s, ret) matches Ok(s1) ==> same_frame(st, s1),
    decreases s, 1nat,
{
    let then_body = s->If_then_body;
    lemma_scoped_frame(st, then_body, ret);
    match scoped_checked(st, then_body, ret) {
        Err(_) => {},
        Ok(s1) => match s->If_else_body {
            None => {},
            Some(b) => {
                lemma_scoped_frame(s1, b, ret);
            },
        },
    }
}

proof fn lemma_while_frame(st: CheckState, s: StmtV, ret: Type)
    requires
        s is While,
    ensures
        stmt_checked(st, s, ret) matches Ok(s1) ==> same_frame(st, s1),
    decreases s, 1nat,
{
    lemma_scoped_frame(with_depth(st, crate::check_spec::deeper(st.loop_depth)), s->While_body, ret);
}

proof fn lemma_for_frame(st: CheckState, s: StmtV, ret: Type)
    requires
        s is For,
    ensures
        stmt_checked(st, s, ret) matches Ok(s1) ==> same_frame(st, s1),
    decreases s, 1nat,
{
    let s0 = push_scope(st);
    match var_decl_checked(s0, s->For_initializer) {
        Err(_) => {},
        Ok(s1) => {
            let body = s->For_body;
            lemma_scoped_frame(with_depth(s1, crate::check_spec::deeper(s1.loop_depth)), body, ret);
            if let Ok(s9) = stmt_checked(st, s, ret) {
                assert(s0.scopes.drop_last() =~= st.scopes);
                assert(s1.scopes.drop_last() =~= s0.scopes.drop_last());
                assert(s9.scopes =~= st.scopes);
            }
        },
    }
}

proof fn lemma_for_each_frame(st: CheckState, s: StmtV, ret: Type)
    requires
        s is ForEach,
    ensures
        stmt_checked(st, s, ret) matches Ok(s1) ==> same_frame(st, s1),
    decreases s, 1nat,
{
    match type_from_text(s->ForEach_item_ty) {
        Err(_) => {},
        Ok(t) => match define(push_scope(st), s->ForEach_item_name, t) {
            Err(_) => {},
            Ok(s1) => {
                assert(push_scope(st).scopes.drop_last() =~= st.scopes);
                assert(s1.scopes.drop_last() =~= st.scopes);
                lemma_block_frame(with_depth(s1, crate::check_spec::deeper(s1.loop_depth)), s->ForEach_body, ret);
                if let Ok(s9) = stmt_checked(st, s, ret) {
                    assert(s9.scopes =~= st.scopes);
                }
            },
        },
    }
}

proof fn lemma_block_frame(st: CheckState, body: Seq<StmtV>, ret: Type)
    ensures
        block_checked(st, body, ret) matches Ok(s1) ==> same_frame(st, s1),
    decreases body, 0nat,
{
    if body.len() > 0 {
        lemma_block_frame(st, body.drop_last(), ret);
        match block_checked(st, body.drop_last(), ret) {
            Err(_) => {},
            Ok(s1) => {
                lemma_stmt_frame(s1, body.last(), ret);
            },
        }
    }
}

proof fn lemma_scoped_frame(st: CheckState, body: Seq<StmtV>, ret: Type)
    ensures
        scoped_checked(st, body, ret) matches Ok(s1) ==> s1 == st,
    decreases body, 1nat,
{
    lemma_block_frame(push_scope(st), body, ret);
    match block_checked(push_scope(st), body, ret) {
        Err(_) => {},
        Ok(s1) => {
            assert(push_scope(st).scopes.drop_last() =~= st.scopes);
            assert(pop_scope(s1).scopes =~= st.scopes);
        },
    }
}

/// A block checked in its own scope leaves the checker as it found it: what the block
/// declares is not visible after it.
pub proof fn law_block_scope(st: CheckState, body: Seq<StmtV>, ret: Type)
    ensures
        scoped_checked(st, body, ret) matches Ok(s1) ==> s1 == st,
{
    lemma_scoped_frame(st, body, ret);
}

/// Every branch of an `if` is checked, whatever the condition's value: the statement
/// checks only when its condition and both branches do.
pub proof fn law_both_branches_checked(st: CheckState, s: StmtV, ret: Type)
    requires
        s is If,
        stmt_checked(st, s, ret) is Ok,
    ensures
        condition_checked(st, s->If_condition, "If"@) is Ok,
        scoped_checked(st, s->If_then_body, ret) is Ok,
        s->If_else_body matches Some(b) ==> scoped_checked(st, b, ret) is Ok,
{
    lemma_scoped_frame(st, s->If_then_body, ret);
}

/// A checked program has a function named `main`, and that function takes no parameters.
pub proof fn law_main_exists(p: ProgramV)
    requires
        program_checked(fresh_state(), p) is Ok,
    ensures
        exists|i: int|
            0 <= i < p.items.len() && #[trigger] is_function_named(p.items[i], "main"@) && p.items[i]->Function_0.params.len() == 0,
{
    let fs0 = Seq::<(Seq<char>, SigV)>::empty();
    lemma_signatures(fs0, p.items, "main"@);
    let fs = signatures(fs0, p.items)->Ok_0;
    let sig = sig_lookup(fs, "main"@)->0;
    assert(sig_lookup(fs0, "main"@) is None);
    let i = choose|i: int|
        0 <= i < p.items.len() && #[trigger] is_function_named(p.items[i], "main"@) && param_types(
            p.items[i]->Function_0.params,
        ) == Ok::<Seq<Type>, Seq<char>>(sig.params);
    lemma_param_types_len(p.items[i]->Function_0.params);
}

/// No two functions of a checked program share a name.
pub proof fn law_function_names_distinct(p: ProgramV, i: int, j: int)
    requires
        program_checked(fresh_state(), p) is Ok,
        0 <= i < j < p.items.len(),
        p.items[i] is Function,
        p.items[j] is Function,
    ensures
        p.items[i]->Function_0.name != p.items[j]->Function_0.name,
{
    lemma_signatures_distinct(Seq::empty(), p.items, i, j);
}

/// A checked program has no top-level variables.
pub proof fn law_no_top_level_variables(p: ProgramV, i: int)
    requires
        program_checked(fresh_state(), p) is Ok,
        0 <= i < p.items.len(),
    ensures
        p.items[i] is Function,
{
    lemma_first_var_decl_none(p.items, 0, i);
}

proof fn lemma_first_var_decl_none(items: Seq<ItemV>, k: int, i: int)
    requires
        0 <= k <= i < items.len(),
        first_var_decl(items, k) is None,
    ensures
        items[i] is Function,
    decreases i - k,
{
    if k < i {
        lemma_first_var_decl_none(items, k + 1, i);
    }
}

proof fn lemma_functions_return(st: CheckState, items: Seq<ItemV>, i: int)
    requires
        functions_checked(st, items) is Ok,
        0 <= i < items.len(),
        items[i] is Function,
        items[i]->Function_0.return_type is Some,
    ensures
        block_returns(items[i]->Function_0.body),
    decreases items.len(),
{
    let prefix = items.drop_last();
    if i < items.len() - 1 {
        assert(prefix[i] == items[i]);
        lemma_functions_return(st, prefix, i);
    } else {
        assert(items.last() == items[i]);
        let f = items[i]->Function_0;
        let t = f.return_type->0;
        assert(type_from_text(t) != Ok::<Type, Seq<char>>(Type::Void));
    }
}

/// Every function of a checked program that declares a return type returns on every path.
pub proof fn law_typed_functions_return(p: ProgramV, i: int)
    requires
        program_checked(fresh_state(), p) is Ok,
        0 <= i < p.items.len(),
        p.items[i] is Function,
        p.items[i]->Function_0.return_type is Some,
    ensures
        block_returns(p.items[i]->Function_0.body),
{
    let s1 = functions_collected(fresh_state(), p)->Ok_0;
    lemma_first_var_decl_none(p.items, 0, i);
    lemma_functions_return(s1, p.items, i);
}

/// The type of `left op right`.
pub open spec fn binary_expr_type(st: CheckState, left: ExprV, op: BinaryOp, right: ExprV) -> Result<Type, Seq<char>> {
    expr_type(st, ExprV::Binary { left: Box::new(left), op, right: Box::new(right) })
}

/// The typing of binary operators on well-typed operands: `+` with a `str` on either side
/// is a `str`; arithmetic on two `int`s is an `int`; comparing two `int`s, and `==` and
/// `!=` on anything, is a `bool`; `&&` and `||` on two `bool`s are a `bool`; arithmetic
/// other than `+`, and ordering, are refused on a `str`, `bool`, `arr` or `dict`.
pub proof fn law_binary_typing(st: CheckState, left: ExprV, right: ExprV, l: Type, r: Type)
    requires
        expr_type(st, left) == Ok::<Type, Seq<char>>(l),
        expr_type(st, right) == Ok::<Type, Seq<char>>(r),
    ensures
        l == Type::Str || r == Type::Str ==> binary_expr_type(st, left, BinaryOp::Add, right)
            == Ok::<Type, Seq<char>>(Type::Str),
        l == Type::Int && r == Type::Int ==> {
            &&& binary_expr_type(st, left, BinaryOp::Add, right) == Ok::<Type, Seq<char>>(Type::Int)
            &&& binary_expr_type(st, left, BinaryOp::Sub, right) == Ok::<Type, Seq<char>>(Type::Int)
            &&& binary_expr_type(st, left, BinaryOp::Mul, right) == Ok::<Type, Seq<char>>(Type::Int)
            &&& binary_expr_type(st, left, BinaryOp::Div, right) == Ok::<Type, Seq<char>>(Type::Int)
            &&& binary_expr_type(st, left, BinaryOp::Less, right) == Ok::<Type, Seq<char>>(Type::Bool)
            &&& binary_expr_type(st, left, BinaryOp::Greater, right) == Ok::<Type, Seq<char>>(Type::Bool)
            &&& binary_expr_type(st, left, BinaryOp::LessEq, right) == Ok::<Type, Seq<char>>(Type::Bool)
            &&& binary_expr_type(st, left, BinaryOp::GreaterEq, right) == Ok::<Type, Seq<char>>(Type::Bool)
        },
        binary_expr_type(st, left, BinaryOp::Eq, right) == Ok::<Type, Seq<char>>(Type::Bool),
        binary_expr_type(st, left, BinaryOp::NotEq, right) == Ok::<Type, Seq<char>>(Type::Bool),
        l == Type::Bool && r == Type::Bool ==> {
            &&& binary_expr_type(st, left, BinaryOp::And, right) == Ok::<Type, Seq<char>>(Type::Bool)
            &&& binary_expr_type(st, left, BinaryOp::Or, right) == Ok::<Type, Seq<char>>(Type::Bool)
        },
        (l == Type::Str || l == Type::Bool || l == Type::Arr || l == Type::Dict) ==> {
            &&& binary_expr_type(st, left, BinaryOp::Sub, right) is Err
            &&& binary_expr_type(st, left, BinaryOp::Mul, right) is Err
            &&& binary_expr_type(st, left, BinaryOp::Div, right) is Err
            &&& binary_expr_type(st, left, BinaryOp::Less, right) is Err
            &&& binary_expr_type(st, left, BinaryOp::Greater, right) is Err
            &&& binary_expr_type(st, left, BinaryOp::LessEq, right) is Err
            &&& binary_expr_type(st, left, BinaryOp::GreaterEq, right) is Err
        },
{
}

/// `!` on a `bool` is a `bool` and unary `-` on an `int` an `int`; `!` on an `int`, `str`,
/// `arr` or `dict`, and `-` on a `bool`, `str`, `arr` or `dict`, are refused.
pub proof fn law_unary_typing(st: CheckState, e: ExprV, t: Type)
    requires
        expr_type(st, e) == Ok::<Type, Seq<char>>(t),
    ensures
        t == Type::Bool ==> expr_type(st, ExprV::Unary { op: crate::ast::UnaryOp::Not, expr: Box::new(e) })
            == Ok::<Type, Seq<char>>(Type::Bool),
        t == Type::Int ==> expr_type(st, ExprV::Unary { op: crate::ast::UnaryOp::Neg, expr: Box::new(e) })
            == Ok::<Type, Seq<char>>(Type::Int),
        (t == Type::Int || t == Type::Str || t == Type::Arr || t == Type::Dict) ==> expr_type(
            st,
            ExprV::Unary { op: crate::ast::UnaryOp::Not, expr: Box::new(e) },
        ) is Err,
        (t == Type::Bool || t == Type::Str || t == Type::Arr || t == Type::Dict) ==> expr_type(
            st,
            ExprV::Unary { op: crate::ast::UnaryOp::Neg, expr: Box::new(e) },
        ) is Err,
{
}

} // verus!
