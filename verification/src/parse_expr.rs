//! Parsing expressions.
use vstd::prelude::*;
use crate::ast::{
    Expr, ExprV, UnaryOp, entries_view, exprs_view, lemma_entries_view_push,
    lemma_exprs_view_push,
};
use crate::parse_spec::{
    Parsed, binary_tail, checks, kind_at, lemma_shift_shift, postfix_tail, remaining, shift,
    spec_args, spec_array_items, spec_binary, spec_dict_entries, spec_expr, spec_operand,
    spec_postfix, spec_primary, spec_unary,
};
use crate::parse_tokens::{
    binary_op_at, check, consume, consume_string, describe_current, error_here, wf_tokens,
};
use crate::text::{owned, push_str};
use crate::token::{Token, TokenKind, TokenKindV, tokens_view};

verus! {

broadcast use crate::ast::group_ast_views;

pub open spec fn agrees_expr(r: Result<(Expr, usize), String>, s: Parsed<ExprV>, p: int, len: int) -> bool {
    match r {
        Ok((e, q)) => p <= q < len && s == Ok::<(ExprV, nat), Seq<char>>((e@, (q - p) as nat)),
        Err(m) => s == Err::<(ExprV, nat), Seq<char>>(m@),
    }
}

pub open spec fn agrees_exprs(r: Result<(Vec<Expr>, usize), String>, s: Parsed<Seq<ExprV>>, p: int, len: int) -> bool {
    match r {
        Ok((e, q)) => p <= q < len && s == Ok::<(Seq<ExprV>, nat), Seq<char>>((exprs_view(e@), (q - p) as nat)),
        Err(m) => s == Err::<(Seq<ExprV>, nat), Seq<char>>(m@),
    }
}

pub open spec fn agrees_entries(
    r: Result<(Vec<(String, Expr)>, usize), String>,
    s: Parsed<Seq<(Seq<char>, ExprV)>>,
    p: int,
    len: int,
) -> bool {
    match r {
        Ok((e, q)) => p <= q < len && s == Ok::<(Seq<(Seq<char>, ExprV)>, nat), Seq<char>>(
            (entries_view(e@), (q - p) as nat),
        ),
        Err(m) => s == Err::<(Seq<(Seq<char>, ExprV)>, nat), Seq<char>>(m@),
    }
}

#[verifier::spinoff_prover]
pub(crate) fn parse_expr(ts: &Vec<Token>, p: usize) -> (r: Result<(Expr, usize), String>)
    requires
        wf_tokens(ts@),
        p < ts.len(),
    ensures
        agrees_expr(r, spec_expr(tokens_view(ts@), p as int), p as int, ts.len() as int),
    decreases remaining(tokens_view(ts@), p as int), 18nat,
{
    proof { reveal_with_fuel(spec_expr, 1); }
    parse_binary(ts, p, 6)
}

#[verifier::spinoff_prover]
pub(crate) fn parse_operand(ts: &Vec<Token>, p: usize, level: u8) -> (r: Result<(Expr, usize), String>)
    requires
        wf_tokens(ts@),
        p < ts.len(),
        level <= 6,
    ensures
        agrees_expr(r, spec_operand(tokens_view(ts@), p as int, level as nat), p as int, ts.len() as int),
    decreases remaining(tokens_view(ts@), p as int), 4 + 2 * (level as nat),
{
    proof { reveal_with_fuel(spec_operand, 1); }
    if level == 0 {
        parse_unary(ts, p)
    } else {
        parse_binary(ts, p, level - 1)
    }
}

#[verifier::spinoff_prover]
pub(crate) fn parse_binary(ts: &Vec<Token>, p: usize, level: u8) -> (r: Result<(Expr, usize), String>)
    requires
        wf_tokens(ts@),
        p < ts.len(),
        level <= 6,
    ensures
        agrees_expr(r, spec_binary(tokens_view(ts@), p as int, level as nat), p as int, ts.len() as int),
    decreases remaining(tokens_view(ts@), p as int), 5 + 2 * (level as nat),
{
    proof { reveal_with_fuel(spec_binary, 1); }
    proof { reveal_with_fuel(binary_tail, 1); }
    let ghost tv = tokens_view(ts@);
    let (mut expr, mut q) = match parse_operand(ts, p, level) {
        Ok(v) => v,
        Err(e) => {
            return Err(e);
        },
    };
    loop
        invariant
            wf_tokens(ts@),
            tv == tokens_view(ts@),
            p <= q < ts.len(),
            level <= 6,
            spec_binary(tv, p as int, level as nat) == shift(
                binary_tail(tv, expr@, q as int, level as nat),
                (q - p) as nat,
            ),
        decreases remaining(tv, q as int),
    {
        proof { reveal_with_fuel(spec_binary, 1); }
        proof { reveal_with_fuel(binary_tail, 1); }
        match binary_op_at(ts, q, level) {
            None => {
                return Ok((expr, q));
            },
            Some(op) => {
                let (right, next) = match parse_operand(ts, q + 1, level) {
                    Ok(v) => v,
                    Err(e) => {
                        return Err(e);
                    },
                };
                let ghost joined = ExprV::Binary { left: Box::new(expr@), op, right: Box::new(right@) };
                expr = Expr::Binary { left: Box::new(expr), op, right: Box::new(right) };
                assert(expr@ == joined);
                proof {
                    lemma_shift_shift(binary_tail(tv, joined, next as int, level as nat), (next - q) as nat, (q - p) as nat);
                }
                q = next;
            },
        }
    }
}

#[verifier::spinoff_prover]
pub(crate) fn parse_unary(ts: &Vec<Token>, p: usize) -> (r: Result<(Expr, usize), String>)
    requires
        wf_tokens(ts@),
        p < ts.len(),
    ensures
        agrees_expr(r, spec_unary(tokens_view(ts@), p as int), p as int, ts.len() as int),
    decreases remaining(tokens_view(ts@), p as int), 3nat,
{
    proof { reveal_with_fuel(spec_unary, 1); }
    if check(ts, p, &TokenKind::Bang) {
        let (expr, q) = match parse_unary(ts, p + 1) {
            Ok(v) => v,
            Err(e) => {
                return Err(e);
            },
        };
        return Ok((Expr::Unary { op: UnaryOp::Not, expr: Box::new(expr) }, q));
    }
    if check(ts, p, &TokenKind::Minus) {
        let (expr, q) = match parse_unary(ts, p + 1) {
            Ok(v) => v,
            Err(e) => {
                return Err(e);
            },
        };
        return Ok((Expr::Unary { op: UnaryOp::Neg, expr: Box::new(expr) }, q));
    }
    parse_postfix(ts, p)
}

#[verifier::spinoff_prover]
pub(crate) fn parse_postfix(ts: &Vec<Token>, p: usize) -> (r: Result<(Expr, usize), String>)
    requires
        wf_tokens(ts@),
        p < ts.len(),
    ensures
        agrees_expr(r, spec_postfix(tokens_view(ts@), p as int), p as int, ts.len() as int),
    decreases remaining(tokens_view(ts@), p as int), 2nat,
{
    proof { reveal_with_fuel(spec_postfix, 1); }
    proof { reveal_with_fuel(postfix_tail, 1); }
    let ghost tv = tokens_view(ts@);
    let (mut expr, mut q) = match parse_primary(ts, p) {
        Ok(v) => v,
        Err(e) => {
            return Err(e);
        },
    };
    loop
        invariant
            wf_tokens(ts@),
            tv == tokens_view(ts@),
            p <= q < ts.len(),
            spec_postfix(tv, p as int) == shift(postfix_tail(tv, expr@, q as int), (q - p) as nat),
        decreases remaining(tv, q as int),
    {
        proof { reveal_with_fuel(spec_postfix, 1); }
        proof { reveal_with_fuel(postfix_tail, 1); }
        if check(ts, q, &TokenKind::LParen) {
            let name = match expr {
                Expr::Ident(name) => name,
                _ => {
                    return Err(error_here(ts, q + 1, "Only named functions can be called."));
                },
            };
            let (args, next) = match parse_args_inside_parens(ts, q + 1) {
                Ok(v) => v,
                Err(e) => {
                    return Err(e);
                },
            };
            let ghost joined = ExprV::Call { name: name@, args: exprs_view(args@) };
            expr = Expr::Call { name, args };
            proof {
                lemma_shift_shift(postfix_tail(tv, joined, next as int), (next - q) as nat, (q - p) as nat);
            }
            q = next;
            continue;
        }
        if check(ts, q, &TokenKind::LBracket) {
            let (index, end) = match parse_expr(ts, q + 1) {
                Ok(v) => v,
                Err(e) => {
                    return Err(e);
                },
            };
            if let Err(e) = consume(ts, end, &TokenKind::RBracket, "Expected ']' after index.") {
                return Err(e);
            }
            let ghost joined = ExprV::Index { target: Box::new(expr@), index: Box::new(index@) };
            expr = Expr::Index { target: Box::new(expr), index: Box::new(index) };
            assert(expr@ == joined);
            proof {
                lemma_shift_shift(postfix_tail(tv, joined, end + 1), (end + 1 - q) as nat, (q - p) as nat);
            }
            q = end + 1;
            continue;
        }
        return Ok((expr, q));
    }
}

#[verifier::spinoff_prover]
pub(crate) fn parse_primary(ts: &Vec<Token>, p: usize) -> (r: Result<(Expr, usize), String>)
    requires
        wf_tokens(ts@),
        p < ts.len(),
    ensures
        agrees_expr(r, spec_primary(tokens_view(ts@), p as int), p as int, ts.len() as int),
    decreases remaining(tokens_view(ts@), p as int), 1nat,
{
    proof { reveal_with_fuel(spec_primary, 1); }
    match &ts[p].kind {
        TokenKind::Int(value) => {
            return Ok((Expr::Int(*value), p + 1));
        },
        TokenKind::Str(value) => {
            return Ok((Expr::Str(value.clone()), p + 1));
        },
        TokenKind::Bool(value) => {
            return Ok((Expr::Bool(*value), p + 1));
        },
        TokenKind::Ident(name) => {
            return Ok((Expr::Ident(name.clone()), p + 1));
        },
        _ => {},
    }
    if check(ts, p, &TokenKind::LParen) {
        let (expr, q) = match parse_expr(ts, p + 1) {
            Ok(v) => v,
            Err(e) => {
                return Err(e);
            },
        };
        if let Err(e) = consume(ts, q, &TokenKind::RParen, "Expected ')' after expression.") {
            return Err(e);
        }
        return Ok((expr, q + 1));
    }
    if check(ts, p, &TokenKind::LBracket) {
        return parse_array_literal(ts, p + 1);
    }
    if check(ts, p, &TokenKind::LBrace) {
        return parse_dict_literal(ts, p + 1);
    }
    let mut message = owned("Expected expression, found ");
    let found = describe_current(ts, p);
    push_str(&mut message, found.as_str());
    push_str(&mut message, ".");
    Err(error_here(ts, p, message.as_str()))
}

#[verifier::spinoff_prover]
pub(crate) fn parse_array_literal(ts: &Vec<Token>, p: usize) -> (r: Result<(Expr, usize), String>)
    requires
        wf_tokens(ts@),
        p < ts.len(),
        p > 0,
        kind_at(tokens_view(ts@), p - 1) is LBracket,
    ensures
        agrees_expr(r, spec_primary(tokens_view(ts@), p - 1), p - 1, ts.len() as int),
    decreases remaining(tokens_view(ts@), p - 1), 0nat,
{
    proof { reveal_with_fuel(spec_primary, 1); }
    if check(ts, p, &TokenKind::RBracket) {
        assert(exprs_view(Seq::<Expr>::empty()) =~= Seq::<ExprV>::empty());
        return Ok((Expr::ArrayLiteral(Vec::new()), p + 1));
    }
    let (values, q) = match parse_array_items(ts, p) {
        Ok(v) => v,
        Err(e) => {
            return Err(e);
        },
    };
    Ok((Expr::ArrayLiteral(values), q))
}

#[verifier::spinoff_prover]
pub(crate) fn parse_array_items(ts: &Vec<Token>, p: usize) -> (r: Result<(Vec<Expr>, usize), String>)
    requires
        wf_tokens(ts@),
        p < ts.len(),
    ensures
        agrees_exprs(r, spec_array_items(tokens_view(ts@), p as int, Seq::empty()), p as int, ts.len() as int),
    decreases remaining(tokens_view(ts@), p as int), 19nat,
{
    proof { reveal_with_fuel(spec_array_items, 1); }
    let ghost tv = tokens_view(ts@);
    let mut values: Vec<Expr> = Vec::new();
    let mut q = p;
    assert(exprs_view(values@) =~= Seq::<ExprV>::empty());
    loop
        invariant
            wf_tokens(ts@),
            tv == tokens_view(ts@),
            p <= q < ts.len(),
            spec_array_items(tv, p as int, Seq::empty()) == shift(
                spec_array_items(tv, q as int, exprs_view(values@)),
                (q - p) as nat,
            ),
        decreases remaining(tv, q as int),
    {
        proof { reveal_with_fuel(spec_array_items, 1); }
        let (value, end) = match parse_expr(ts, q) {
            Ok(v) => v,
            Err(e) => {
                assert(spec_expr(tv, q as int) == Err::<(ExprV, nat), Seq<char>>(e@));
                assert(spec_array_items(tv, q as int, exprs_view(values@)) == Err::<(Seq<ExprV>, nat), Seq<char>>(e@));
                assert(spec_array_items(tv, p as int, Seq::empty()) == Err::<(Seq<ExprV>, nat), Seq<char>>(e@));
                return Err(e);
            },
        };
        let ghost before = values@;
        values.push(value);
        proof {
            lemma_exprs_view_push(before, value);
            assert(before.push(value) =~= values@);
        }
        if check(ts, end, &TokenKind::Comma) && !check(ts, end + 1, &TokenKind::RBracket) {
            proof {
                lemma_shift_shift(spec_array_items(tv, end + 1, exprs_view(values@)), (end + 1 - q) as nat, (q - p) as nat);
            }
            q = end + 1;
            continue;
        }
        let close = if check(ts, end, &TokenKind::Comma) { end + 1 } else { end };
        if let Err(e) = consume(ts, close, &TokenKind::RBracket, "Expected ']' after array.") {
            return Err(e);
        }
        return Ok((values, close + 1));
    }
}

#[verifier::spinoff_prover]
pub(crate) fn parse_dict_literal(ts: &Vec<Token>, p: usize) -> (r: Result<(Expr, usize), String>)
    requires
        wf_tokens(ts@),
        p < ts.len(),
        p > 0,
        kind_at(tokens_view(ts@), p - 1) is LBrace,
    ensures
        agrees_expr(r, spec_primary(tokens_view(ts@), p - 1), p - 1, ts.len() as int),
    decreases remaining(tokens_view(ts@), p - 1), 0nat,
{
    proof { reveal_with_fuel(spec_primary, 1); }
    if check(ts, p, &TokenKind::RBrace) {
        assert(entries_view(Seq::<(String, Expr)>::empty()) =~= Seq::<(Seq<char>, ExprV)>::empty());
        return Ok((Expr::DictLiteral(Vec::new()), p + 1));
    }
    let (values, q) = match parse_dict_entries(ts, p) {
        Ok(v) => v,
        Err(e) => {
            return Err(e);
        },
    };
    Ok((Expr::DictLiteral(values), q))
}

#[verifier::spinoff_prover]
pub(crate) fn parse_dict_entries(ts: &Vec<Token>, p: usize) -> (r: Result<(Vec<(String, Expr)>, usize), String>)
    requires
        wf_tokens(ts@),
        p < ts.len(),
    ensures
        agrees_entries(r, spec_dict_entries(tokens_view(ts@), p as int, Seq::empty()), p as int, ts.len() as int),
    decreases remaining(tokens_view(ts@), p as int), 19nat,
{
    proof { reveal_with_fuel(spec_dict_entries, 1); }
    let ghost tv = tokens_view(ts@);
    let mut values: Vec<(String, Expr)> = Vec::new();
    let mut q = p;
    assert(entries_view(values@) =~= Seq::<(Seq<char>, ExprV)>::empty());
    loop
        invariant
            wf_tokens(ts@),
            tv == tokens_view(ts@),
            p <= q < ts.len(),
            spec_dict_entries(tv, p as int, Seq::empty()) == shift(
                spec_dict_entries(tv, q as int, entries_view(values@)),
                (q - p) as nat,
            ),
        decreases remaining(tv, q as int),
    {
        proof { reveal_with_fuel(spec_dict_entries, 1); }
        let key = match consume_string(ts, q, "Expected dictionary string key.") {
            Ok(v) => v,
            Err(e) => {
                return Err(e);
            },
        };
        if let Err(e) = consume(ts, q + 1, &TokenKind::Colon, "Expected ':' after dictionary key.") {
            return Err(e);
        }
        let (value, end) = match parse_expr(ts, q + 2) {
            Ok(v) => v,
            Err(e) => {
                return Err(e);
            },
        };
        let ghost before = values@;
        let ghost entry = (key, value);
        values.push((key, value));
        proof {
            lemma_entries_view_push(before, entry);
            assert(before.push(entry) =~= values@);
        }
        if check(ts, end, &TokenKind::Comma) && !check(ts, end + 1, &TokenKind::RBrace) {
            proof {
                lemma_shift_shift(spec_dict_entries(tv, end + 1, entries_view(values@)), (end + 1 - q) as nat, (q - p) as nat);
            }
            q = end + 1;
            continue;
        }
        let close = if check(ts, end, &TokenKind::Comma) { end + 1 } else { end };
        if let Err(e) = consume(ts, close, &TokenKind::RBrace, "Expected '}' after dictionary.") {
            return Err(e);
        }
        return Ok((values, close + 1));
    }
}

#[verifier::spinoff_prover]
pub(crate) fn parse_args_inside_parens(ts: &Vec<Token>, p: usize) -> (r: Result<(Vec<Expr>, usize), String>)
    requires
        wf_tokens(ts@),
        p < ts.len(),
    ensures
        agrees_exprs(r, spec_args(tokens_view(ts@), p as int, Seq::empty()), p as int, ts.len() as int),
    decreases remaining(tokens_view(ts@), p as int), 19nat,
{
    proof { reveal_with_fuel(spec_args, 1); }
    let ghost tv = tokens_view(ts@);
    let mut args: Vec<Expr> = Vec::new();
    assert(exprs_view(args@) =~= Seq::<ExprV>::empty());
    if check(ts, p, &TokenKind::RParen) {
        return Ok((args, p + 1));
    }
    let mut q = p;
    loop
        invariant
            wf_tokens(ts@),
            tv == tokens_view(ts@),
            p <= q < ts.len(),
            q == p ==> args@.len() == 0 && !checks(tv, p as int, TokenKindV::RParen),
            q > p ==> args@.len() > 0,
            spec_args(tv, p as int, Seq::empty()) == shift(
                spec_args(tv, q as int, exprs_view(args@)),
                (q - p) as nat,
            ),
        decreases remaining(tv, q as int),
    {
        proof { reveal_with_fuel(spec_args, 1); }
        let (value, end) = match parse_expr(ts, q) {
            Ok(v) => v,
            Err(e) => {
                return Err(e);
            },
        };
        let ghost before = args@;
        args.push(value);
        proof {
            lemma_exprs_view_push(before, value);
            assert(before.push(value) =~= args@);
        }
        if check(ts, end, &TokenKind::Comma) && !check(ts, end + 1, &TokenKind::RParen) {
            proof {
                lemma_shift_shift(spec_args(tv, end + 1, exprs_view(args@)), (end + 1 - q) as nat, (q - p) as nat);
            }
            q = end + 1;
            continue;
        }
        let close = if check(ts, end, &TokenKind::Comma) { end + 1 } else { end };
        if let Err(e) = consume(ts, close, &TokenKind::RParen, "Expected ')' after arguments.") {
            return Err(e);
        }
        return Ok((args, close + 1));
    }
}

}
