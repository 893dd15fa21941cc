//! Parsing statements and blocks.
use vstd::prelude::*;
use crate::ast::{
    Assignment, ForEachStmt, ForStmt, FunctionCall, IfStmt, MacroCall, ReturnStmt, Stmt, StmtV,
    VarDecl, VarDeclV, WhileStmt, lemma_stmts_view_push, stmts_view,
};
use crate::parse_expr::{parse_args_inside_parens, parse_expr};
use crate::parse_spec::{
    Parsed, lemma_shift_shift, lemma_stmt_advances, remaining, shift, spec_block,
    spec_block_items, spec_for, spec_for_classic_rest, spec_for_each_rest, spec_if, spec_stmt,
    spec_var_decl, spec_while,
};
use crate::parse_tokens::{
    check, check_type, consume, consume_ident, consume_type, error_here, ident_here, is_at_end,
    wf_tokens,
};
use crate::token::{Token, TokenKind, tokens_view};

verus! {

broadcast use crate::ast::group_ast_views;

pub open spec fn agrees_stmt(r: Result<(Stmt, usize), String>, s: Parsed<StmtV>, p: int, len: int) -> bool {
    match r {
        Ok((e, q)) => p <= q < len && s == Ok::<(StmtV, nat), Seq<char>>((e@, (q - p) as nat)),
        Err(m) => s == Err::<(StmtV, nat), Seq<char>>(m@),
    }
}

pub open spec fn agrees_stmts(r: Result<(Vec<Stmt>, usize), String>, s: Parsed<Seq<StmtV>>, p: int, len: int) -> bool {
    match r {
        Ok((e, q)) => p <= q < len && s == Ok::<(Seq<StmtV>, nat), Seq<char>>((stmts_view(e@), (q - p) as nat)),
        Err(m) => s == Err::<(Seq<StmtV>, nat), Seq<char>>(m@),
    }
}

pub open spec fn agrees_decl(r: Result<(VarDecl, usize), String>, s: Parsed<VarDeclV>, p: int, len: int) -> bool {
    match r {
        Ok((e, q)) => p <= q < len && s == Ok::<(VarDeclV, nat), Seq<char>>((e@, (q - p) as nat)),
        Err(m) => s == Err::<(VarDeclV, nat), Seq<char>>(m@),
    }
}

#[verifier::spinoff_prover]
pub(crate) fn parse_stmt(ts: &Vec<Token>, p: usize) -> (r: Result<(Stmt, usize), String>)
    requires
        wf_tokens(ts@),
        p < ts.len(),
    ensures
        agrees_stmt(r, spec_stmt(tokens_view(ts@), p as int), p as int, ts.len() as int),
    decreases remaining(tokens_view(ts@), p as int), 3nat,
{
    proof { reveal_with_fuel(spec_stmt, 1); }
    if check_type(ts, p) {
        let (decl, q) = match parse_var_decl(ts, p) {
            Ok(v) => v,
            Err(e) => {
                return Err(e);
            },
        };
        return Ok((Stmt::VarDecl(decl), q));
    }
    if check(ts, p, &TokenKind::If) {
        return parse_if(ts, p + 1);
    }
    if check(ts, p, &TokenKind::While) {
        return parse_while(ts, p + 1);
    }
    if check(ts, p, &TokenKind::For) {
        return parse_for_stmt(ts, p + 1);
    }
    if check(ts, p, &TokenKind::Break) {
        if let Err(e) = consume(ts, p + 1, &TokenKind::Semicolon, "Expected ';' after break.") {
            return Err(e);
        }
        return Ok((Stmt::Break, p + 2));
    }
    if check(ts, p, &TokenKind::Continue) {
        if let Err(e) = consume(ts, p + 1, &TokenKind::Semicolon, "Expected ';' after continue.") {
            return Err(e);
        }
        return Ok((Stmt::Continue, p + 2));
    }
    if check(ts, p, &TokenKind::Return) {
        let (value, q) = match parse_expr(ts, p + 1) {
            Ok(v) => v,
            Err(e) => {
                return Err(e);
            },
        };
        if let Err(e) = consume(ts, q, &TokenKind::Semicolon, "Expected ';' after return value.") {
            return Err(e);
        }
        return Ok((Stmt::Return(ReturnStmt { value }), q + 1));
    }
    if let Some(name) = ident_here(ts, p) {
        let q = p + 1;
        if check(ts, q, &TokenKind::Bang) {
            if let Err(e) = consume(ts, q + 1, &TokenKind::LParen, "Expected '(' after call name.") {
                return Err(e);
            }
            let (args, end) = match parse_args_inside_parens(ts, q + 2) {
                Ok(v) => v,
                Err(e) => {
                    return Err(e);
                },
            };
            if let Err(e) = consume(ts, end, &TokenKind::Semicolon, "Expected ';' after macro call.") {
                return Err(e);
            }
            return Ok((Stmt::MacroCall(MacroCall { name, args }), end + 1));
        }
        if check(ts, q, &TokenKind::LParen) {
            let (args, end) = match parse_args_inside_parens(ts, q + 1) {
                Ok(v) => v,
                Err(e) => {
                    return Err(e);
                },
            };
            if let Err(e) = consume(ts, end, &TokenKind::Semicolon, "Expected ';' after function call.") {
                return Err(e);
            }
            return Ok((Stmt::FunctionCall(FunctionCall { name, args }), end + 1));
        }
        if check(ts, q, &TokenKind::Equal) {
            let (value, end) = match parse_expr(ts, q + 1) {
                Ok(v) => v,
                Err(e) => {
                    return Err(e);
                },
            };
            if let Err(e) = consume(ts, end, &TokenKind::Semicolon, "Expected ';' after assignment.") {
                return Err(e);
            }
            return Ok((Stmt::Assignment(Assignment { name, value }), end + 1));
        }
        return Err(error_here(ts, q, "Expected macro call, function call, or assignment."));
    }
    Err(error_here(ts, p, "Expected statement."))
}

#[verifier::spinoff_prover]
pub(crate) fn parse_var_decl(ts: &Vec<Token>, p: usize) -> (r: Result<(VarDecl, usize), String>)
    requires
        wf_tokens(ts@),
        p < ts.len(),
    ensures
        agrees_decl(r, spec_var_decl(tokens_view(ts@), p as int), p as int, ts.len() as int),
        r matches Ok((_, q)) ==> q > p,
{
    proof { reveal_with_fuel(spec_var_decl, 1); }
    let ty = match consume_type(ts, p, "Expected variable type.") {
        Ok(v) => v,
        Err(e) => {
            return Err(e);
        },
    };
    let name = match consume_ident(ts, p + 1, "Expected variable name.") {
        Ok(v) => v,
        Err(e) => {
            return Err(e);
        },
    };
    if let Err(e) = consume(ts, p + 2, &TokenKind::Equal, "Expected '=' after variable name.") {
        return Err(e);
    }
    let (value, q) = match parse_expr(ts, p + 3) {
        Ok(v) => v,
        Err(e) => {
            return Err(e);
        },
    };
    if let Err(e) = consume(ts, q, &TokenKind::Semicolon, "Expected ';' after variable declaration.") {
        return Err(e);
    }
    Ok((VarDecl { ty, name, value }, q + 1))
}

#[verifier::spinoff_prover]
pub(crate) fn parse_if(ts: &Vec<Token>, p: usize) -> (r: Result<(Stmt, usize), String>)
    requires
        wf_tokens(ts@),
        p < ts.len(),
    ensures
        agrees_stmt(r, spec_if(tokens_view(ts@), p as int), p as int, ts.len() as int),
    decreases remaining(tokens_view(ts@), p as int), 2nat,
{
    proof { reveal_with_fuel(spec_if, 1); }
    let (condition, q) = match parse_expr(ts, p) {
        Ok(v) => v,
        Err(e) => {
            return Err(e);
        },
    };
    let (then_body, r) = match parse_block(ts, q) {
        Ok(v) => v,
        Err(e) => {
            return Err(e);
        },
    };
    if check(ts, r, &TokenKind::Else) {
        let (else_body, end) = match parse_block(ts, r + 1) {
            Ok(v) => v,
            Err(e) => {
                return Err(e);
            },
        };
        return Ok((Stmt::If(IfStmt { condition, then_body, else_body: Some(else_body) }), end));
    }
    Ok((Stmt::If(IfStmt { condition, then_body, else_body: None }), r))
}

#[verifier::spinoff_prover]
pub(crate) fn parse_while(ts: &Vec<Token>, p: usize) -> (r: Result<(Stmt, usize), String>)
    requires
        wf_tokens(ts@),
        p < ts.len(),
    ensures
        agrees_stmt(r, spec_while(tokens_view(ts@), p as int), p as int, ts.len() as int),
    decreases remaining(tokens_view(ts@), p as int), 2nat,
{
    proof { reveal_with_fuel(spec_while, 1); }
    let (condition, q) = match parse_expr(ts, p) {
        Ok(x) => x,
        Err(e) => {
            return Err(e);
        },
    };
    let (body, r) = match parse_block(ts, q) {
        Ok(x) => x,
        Err(e) => {
            return Err(e);
        },
    };
    Ok((Stmt::While(WhileStmt { condition, body }), r))
}

#[verifier::spinoff_prover]
pub(crate) fn parse_for_stmt(ts: &Vec<Token>, p: usize) -> (r: Result<(Stmt, usize), String>)
    requires
        wf_tokens(ts@),
        p < ts.len(),
    ensures
        agrees_stmt(r, spec_for(tokens_view(ts@), p as int), p as int, ts.len() as int),
    decreases remaining(tokens_view(ts@), p as int), 2nat,
{
    proof { reveal_with_fuel(spec_for, 1); }
    proof { reveal_with_fuel(spec_for_each_rest, 1); }
    proof { reveal_with_fuel(spec_for_classic_rest, 1); }
    if let Err(e) = consume(ts, p, &TokenKind::LParen, "Expected '(' after for.") {
        return Err(e);
    }
    let item_ty = match consume_type(ts, p + 1, "Expected for-loop variable type.") {
        Ok(v) => v,
        Err(e) => {
            return Err(e);
        },
    };
    let item_name = match consume_ident(ts, p + 2, "Expected for-loop variable name.") {
        Ok(v) => v,
        Err(e) => {
            return Err(e);
        },
    };
    if check(ts, p + 3, &TokenKind::In) {
        let (iterable, q) = match parse_expr(ts, p + 4) {
            Ok(v) => v,
            Err(e) => {
                return Err(e);
            },
        };
        if let Err(e) = consume(ts, q, &TokenKind::RParen, "Expected ')' after for-each iterable.") {
            return Err(e);
        }
        let (body, end) = match parse_block(ts, q + 1) {
            Ok(v) => v,
            Err(e) => {
                return Err(e);
            },
        };
        return Ok((Stmt::ForEach(ForEachStmt { item_ty, item_name, iterable, body }), end));
    }
    if let Err(e) = consume(ts, p + 3, &TokenKind::Equal, "Expected '=' in for-loop initializer.") {
        return Err(e);
    }
    let (init_value, q1) = match parse_expr(ts, p + 4) {
        Ok(v) => v,
        Err(e) => {
            return Err(e);
        },
    };
    let initializer = VarDecl { ty: item_ty, name: item_name, value: init_value };
    if let Err(e) = consume(ts, q1, &TokenKind::Semicolon, "Expected ';' after for-loop initializer.") {
        return Err(e);
    }
    let (condition, q2) = match parse_expr(ts, q1 + 1) {
        Ok(v) => v,
        Err(e) => {
            return Err(e);
        },
    };
    if let Err(e) = consume(ts, q2, &TokenKind::Semicolon, "Expected ';' after for-loop condition.") {
        return Err(e);
    }
    let update_name = match consume_ident(ts, q2 + 1, "Expected update variable name.") {
        Ok(v) => v,
        Err(e) => {
            return Err(e);
        },
    };
    if let Err(e) = consume(ts, q2 + 2, &TokenKind::Equal, "Expected '=' in for-loop update.") {
        return Err(e);
    }
    let (update_value, q3) = match parse_expr(ts, q2 + 3) {
        Ok(v) => v,
        Err(e) => {
            return Err(e);
        },
    };
    let update = Assignment { name: update_name, value: update_value };
    if let Err(e) = consume(ts, q3, &TokenKind::RParen, "Expected ')' after for-loop update.") {
        return Err(e);
    }
    let (body, end) = match parse_block(ts, q3 + 1) {
        Ok(v) => v,
        Err(e) => {
            return Err(e);
        },
    };
    Ok((Stmt::For(ForStmt { initializer, condition, update, body }), end))
}

#[verifier::spinoff_prover]
pub(crate) fn parse_block(ts: &Vec<Token>, p: usize) -> (r: Result<(Vec<Stmt>, usize), String>)
    requires
        wf_tokens(ts@),
        p < ts.len(),
    ensures
        agrees_stmts(r, spec_block(tokens_view(ts@), p as int), p as int, ts.len() as int),
    decreases remaining(tokens_view(ts@), p as int), 0nat,
{
    proof { reveal_with_fuel(spec_block, 1); }
    proof { reveal_with_fuel(spec_block_items, 1); }
    let ghost tv = tokens_view(ts@);
    if let Err(e) = consume(ts, p, &TokenKind::LBrace, "Expected '{' before block.") {
        return Err(e);
    }
    let mut body: Vec<Stmt> = Vec::new();
    let mut q = p + 1;
    assert(stmts_view(body@) =~= Seq::<StmtV>::empty());
    while !check(ts, q, &TokenKind::RBrace) && !is_at_end(ts, q)
        invariant
            wf_tokens(ts@),
            tv == tokens_view(ts@),
            p < q < ts.len(),
            spec_block(tv, p as int) == shift(
                spec_block_items(tv, q as int, stmts_view(body@)),
                (q - p) as nat,
            ),
        decreases remaining(tv, q as int),
    {
        proof { reveal_with_fuel(spec_block, 1); }
        proof { reveal_with_fuel(spec_block_items, 1); }
        let (stmt, next) = match parse_stmt(ts, q) {
            Ok(v) => v,
            Err(e) => {
                return Err(e);
            },
        };
        let ghost before = stmts_view(body@);
        proof {
            lemma_stmt_advances(tv, q as int);
        }
        body.push(stmt);
        proof {
            lemma_stmts_view_push(body@.drop_last(), stmt);
            assert(body@.drop_last().push(stmt) =~= body@);
            assert(stmts_view(body@) == before.push(stmt@));
            assert(spec_block_items(tv, q as int, before) == shift(
                spec_block_items(tv, next as int, before.push(stmt@)),
                (next - q) as nat,
            ));
            lemma_shift_shift(spec_block_items(tv, next as int, stmts_view(body@)), (next - q) as nat, (q - p) as nat);
        }
        q = next;
    }
    if let Err(e) = consume(ts, q, &TokenKind::RBrace, "Expected '}' after block.") {
        return Err(e);
    }
    Ok((body, q + 1))
}

} // verus!
