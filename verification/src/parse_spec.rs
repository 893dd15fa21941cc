//! What parsing gives: a recursive-descent grammar over token sequences.
use vstd::prelude::*;
use crate::ast::{AssignmentV, BinaryOp, ExprV, FunctionV, ItemV, ParamV, ProgramV, StmtV, UnaryOp, VarDeclV};
use crate::lexer::located;
use crate::text::{bool_text, int_decimal};
use crate::token::{TokenKindV, TokenV, kind_tag};

verus! {


/// A parse outcome: the value and how many tokens it took, or an error message.
pub type Parsed<T> = Result<(T, nat), Seq<char>>;

/// The kind of the token at `p`; past the end the input counts as ended.
pub open spec fn kind_at(ts: Seq<TokenV>, p: int) -> TokenKindV {
    if 0 <= p < ts.len() {
        ts[p].kind
    } else {
        TokenKindV::Eof
    }
}

pub open spec fn at_end(ts: Seq<TokenV>, p: int) -> bool {
    kind_at(ts, p) is Eof
}

/// Whether the token at `p` is of the same variant as `k`, payloads aside.
pub open spec fn checks(ts: Seq<TokenV>, p: int, k: TokenKindV) -> bool {
    kind_tag(kind_at(ts, p)) == kind_tag(k)
}

/// How many tokens remain from `p`.
pub open spec fn remaining(ts: Seq<TokenV>, p: int) -> nat {
    if p < ts.len() {
        (ts.len() - p) as nat
    } else {
        0
    }
}

/// An error located at the token at `p`.
pub open spec fn error_at(ts: Seq<TokenV>, p: int, message: Seq<char>) -> Seq<char> {
    if 0 <= p < ts.len() {
        located(ts[p].line, ts[p].column, message)
    } else {
        located(0, 0, message)
    }
}

/// Adds `k` consumed tokens to a parse outcome.
pub open spec fn shift<T>(r: Parsed<T>, k: nat) -> Parsed<T> {
    match r {
        Ok((v, n)) => Ok((v, n + k)),
        Err(e) => Err(e),
    }
}

pub proof fn lemma_shift_shift<T>(r: Parsed<T>, a: nat, b: nat)
    ensures
        shift(shift(r, a), b) == shift(r, a + b),
{
}

/// Requires a token of the variant of `k` at `p`.
pub open spec fn expect(ts: Seq<TokenV>, p: int, k: TokenKindV, message: Seq<char>) -> Result<
    (),
    Seq<char>,
> {
    if checks(ts, p, k) {
        Ok(())
    } else {
        Err(error_at(ts, p, message))
    }
}

pub open spec fn ident_at(ts: Seq<TokenV>, p: int, message: Seq<char>) -> Result<Seq<char>, Seq<char>> {
    match kind_at(ts, p) {
        TokenKindV::Ident(name) => Ok(name),
        _ => Err(error_at(ts, p, message)),
    }
}

pub open spec fn string_at(ts: Seq<TokenV>, p: int, message: Seq<char>) -> Result<Seq<char>, Seq<char>> {
    match kind_at(ts, p) {
        TokenKindV::Str(value) => Ok(value),
        _ => Err(error_at(ts, p, message)),
    }
}

pub open spec fn type_at(ts: Seq<TokenV>, p: int, message: Seq<char>) -> Result<Seq<char>, Seq<char>> {
    match kind_at(ts, p) {
        TokenKindV::Type(value) => Ok(value),
        _ => Err(error_at(ts, p, message)),
    }
}

pub open spec fn return_type_at(ts: Seq<TokenV>, p: int, message: Seq<char>) -> Result<
    Seq<char>,
    Seq<char>,
> {
    match kind_at(ts, p) {
        TokenKindV::Type(value) => Ok(value),
        TokenKindV::Ident(value) => Ok(value),
        _ => Err(error_at(ts, p, message)),
    }
}

/// How a token is named in the "found ..." part of a parse error.
pub open spec fn describe(k: TokenKindV) -> Seq<char> {
    match k {
        TokenKindV::Eof => "EOF"@,
        TokenKindV::Ident(v) => "identifier '"@ + v + "'"@,
        TokenKindV::Int(v) => "integer '"@ + int_decimal(v as int) + "'"@,
        TokenKindV::Str(v) => "string \""@ + v + "\""@,
        TokenKindV::Bool(v) => "boolean '"@ + bool_text(v) + "'"@,
        TokenKindV::Type(v) => "type '"@ + v + "'"@,
        TokenKindV::Pub => "Pub"@,
        TokenKindV::Fcn => "Fcn"@,
        TokenKindV::Return => "Return"@,
        TokenKindV::If => "If"@,
        TokenKindV::Else => "Else"@,
        TokenKindV::While => "While"@,
        TokenKindV::For => "For"@,
        TokenKindV::In => "In"@,
        TokenKindV::Break => "Break"@,
        TokenKindV::Continue => "Continue"@,
        TokenKindV::Use => "Use"@,
        TokenKindV::Plus => "Plus"@,
        TokenKindV::Minus => "Minus"@,
        TokenKindV::Star => "Star"@,
        TokenKindV::Slash => "Slash"@,
        TokenKindV::Equal => "Equal"@,
        TokenKindV::EqualEqual => "EqualEqual"@,
        TokenKindV::Bang => "Bang"@,
        TokenKindV::BangEqual => "BangEqual"@,
        TokenKindV::Less => "Less"@,
        TokenKindV::Greater => "Greater"@,
        TokenKindV::LessEqual => "LessEqual"@,
        TokenKindV::GreaterEqual => "GreaterEqual"@,
        TokenKindV::AndAnd => "AndAnd"@,
        TokenKindV::OrOr => "OrOr"@,
        TokenKindV::Arrow => "Arrow"@,
        TokenKindV::LParen => "LParen"@,
        TokenKindV::RParen => "RParen"@,
        TokenKindV::LBrace => "LBrace"@,
        TokenKindV::RBrace => "RBrace"@,
        TokenKindV::LBracket => "LBracket"@,
        TokenKindV::RBracket => "RBracket"@,
        TokenKindV::Comma => "Comma"@,
        TokenKindV::Colon => "Colon"@,
        TokenKindV::Semicolon => "Semicolon"@,
    }
}

/// The binary operator of precedence level `level` (1 = `* /` up to 6 = `||`) at `p`, if any.
pub open spec fn op_at(ts: Seq<TokenV>, p: int, level: nat) -> Option<BinaryOp> {
    let k = kind_at(ts, p);
    if level == 6 {
        if k is OrOr { Some(BinaryOp::Or) } else { None }
    } else if level == 5 {
        if k is AndAnd { Some(BinaryOp::And) } else { None }
    } else if level == 4 {
        if k is EqualEqual {
            Some(BinaryOp::Eq)
        } else if k is BangEqual {
            Some(BinaryOp::NotEq)
        } else {
            None
        }
    } else if level == 3 {
        if k is Less {
            Some(BinaryOp::Less)
        } else if k is Greater {
            Some(BinaryOp::Greater)
        } else if k is LessEqual {
            Some(BinaryOp::LessEq)
        } else if k is GreaterEqual {
            Some(BinaryOp::GreaterEq)
        } else {
            None
        }
    } else if level == 2 {
        if k is Plus {
            Some(BinaryOp::Add)
        } else if k is Minus {
            Some(BinaryOp::Sub)
        } else {
            None
        }
    } else if level == 1 {
        if k is Star {
            Some(BinaryOp::Mul)
        } else if k is Slash {
            Some(BinaryOp::Div)
        } else {
            None
        }
    } else {
        None
    }
}

/// An expression.
#[verifier::opaque]
pub open spec fn spec_expr(ts: Seq<TokenV>, p: int) -> Parsed<ExprV>
    decreases remaining(ts, p), 18nat,
{
    spec_binary(ts, p, 6)
}

/// An operand of an operator of precedence `level`.
#[verifier::opaque]
pub open spec fn spec_operand(ts: Seq<TokenV>, p: int, level: nat) -> Parsed<ExprV>
    decreases remaining(ts, p), 4 + 2 * level,
{
    if level == 0 || level > 6 {
        spec_unary(ts, p)
    } else {
        spec_binary(ts, p, (level - 1) as nat)
    }
}

/// A left-associative chain of operators of precedence `level`.
#[verifier::opaque]
pub open spec fn spec_binary(ts: Seq<TokenV>, p: int, level: nat) -> Parsed<ExprV>
    decreases remaining(ts, p), 5 + 2 * level,
{
    match spec_operand(ts, p, level) {
        Err(e) => Err(e),
        Ok((left, n)) => shift(binary_tail(ts, left, p + n, level), n),
    }
}

/// The rest of an operator chain whose left part is `left`.
#[verifier::opaque]
pub open spec fn binary_tail(ts: Seq<TokenV>, left: ExprV, p: int, level: nat) -> Parsed<ExprV>
    decreases remaining(ts, p), 0nat,
{
    match op_at(ts, p, level) {
        None => Ok((left, 0)),
        Some(op) => match spec_operand(ts, p + 1, level) {
            Err(e) => Err(e),
            Ok((right, n)) => shift(
                binary_tail(
                    ts,
                    ExprV::Binary { left: Box::new(left), op, right: Box::new(right) },
                    p + 1 + n,
                    level,
                ),
                1 + n,
            ),
        },
    }
}

#[verifier::opaque]
pub open spec fn spec_unary(ts: Seq<TokenV>, p: int) -> Parsed<ExprV>
    decreases remaining(ts, p), 3nat,
{
    if kind_at(ts, p) is Bang {
        match spec_unary(ts, p + 1) {
            Err(e) => Err(e),
            Ok((e, n)) => Ok((ExprV::Unary { op: UnaryOp::Not, expr: Box::new(e) }, n + 1)),
        }
    } else if kind_at(ts, p) is Minus {
        match spec_unary(ts, p + 1) {
            Err(e) => Err(e),
            Ok((e, n)) => Ok((ExprV::Unary { op: UnaryOp::Neg, expr: Box::new(e) }, n + 1)),
        }
    } else {
        spec_postfix(ts, p)
    }
}

#[verifier::opaque]
pub open spec fn spec_postfix(ts: Seq<TokenV>, p: int) -> Parsed<ExprV>
    decreases remaining(ts, p), 2nat,
{
    match spec_primary(ts, p) {
        Err(e) => Err(e),
        Ok((e, n)) => shift(postfix_tail(ts, e, p + n), n),
    }
}

/// Calls and indexing that follow an expression.
#[verifier::opaque]
pub open spec fn postfix_tail(ts: Seq<TokenV>, e: ExprV, p: int) -> Parsed<ExprV>
    decreases remaining(ts, p), 0nat,
{
    if kind_at(ts, p) is LParen {
        match e {
            ExprV::Ident(name) => match spec_args(ts, p + 1, Seq::empty()) {
                Err(m) => Err(m),
                Ok((args, n)) => shift(
                    postfix_tail(ts, ExprV::Call { name, args }, p + 1 + n),
                    1 + n,
                ),
            },
            _ => Err(error_at(ts, p + 1, "Only named functions can be called."@)),
        }
    } else if kind_at(ts, p) is LBracket {
        match spec_expr(ts, p + 1) {
            Err(m) => Err(m),
            Ok((index, n)) => match expect(ts, p + 1 + n, TokenKindV::RBracket, "Expected ']' after index."@) {
                Err(m) => Err(m),
                Ok(_) => shift(
                    postfix_tail(
                        ts,
                        ExprV::Index { target: Box::new(e), index: Box::new(index) },
                        p + 2 + n,
                    ),
                    2 + n,
                ),
            },
        }
    } else {
        Ok((e, 0))
    }
}

#[verifier::opaque]
pub open spec fn spec_primary(ts: Seq<TokenV>, p: int) -> Parsed<ExprV>
    decreases remaining(ts, p), 1nat,
{
    match kind_at(ts, p) {
        TokenKindV::Int(v) => Ok((ExprV::Int(v), 1)),
        TokenKindV::Str(v) => Ok((ExprV::Str(v), 1)),
        TokenKindV::Bool(v) => Ok((ExprV::Bool(v), 1)),
        TokenKindV::Ident(v) => Ok((ExprV::Ident(v), 1)),
        TokenKindV::LParen => match spec_expr(ts, p + 1) {
            Err(m) => Err(m),
            Ok((e, n)) => match expect(ts, p + 1 + n, TokenKindV::RParen, "Expected ')' after expression."@) {
                Err(m) => Err(m),
                Ok(_) => Ok((e, n + 2)),
            },
        },
        TokenKindV::LBracket => {
            if checks(ts, p + 1, TokenKindV::RBracket) {
                Ok((ExprV::ArrayLiteral(Seq::empty()), 2))
            } else {
                match spec_array_items(ts, p + 1, Seq::empty()) {
                    Err(m) => Err(m),
                    Ok((items, n)) => Ok((ExprV::ArrayLiteral(items), n + 1)),
                }
            }
        },
        TokenKindV::LBrace => {
            if checks(ts, p + 1, TokenKindV::RBrace) {
                Ok((ExprV::DictLiteral(Seq::empty()), 2))
            } else {
                match spec_dict_entries(ts, p + 1, Seq::empty()) {
                    Err(m) => Err(m),
                    Ok((entries, n)) => Ok((ExprV::DictLiteral(entries), n + 1)),
                }
            }
        },
        k => Err(error_at(ts, p, "Expected expression, found "@ + describe(k) + "."@)),
    }
}

/// The elements of a non-empty array literal, through the closing bracket, after `acc`.
#[verifier::opaque]
pub open spec fn spec_array_items(ts: Seq<TokenV>, p: int, acc: Seq<ExprV>) -> Parsed<Seq<ExprV>>
    decreases remaining(ts, p), 19nat,
{
    match spec_expr(ts, p) {
        Err(m) => Err(m),
        Ok((e, n)) => {
            let q = p + n;
            if checks(ts, q, TokenKindV::Comma) && !checks(ts, q + 1, TokenKindV::RBracket) {
                shift(spec_array_items(ts, q + 1, acc.push(e)), n + 1)
            } else {
                let r = if checks(ts, q, TokenKindV::Comma) { q + 1 } else { q };
                match expect(ts, r, TokenKindV::RBracket, "Expected ']' after array."@) {
                    Err(m) => Err(m),
                    Ok(_) => Ok((acc.push(e), (r + 1 - p) as nat)),
                }
            }
        },
    }
}

/// The entries of a non-empty dictionary literal, through the closing brace, after `acc`.
#[verifier::opaque]
pub open spec fn spec_dict_entries(ts: Seq<TokenV>, p: int, acc: Seq<(Seq<char>, ExprV)>) -> Parsed<
    Seq<(Seq<char>, ExprV)>,
>
    decreases remaining(ts, p), 19nat,
{
    match string_at(ts, p, "Expected dictionary string key."@) {
        Err(m) => Err(m),
        Ok(key) => match expect(ts, p + 1, TokenKindV::Colon, "Expected ':' after dictionary key."@) {
            Err(m) => Err(m),
            Ok(_) => match spec_expr(ts, p + 2) {
                Err(m) => Err(m),
                Ok((e, n)) => {
                    let q = p + 2 + n;
                    if checks(ts, q, TokenKindV::Comma) && !checks(ts, q + 1, TokenKindV::RBrace) {
                        shift(spec_dict_entries(ts, q + 1, acc.push((key, e))), n + 3)
                    } else {
                        let r = if checks(ts, q, TokenKindV::Comma) { q + 1 } else { q };
                        match expect(ts, r, TokenKindV::RBrace, "Expected '}' after dictionary."@) {
                            Err(m) => Err(m),
                            Ok(_) => Ok((acc.push((key, e)), (r + 1 - p) as nat)),
                        }
                    }
                },
            },
        },
    }
}

/// Call arguments after the opening parenthesis, through the closing one, after `acc`.
#[verifier::opaque]
pub open spec fn spec_args(ts: Seq<TokenV>, p: int, acc: Seq<ExprV>) -> Parsed<Seq<ExprV>>
    decreases remaining(ts, p), 19nat,
{
    if acc.len() == 0 && checks(ts, p, TokenKindV::RParen) {
        Ok((acc, 1))
    } else {
        match spec_expr(ts, p) {
            Err(m) => Err(m),
            Ok((e, n)) => {
                let q = p + n;
                if checks(ts, q, TokenKindV::Comma) && !checks(ts, q + 1, TokenKindV::RParen) {
                    shift(spec_args(ts, q + 1, acc.push(e)), n + 1)
                } else {
                    let r = if checks(ts, q, TokenKindV::Comma) { q + 1 } else { q };
                    match expect(ts, r, TokenKindV::RParen, "Expected ')' after arguments."@) {
                        Err(m) => Err(m),
                        Ok(_) => Ok((acc.push(e), (r + 1 - p) as nat)),
                    }
                }
            },
        }
    }
}

#[verifier::opaque]
pub open spec fn spec_var_decl(ts: Seq<TokenV>, p: int) -> Parsed<VarDeclV> {
    match type_at(ts, p, "Expected variable type."@) {
        Err(m) => Err(m),
        Ok(ty) => match ident_at(ts, p + 1, "Expected variable name."@) {
            Err(m) => Err(m),
            Ok(name) => match expect(ts, p + 2, TokenKindV::Equal, "Expected '=' after variable name."@) {
                Err(m) => Err(m),
                Ok(_) => match spec_expr(ts, p + 3) {
                    Err(m) => Err(m),
                    Ok((value, n)) => match expect(
                        ts,
                        p + 3 + n,
                        TokenKindV::Semicolon,
                        "Expected ';' after variable declaration."@,
                    ) {
                        Err(m) => Err(m),
                        Ok(_) => Ok((VarDeclV { ty, name, value }, n + 4)),
                    },
                },
            },
        },
    }
}

/// A statement.
#[verifier::opaque]
pub open spec fn spec_stmt(ts: Seq<TokenV>, p: int) -> Parsed<StmtV>
    decreases remaining(ts, p), 3nat,
{
    let k = kind_at(ts, p);
    if k is Type {
        match spec_var_decl(ts, p) {
            Err(m) => Err(m),
            Ok((d, n)) => Ok((StmtV::VarDecl(d), n)),
        }
    } else if k is If {
        shift(spec_if(ts, p + 1), 1)
    } else if k is While {
        shift(spec_while(ts, p + 1), 1)
    } else if k is For {
        shift(spec_for(ts, p + 1), 1)
    } else if k is Break {
        match expect(ts, p + 1, TokenKindV::Semicolon, "Expected ';' after break."@) {
            Err(m) => Err(m),
            Ok(_) => Ok((StmtV::Break, 2)),
        }
    } else if k is Continue {
        match expect(ts, p + 1, TokenKindV::Semicolon, "Expected ';' after continue."@) {
            Err(m) => Err(m),
            Ok(_) => Ok((StmtV::Continue, 2)),
        }
    } else if k is Return {
        match spec_expr(ts, p + 1) {
            Err(m) => Err(m),
            Ok((value, n)) => match expect(
                ts,
                p + 1 + n,
                TokenKindV::Semicolon,
                "Expected ';' after return value."@,
            ) {
                Err(m) => Err(m),
                Ok(_) => Ok((StmtV::Return { value }, n + 2)),
            },
        }
    } else if let TokenKindV::Ident(name) = k {
        let q = p + 1;
        if kind_at(ts, q) is Bang {
            match expect(ts, q + 1, TokenKindV::LParen, "Expected '(' after call name."@) {
                Err(m) => Err(m),
                Ok(_) => match spec_args(ts, q + 2, Seq::empty()) {
                    Err(m) => Err(m),
                    Ok((args, n)) => match expect(
                        ts,
                        q + 2 + n,
                        TokenKindV::Semicolon,
                        "Expected ';' after macro call."@,
                    ) {
                        Err(m) => Err(m),
                        Ok(_) => Ok((StmtV::MacroCall { name, args }, n + 4)),
                    },
                },
            }
        } else if kind_at(ts, q) is LParen {
            match spec_args(ts, q + 1, Seq::empty()) {
                Err(m) => Err(m),
                Ok((args, n)) => match expect(
                    ts,
                    q + 1 + n,
                    TokenKindV::Semicolon,
                    "Expected ';' after function call."@,
                ) {
                    Err(m) => Err(m),
                    Ok(_) => Ok((StmtV::FunctionCall { name, args }, n + 3)),
                },
            }
        } else if kind_at(ts, q) is Equal {
            match spec_expr(ts, q + 1) {
                Err(m) => Err(m),
                Ok((value, n)) => match expect(
                    ts,
                    q + 1 + n,
                    TokenKindV::Semicolon,
                    "Expected ';' after assignment."@,
                ) {
                    Err(m) => Err(m),
                    Ok(_) => Ok((StmtV::Assignment(AssignmentV { name, value }), n + 3)),
                },
            }
        } else {
            Err(error_at(ts, q, "Expected macro call, function call, or assignment."@))
        }
    } else {
        Err(error_at(ts, p, "Expected statement."@))
    }
}

/// An `if` statement after the keyword.
#[verifier::opaque]
pub open spec fn spec_if(ts: Seq<TokenV>, p: int) -> Parsed<StmtV>
    decreases remaining(ts, p), 2nat,
{
    match spec_expr(ts, p) {
        Err(m) => Err(m),
        Ok((condition, n)) => match spec_block(ts, p + n) {
            Err(m) => Err(m),
            Ok((then_body, k)) => {
                let q = p + n + k;
                if kind_at(ts, q) is Else {
                    match spec_block(ts, q + 1) {
                        Err(m) => Err(m),
                        Ok((else_body, j)) => Ok(
                            (
                                StmtV::If { condition, then_body, else_body: Some(else_body) },
                                n + k + 1 + j,
                            ),
                        ),
                    }
                } else {
                    Ok((StmtV::If { condition, then_body, else_body: None }, n + k))
                }
            },
        },
    }
}

/// A `while` statement after the keyword.
#[verifier::opaque]
pub open spec fn spec_while(ts: Seq<TokenV>, p: int) -> Parsed<StmtV>
    decreases remaining(ts, p), 2nat,
{
    match spec_expr(ts, p) {
        Err(m) => Err(m),
        Ok((condition, n)) => match spec_block(ts, p + n) {
            Err(m) => Err(m),
            Ok((body, k)) => Ok((StmtV::While { condition, body }, n + k)),
        },
    }
}

/// A `for` statement, classic or for-each, after the keyword.
#[verifier::opaque]
pub open spec fn spec_for(ts: Seq<TokenV>, p: int) -> Parsed<StmtV>
    decreases remaining(ts, p), 2nat,
{
    match expect(ts, p, TokenKindV::LParen, "Expected '(' after for."@) {
        Err(m) => Err(m),
        Ok(_) => match type_at(ts, p + 1, "Expected for-loop variable type."@) {
            Err(m) => Err(m),
            Ok(item_ty) => match ident_at(ts, p + 2, "Expected for-loop variable name."@) {
                Err(m) => Err(m),
                Ok(item_name) => if kind_at(ts, p + 3) is In {
                    spec_for_each_rest(ts, p, item_ty, item_name)
                } else {
                    spec_for_classic_rest(ts, p, item_ty, item_name)
                },
            },
        },
    }
}

/// The part of a for-each loop after `for ( type name in`.
#[verifier::opaque]
pub open spec fn spec_for_each_rest(ts: Seq<TokenV>, p: int, item_ty: Seq<char>, item_name: Seq<char>) -> Parsed<StmtV>
    decreases remaining(ts, p), 1nat,
{
    match spec_expr(ts, p + 4) {
        Err(m) => Err(m),
        Ok((iterable, n)) => match expect(
            ts,
            p + 4 + n,
            TokenKindV::RParen,
            "Expected ')' after for-each iterable."@,
        ) {
            Err(m) => Err(m),
            Ok(_) => {
                if p < ts.len() {
                    match spec_block(ts, p + 5 + n) {
                        Err(m) => Err(m),
                        Ok((body, k)) => Ok(
                            (StmtV::ForEach { item_ty, item_name, iterable, body }, n + k + 5),
                        ),
                    }
                } else {
                    Err(Seq::empty())
                }
            },
        },
    }
}

/// The part of a classic for loop after `for ( type name`.
#[verifier::opaque]
pub open spec fn spec_for_classic_rest(ts: Seq<TokenV>, p: int, item_ty: Seq<char>, item_name: Seq<char>) -> Parsed<StmtV>
    decreases remaining(ts, p), 1nat,
{
    match expect(ts, p + 3, TokenKindV::Equal, "Expected '=' in for-loop initializer."@) {
        Err(m) => Err(m),
        Ok(_) => match spec_expr(ts, p + 4) {
            Err(m) => Err(m),
            Ok((init, n1)) => match expect(
                ts,
                p + 4 + n1,
                TokenKindV::Semicolon,
                "Expected ';' after for-loop initializer."@,
            ) {
                Err(m) => Err(m),
                Ok(_) => match spec_expr(ts, p + 5 + n1) {
                    Err(m) => Err(m),
                    Ok((condition, n2)) => {
                        let q = p + 5 + n1 + n2;
                        match expect(ts, q, TokenKindV::Semicolon, "Expected ';' after for-loop condition."@) {
                            Err(m) => Err(m),
                            Ok(_) => match ident_at(ts, q + 1, "Expected update variable name."@) {
                                Err(m) => Err(m),
                                Ok(update_name) => match expect(
                                    ts,
                                    q + 2,
                                    TokenKindV::Equal,
                                    "Expected '=' in for-loop update."@,
                                ) {
                                    Err(m) => Err(m),
                                    Ok(_) => match spec_expr(ts, q + 3) {
                                        Err(m) => Err(m),
                                        Ok((update_value, n3)) => match expect(
                                            ts,
                                            q + 3 + n3,
                                            TokenKindV::RParen,
                                            "Expected ')' after for-loop update."@,
                                        ) {
                                            Err(m) => Err(m),
                                            Ok(_) => {
                                                if p < ts.len() {
                                                    match spec_block(ts, q + 4 + n3) {
                                                        Err(m) => Err(m),
                                                        Ok((body, k)) => Ok(
                                                            (
                                                                StmtV::For {
                                                                    initializer: VarDeclV {
                                                                        ty: item_ty,
                                                                        name: item_name,
                                                                        value: init,
                                                                    },
                                                                    condition,
                                                                    update: AssignmentV {
                                                                        name: update_name,
                                                                        value: update_value,
                                                                    },
                                                                    body,
                                                                },
                                                                n1 + n2 + n3 + k + 9,
                                                            ),
                                                        ),
                                                    }
                                                } else {
                                                    Err(Seq::empty())
                                                }
                                            },
                                        },
                                    },
                                },
                            },
                        }
                    },
                },
            },
        },
    }
}

/// A braced block of statements.
#[verifier::opaque]
pub open spec fn spec_block(ts: Seq<TokenV>, p: int) -> Parsed<Seq<StmtV>>
    decreases remaining(ts, p), 0nat,
{
    match expect(ts, p, TokenKindV::LBrace, "Expected '{' before block."@) {
        Err(m) => Err(m),
        Ok(_) => shift(spec_block_items(ts, p + 1, Seq::empty()), 1),
    }
}

/// The statements of a block after `acc`, through the closing brace.
#[verifier::opaque]
pub open spec fn spec_block_items(ts: Seq<TokenV>, p: int, acc: Seq<StmtV>) -> Parsed<Seq<StmtV>>
    decreases remaining(ts, p), 4nat,
{
    if checks(ts, p, TokenKindV::RBrace) || at_end(ts, p) {
        match expect(ts, p, TokenKindV::RBrace, "Expected '}' after block."@) {
            Err(m) => Err(m),
            Ok(_) => Ok((acc, 1)),
        }
    } else {
        match spec_stmt(ts, p) {
            Err(m) => Err(m),
            Ok((s, n)) => if n > 0 {
                shift(spec_block_items(ts, p + n, acc.push(s)), n)
            } else {
                Err(Seq::empty())
            },
        }
    }
}

/// Function parameters after `acc`, up to (not including) the closing parenthesis.
#[verifier::opaque]
pub open spec fn spec_params(ts: Seq<TokenV>, p: int, acc: Seq<ParamV>) -> Parsed<Seq<ParamV>>
    decreases remaining(ts, p),
{
    match type_at(ts, p, "Expected parameter type."@) {
        Err(m) => Err(m),
        Ok(ty) => match ident_at(ts, p + 1, "Expected parameter name."@) {
            Err(m) => Err(m),
            Ok(name) => {
                let acc2 = acc.push(ParamV { ty, name });
                if checks(ts, p + 2, TokenKindV::Comma) && !checks(ts, p + 3, TokenKindV::RParen) {
                    shift(spec_params(ts, p + 3, acc2), 3)
                } else if checks(ts, p + 2, TokenKindV::Comma) {
                    Ok((acc2, 3))
                } else {
                    Ok((acc2, 2))
                }
            },
        },
    }
}

/// A function after the `fcn` keyword.
#[verifier::opaque]
pub open spec fn spec_function(ts: Seq<TokenV>, p: int, is_pub: bool) -> Parsed<FunctionV> {
    match ident_at(ts, p, "Expected function name."@) {
        Err(m) => Err(m),
        Ok(name) => match expect(ts, p + 1, TokenKindV::LParen, "Expected '(' after function name."@) {
            Err(m) => Err(m),
            Ok(_) => {
                let params: Parsed<Seq<ParamV>> = if checks(ts, p + 2, TokenKindV::RParen) {
                    Ok((Seq::empty(), 0))
                } else {
                    spec_params(ts, p + 2, Seq::empty())
                };
                match params {
                    Err(m) => Err(m),
                    Ok((params, n)) => {
                        let q = p + 2 + n;
                        match expect(ts, q, TokenKindV::RParen, "Expected ')' after parameters."@) {
                            Err(m) => Err(m),
                            Ok(_) => {
                                let ret: Result<(Option<Seq<char>>, int), Seq<char>> = if kind_at(
                                    ts,
                                    q + 1,
                                ) is Arrow {
                                    match return_type_at(ts, q + 2, "Expected return type after '->'."@) {
                                        Err(m) => Err(m),
                                        Ok(t) => Ok((Some(t), q + 3)),
                                    }
                                } else {
                                    Ok((None, q + 1))
                                };
                                match ret {
                                    Err(m) => Err(m),
                                    Ok((return_type, r)) => match spec_block(ts, r) {
                                        Err(m) => Err(m),
                                        Ok((body, k)) => Ok(
                                            (
                                                FunctionV { is_pub, name, params, return_type, body },
                                                (r + k - p) as nat,
                                            ),
                                        ),
                                    },
                                }
                            },
                        }
                    },
                }
            },
        },
    }
}

/// The items of a program from `p` on, after `acc`.
#[verifier::opaque]
pub open spec fn spec_items(ts: Seq<TokenV>, p: int, acc: Seq<ItemV>) -> Result<Seq<ItemV>, Seq<char>>
    decreases remaining(ts, p),
{
    if at_end(ts, p) {
        Ok(acc)
    } else if kind_at(ts, p) is Use {
        match string_at(ts, p + 1, "Expected string path after use."@) {
            Err(m) => Err(m),
            Ok(_) => match expect(ts, p + 2, TokenKindV::Semicolon, "Expected ';' after use import."@) {
                Err(m) => Err(m),
                Ok(_) => spec_items(ts, p + 3, acc),
            },
        }
    } else {
        let is_pub = kind_at(ts, p) is Pub;
        let q = if is_pub { p + 1 } else { p };
        if kind_at(ts, q) is Fcn {
            match spec_function(ts, q + 1, is_pub) {
                Err(m) => Err(m),
                Ok((f, n)) => spec_items(ts, q + 1 + n, acc.push(ItemV::Function(f))),
            }
        } else if is_pub {
            Err(error_at(ts, q, "Expected function after pub."@))
        } else if kind_at(ts, q) is Type {
            match spec_var_decl(ts, q) {
                Err(m) => Err(m),
                Ok((d, n)) => if n > 0 {
                    spec_items(ts, q + n, acc.push(ItemV::VarDecl(d)))
                } else {
                    Err(Seq::empty())
                },
            }
        } else {
            Err(error_at(ts, q, "Expected function or variable declaration."@))
        }
    }
}

/// What `parse_program` gives for a token sequence.
pub open spec fn spec_parse_program(ts: Seq<TokenV>) -> Result<ProgramV, Seq<char>> {
    match spec_items(ts, 0, Seq::empty()) {
        Ok(items) => Ok(ProgramV { items }),
        Err(m) => Err(m),
    }
}

/// A statement, when parsed, takes at least one token.
pub proof fn lemma_stmt_advances(ts: Seq<TokenV>, p: int)
    ensures
        spec_stmt(ts, p) matches Ok((_, n)) ==> n > 0,
{
    reveal_with_fuel(spec_stmt, 1);
    reveal_with_fuel(spec_var_decl, 1);
}


} // verus!
