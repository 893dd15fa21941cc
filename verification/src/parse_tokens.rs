//! Reading tokens: checks, expectations and error messages.
use vstd::prelude::*;
use crate::ast::BinaryOp;
use crate::lexer::located;
use crate::parse_spec::{
    at_end, checks, describe, error_at, ident_at, kind_at, op_at, return_type_at, string_at, type_at,
};
use crate::text::{owned, push_bool, push_i64, push_str, push_usize};
use crate::token::{Token, TokenKind, TokenKindV, kind_tag, tokens_view};

verus! {

/// The tokens end with the end-of-input token.
pub open spec fn wf_tokens(ts: Seq<Token>) -> bool {
    ts.len() > 0 && ts.last().kind is Eof
}

pub(crate) fn check(ts: &Vec<Token>, p: usize, expected: &TokenKind) -> (r: bool)
    requires
        wf_tokens(ts@),
        p < ts.len(),
    ensures
        r == checks(tokens_view(ts@), p as int, expected@),
        r && !(expected@ is Eof) ==> p + 1 < ts.len(),
{
    ts[p].kind.tag() == expected.tag()
}

pub(crate) fn check_type(ts: &Vec<Token>, p: usize) -> (r: bool)
    requires
        wf_tokens(ts@),
        p < ts.len(),
    ensures
        r == (kind_at(tokens_view(ts@), p as int) is Type),
        r ==> p + 1 < ts.len(),
{
    match &ts[p].kind {
        TokenKind::Type(_) => true,
        _ => false,
    }
}

pub(crate) fn is_at_end(ts: &Vec<Token>, p: usize) -> (r: bool)
    requires
        wf_tokens(ts@),
        p < ts.len(),
    ensures
        r == at_end(tokens_view(ts@), p as int),
        !r ==> p + 1 < ts.len(),
{
    match &ts[p].kind {
        TokenKind::Eof => true,
        _ => false,
    }
}

pub(crate) fn consume(ts: &Vec<Token>, p: usize, expected: &TokenKind, message: &str) -> (r: Result<(), String>)
    requires
        wf_tokens(ts@),
        p < ts.len(),
        !(expected@ is Eof),
    ensures
        match r {
            Ok(_) => checks(tokens_view(ts@), p as int, expected@) && p + 1 < ts.len(),
            Err(m) => !checks(tokens_view(ts@), p as int, expected@) && m@ == error_at(
                tokens_view(ts@),
                p as int,
                message@,
            ),
        },
{
    if check(ts, p, expected) {
        Ok(())
    } else {
        Err(error_here(ts, p, message))
    }
}

pub(crate) fn consume_ident(ts: &Vec<Token>, p: usize, message: &str) -> (r: Result<String, String>)
    requires
        wf_tokens(ts@),
        p < ts.len(),
    ensures
        match r {
            Ok(name) => ident_at(tokens_view(ts@), p as int, message@) == Ok::<Seq<char>, Seq<char>>(name@)
                && p + 1 < ts.len(),
            Err(m) => ident_at(tokens_view(ts@), p as int, message@) == Err::<Seq<char>, Seq<char>>(m@),
        },
{
    match &ts[p].kind {
        TokenKind::Ident(name) => Ok(name.clone()),
        _ => Err(error_here(ts, p, message)),
    }
}

pub(crate) fn consume_string(ts: &Vec<Token>, p: usize, message: &str) -> (r: Result<String, String>)
    requires
        wf_tokens(ts@),
        p < ts.len(),
    ensures
        match r {
            Ok(value) => string_at(tokens_view(ts@), p as int, message@) == Ok::<Seq<char>, Seq<char>>(value@)
                && p + 1 < ts.len(),
            Err(m) => string_at(tokens_view(ts@), p as int, message@) == Err::<Seq<char>, Seq<char>>(m@),
        },
{
    match &ts[p].kind {
        TokenKind::Str(value) => Ok(value.clone()),
        _ => Err(error_here(ts, p, message)),
    }
}

pub(crate) fn consume_type(ts: &Vec<Token>, p: usize, message: &str) -> (r: Result<String, String>)
    requires
        wf_tokens(ts@),
        p < ts.len(),
    ensures
        match r {
            Ok(value) => type_at(tokens_view(ts@), p as int, message@) == Ok::<Seq<char>, Seq<char>>(value@)
                && p + 1 < ts.len(),
            Err(m) => type_at(tokens_view(ts@), p as int, message@) == Err::<Seq<char>, Seq<char>>(m@),
        },
{
    match &ts[p].kind {
        TokenKind::Type(value) => Ok(value.clone()),
        _ => Err(error_here(ts, p, message)),
    }
}

pub(crate) fn consume_return_type(ts: &Vec<Token>, p: usize, message: &str) -> (r: Result<String, String>)
    requires
        wf_tokens(ts@),
        p < ts.len(),
    ensures
        match r {
            Ok(value) => return_type_at(tokens_view(ts@), p as int, message@) == Ok::<Seq<char>, Seq<char>>(
                value@,
            ) && p + 1 < ts.len(),
            Err(m) => return_type_at(tokens_view(ts@), p as int, message@) == Err::<Seq<char>, Seq<char>>(
                m@,
            ),
        },
{
    match &ts[p].kind {
        TokenKind::Type(value) => Ok(value.clone()),
        TokenKind::Ident(value) => Ok(value.clone()),
        _ => Err(error_here(ts, p, message)),
    }
}

/// The identifier at `p`, if the token there is one.
pub(crate) fn ident_here(ts: &Vec<Token>, p: usize) -> (r: Option<String>)
    requires
        wf_tokens(ts@),
        p < ts.len(),
    ensures
        match kind_at(tokens_view(ts@), p as int) {
            TokenKindV::Ident(name) => r matches Some(s) && s@ == name && p + 1 < ts.len(),
            _ => r is None,
        },
{
    match &ts[p].kind {
        TokenKind::Ident(name) => Some(name.clone()),
        _ => None,
    }
}

/// The binary operator of precedence `level` at `p`, if any.
pub(crate) fn binary_op_at(ts: &Vec<Token>, p: usize, level: u8) -> (r: Option<BinaryOp>)
    requires
        wf_tokens(ts@),
        p < ts.len(),
    ensures
        r == op_at(tokens_view(ts@), p as int, level as nat),
        r is Some ==> p + 1 < ts.len(),
{
    let k = &ts[p].kind;
    if level == 6 {
        if let TokenKind::OrOr = k { return Some(BinaryOp::Or); }
    } else if level == 5 {
        if let TokenKind::AndAnd = k { return Some(BinaryOp::And); }
    } else if level == 4 {
        if let TokenKind::EqualEqual = k { return Some(BinaryOp::Eq); }
        if let TokenKind::BangEqual = k { return Some(BinaryOp::NotEq); }
    } else if level == 3 {
        if let TokenKind::Less = k { return Some(BinaryOp::Less); }
        if let TokenKind::Greater = k { return Some(BinaryOp::Greater); }
        if let TokenKind::LessEqual = k { return Some(BinaryOp::LessEq); }
        if let TokenKind::GreaterEqual = k { return Some(BinaryOp::GreaterEq); }
    } else if level == 2 {
        if let TokenKind::Plus = k { return Some(BinaryOp::Add); }
        if let TokenKind::Minus = k { return Some(BinaryOp::Sub); }
    } else if level == 1 {
        if let TokenKind::Star = k { return Some(BinaryOp::Mul); }
        if let TokenKind::Slash = k { return Some(BinaryOp::Div); }
    }
    None
}

pub(crate) fn error_here(ts: &Vec<Token>, p: usize, message: &str) -> (r: String)
    requires
        wf_tokens(ts@),
        p < ts.len(),
    ensures
        r@ == error_at(tokens_view(ts@), p as int, message@),
{
    let token = &ts[p];
    let mut s = owned("line ");
    push_usize(&mut s, token.line);
    push_str(&mut s, ", column ");
    push_usize(&mut s, token.column);
    push_str(&mut s, ": ");
    push_str(&mut s, message);
    assert(s@ =~= located(token.line as nat, token.column as nat, message@));
    s
}

pub(crate) fn describe_current(ts: &Vec<Token>, p: usize) -> (r: String)
    requires
        wf_tokens(ts@),
        p < ts.len(),
    ensures
        r@ == describe(kind_at(tokens_view(ts@), p as int)),
{
    let r = match &ts[p].kind {
        TokenKind::Eof => owned("EOF"),
        TokenKind::Ident(value) => {
            let mut s = owned("identifier '");
            push_str(&mut s, value.as_str());
            push_str(&mut s, "'");
            s
        },
        TokenKind::Int(value) => {
            let mut s = owned("integer '");
            push_i64(&mut s, *value);
            push_str(&mut s, "'");
            s
        },
        TokenKind::Str(value) => {
            let mut s = owned("string \"");
            push_str(&mut s, value.as_str());
            push_str(&mut s, "\"");
            s
        },
        TokenKind::Bool(value) => {
            let mut s = owned("boolean '");
            push_bool(&mut s, *value);
            push_str(&mut s, "'");
            s
        },
        TokenKind::Type(value) => {
            let mut s = owned("type '");
            push_str(&mut s, value.as_str());
            push_str(&mut s, "'");
            s
        },
        TokenKind::Pub => owned("Pub"),
        TokenKind::Fcn => owned("Fcn"),
        TokenKind::Return => owned("Return"),
        TokenKind::If => owned("If"),
        TokenKind::Else => owned("Else"),
        TokenKind::While => owned("While"),
        TokenKind::For => owned("For"),
        TokenKind::In => owned("In"),
        TokenKind::Break => owned("Break"),
        TokenKind::Continue => owned("Continue"),
        TokenKind::Use => owned("Use"),
        TokenKind::Plus => owned("Plus"),
        TokenKind::Minus => owned("Minus"),
        TokenKind::Star => owned("Star"),
        TokenKind::Slash => owned("Slash"),
        TokenKind::Equal => owned("Equal"),
        TokenKind::EqualEqual => owned("EqualEqual"),
        TokenKind::Bang => owned("Bang"),
        TokenKind::BangEqual => owned("BangEqual"),
        TokenKind::Less => owned("Less"),
        TokenKind::Greater => owned("Greater"),
        TokenKind::LessEqual => owned("LessEqual"),
        TokenKind::GreaterEqual => owned("GreaterEqual"),
        TokenKind::AndAnd => owned("AndAnd"),
        TokenKind::OrOr => owned("OrOr"),
        TokenKind::Arrow => owned("Arrow"),
        TokenKind::LParen => owned("LParen"),
        TokenKind::RParen => owned("RParen"),
        TokenKind::LBrace => owned("LBrace"),
        TokenKind::RBrace => owned("RBrace"),
        TokenKind::LBracket => owned("LBracket"),
        TokenKind::RBracket => owned("RBracket"),
        TokenKind::Comma => owned("Comma"),
        TokenKind::Colon => owned("Colon"),
        TokenKind::Semicolon => owned("Semicolon"),
    };
    r
}

/// Whether two token kinds are of the same variant, payloads aside.
pub fn same_kind(left: &TokenKind, right: &TokenKind) -> (r: bool)
    ensures
        r == (kind_tag(left@) == kind_tag(right@)),
{
    left.tag() == right.tag()
}

} // verus!
