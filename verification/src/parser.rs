//! Turns tokens into a syntax tree by recursive descent.
use vstd::prelude::*;
use crate::ast::{Function, Item, ItemV, Param, ParamV, FunctionV, Program, ProgramV, params_view, items_view};
use crate::parse_spec::{
    Parsed, lemma_shift_shift, remaining, shift, spec_function, spec_items, spec_params,
    spec_parse_program,
};
use crate::parse_stmt::{parse_block, parse_var_decl};
use crate::parse_tokens::{
    check, check_type, consume, consume_ident, consume_return_type, consume_string, consume_type,
    error_here, is_at_end, wf_tokens,
};
use crate::token::{Token, TokenKind, TokenV, tokens_view};

verus! {

pub struct Parser {
    tokens: Vec<Token>,
    current: usize,
}

pub open spec fn agrees_params(r: Result<(Vec<Param>, usize), String>, s: Parsed<Seq<ParamV>>, p: int, len: int) -> bool {
    match r {
        Ok((e, q)) => p <= q < len && s == Ok::<(Seq<ParamV>, nat), Seq<char>>((params_view(e@), (q - p) as nat)),
        Err(m) => s == Err::<(Seq<ParamV>, nat), Seq<char>>(m@),
    }
}

pub open spec fn agrees_function(r: Result<(Function, usize), String>, s: Parsed<FunctionV>, p: int, len: int) -> bool {
    match r {
        Ok((e, q)) => p <= q < len && s == Ok::<(FunctionV, nat), Seq<char>>((e@, (q - p) as nat)),
        Err(m) => s == Err::<(FunctionV, nat), Seq<char>>(m@),
    }
}

impl Parser {
    /// The tokens being parsed.
    pub closed spec fn tokens(&self) -> Seq<TokenV> {
        tokens_view(self.tokens@)
    }

    /// The token sequence ends with the end-of-input token.
    pub closed spec fn wf(&self) -> bool {
        &&& wf_tokens(self.tokens@)
        &&& self.current < self.tokens.len()
    }

    /// The parser has not yet moved.
    pub closed spec fn at_start(&self) -> bool {
        self.current == 0
    }

    pub fn new(tokens: Vec<Token>) -> (r: Self)
        ensures
            r.tokens() == tokens_view(tokens@),
            r.at_start(),
            tokens@.len() > 0 && tokens@.last().kind is Eof ==> r.wf(),
    {
        Self { tokens, current: 0 }
    }

    /// Parses the whole token sequence into a program.
    pub fn parse_program(&mut self) -> (r: Result<Program, String>)
        requires
            old(self).wf(),
            old(self).at_start(),
        ensures
            final(self).tokens() == old(self).tokens(),
            match r {
                Ok(p) => spec_parse_program(old(self).tokens()) == Ok::<ProgramV, Seq<char>>(p@),
                Err(m) => spec_parse_program(old(self).tokens()) == Err::<ProgramV, Seq<char>>(m@),
            },
    {
        proof { reveal_with_fuel(spec_items, 1); }
        let ghost tv = self.tokens();
        let mut items: Vec<Item> = Vec::new();
        let mut p: usize = 0;
        assert(items_view(items@) =~= Seq::<ItemV>::empty());
        while !is_at_end(&self.tokens, p)
            invariant
                self.wf(),
                self.tokens() == tv,
                p < self.tokens.len(),
                spec_items(tv, 0, Seq::empty()) == spec_items(tv, p as int, items_view(items@)),
            decreases remaining(tv, p as int),
        {
            proof { reveal_with_fuel(spec_items, 1); }
            if check(&self.tokens, p, &TokenKind::Use) {
                if let Err(e) = consume_string(&self.tokens, p + 1, "Expected string path after use.") {
                    return Err(e);
                }
                if let Err(e) = consume(&self.tokens, p + 2, &TokenKind::Semicolon, "Expected ';' after use import.") {
                    return Err(e);
                }
                p = p + 3;
                continue;
            }
            let is_pub = check(&self.tokens, p, &TokenKind::Pub);
            let q = if is_pub { p + 1 } else { p };
            if check(&self.tokens, q, &TokenKind::Fcn) {
                let (function, next) = match parse_function(&self.tokens, q + 1, is_pub) {
                    Ok(v) => v,
                    Err(e) => {
                        return Err(e);
                    },
                };
                let ghost before = items_view(items@);
                items.push(Item::Function(function));
                assert(items_view(items@) =~= before.push(items@.last()@));
                p = next;
                continue;
            }
            if is_pub {
                return Err(error_here(&self.tokens, q, "Expected function after pub."));
            }
            if check_type(&self.tokens, q) {
                let (decl, next) = match parse_var_decl(&self.tokens, q) {
                    Ok(v) => v,
                    Err(e) => {
                        return Err(e);
                    },
                };
                let ghost before = items_view(items@);
                items.push(Item::VarDecl(decl));
                assert(items_view(items@) =~= before.push(items@.last()@));
                p = next;
                continue;
            }
            return Err(error_here(&self.tokens, q, "Expected function or variable declaration."));
        }
        self.current = p;
        Ok(Program { items })
    }
}

#[verifier::spinoff_prover]
pub(crate) fn parse_function(ts: &Vec<Token>, p: usize, is_pub: bool) -> (r: Result<(Function, usize), String>)
    requires
        wf_tokens(ts@),
        p < ts.len(),
    ensures
        agrees_function(r, spec_function(tokens_view(ts@), p as int, is_pub), p as int, ts.len() as int),
{
    proof { reveal_with_fuel(spec_function, 1); }
    let name = match consume_ident(ts, p, "Expected function name.") {
        Ok(v) => v,
        Err(e) => {
            return Err(e);
        },
    };
    if let Err(e) = consume(ts, p + 1, &TokenKind::LParen, "Expected '(' after function name.") {
        return Err(e);
    }
    let (params, q) = if check(ts, p + 2, &TokenKind::RParen) {
        assert(params_view(Seq::<Param>::empty()) =~= Seq::<ParamV>::empty());
        (Vec::new(), p + 2)
    } else {
        match parse_params(ts, p + 2) {
            Ok(v) => v,
            Err(e) => {
                return Err(e);
            },
        }
    };
    if let Err(e) = consume(ts, q, &TokenKind::RParen, "Expected ')' after parameters.") {
        return Err(e);
    }
    let (return_type, r) = if check(ts, q + 1, &TokenKind::Arrow) {
        let t = match consume_return_type(ts, q + 2, "Expected return type after '->'.") {
            Ok(v) => v,
            Err(e) => {
                return Err(e);
            },
        };
        (Some(t), q + 3)
    } else {
        (None, q + 1)
    };
    let (body, end) = match parse_block(ts, r) {
        Ok(v) => v,
        Err(e) => {
            return Err(e);
        },
    };
    Ok((Function { is_pub, name, params, return_type, body }, end))
}

#[verifier::spinoff_prover]
pub(crate) fn parse_params(ts: &Vec<Token>, p: usize) -> (r: Result<(Vec<Param>, usize), String>)
    requires
        wf_tokens(ts@),
        p < ts.len(),
    ensures
        agrees_params(r, spec_params(tokens_view(ts@), p as int, Seq::empty()), p as int, ts.len() as int),
{
    proof { reveal_with_fuel(spec_params, 1); }
    let ghost tv = tokens_view(ts@);
    let mut params: Vec<Param> = Vec::new();
    let mut q = p;
    assert(params_view(params@) =~= Seq::<ParamV>::empty());
    loop
        invariant
            wf_tokens(ts@),
            tv == tokens_view(ts@),
            p <= q < ts.len(),
            spec_params(tv, p as int, Seq::empty()) == shift(
                spec_params(tv, q as int, params_view(params@)),
                (q - p) as nat,
            ),
        decreases remaining(tv, q as int),
    {
        proof { reveal_with_fuel(spec_params, 1); }
        let ty = match consume_type(ts, q, "Expected parameter type.") {
            Ok(v) => v,
            Err(e) => {
                return Err(e);
            },
        };
        let name = match consume_ident(ts, q + 1, "Expected parameter name.") {
            Ok(v) => v,
            Err(e) => {
                return Err(e);
            },
        };
        let ghost before = params_view(params@);
        params.push(Param { ty, name });
        assert(params_view(params@) =~= before.push(params@.last()@));
        if check(ts, q + 2, &TokenKind::Comma) && !check(ts, q + 3, &TokenKind::RParen) {
            proof {
                lemma_shift_shift(spec_params(tv, q + 3, params_view(params@)), 3, (q - p) as nat);
            }
            q = q + 3;
        } else if check(ts, q + 2, &TokenKind::Comma) {
            return Ok((params, q + 3));
        } else {
            return Ok((params, q + 2));
        }
    }
}

} // verus!
