//! From source text to a syntax tree.
use vstd::prelude::*;
use crate::ast::{Program, ProgramV};
use crate::lexer::{Lexer, law_tokenize_ends_with_eof, spec_tokenize};
use crate::parse_spec::spec_parse_program;
use crate::parser::Parser;
use crate::text::{chars_of, owned};
use crate::token::{TokenKindV, tokens_view};

verus! {

/// The syntax tree of a source text, or the first lexing or parsing error.
pub open spec fn front_end(source: Seq<char>) -> Result<ProgramV, Seq<char>> {
    match spec_tokenize(source) {
        Err(m) => Err(m),
        Ok(ts) => spec_parse_program(ts),
    }
}

/// Lexes and parses a source text.
pub fn parse_source(source: &str) -> (r: Result<Program, String>)
    ensures
        source@.len() < usize::MAX ==> match front_end(source@) {
            Ok(p) => r is Ok && r->Ok_0@ == p,
            Err(m) => r is Err && r->Err_0@ == m,
        },
{
    let n = chars_of(source).len();
    if n == usize::MAX {
        return Err(owned("Source is too long."));
    }
    let mut lexer = Lexer::new(source);
    let tokens = match lexer.tokenize() {
        Err(m) => {
            return Err(m);
        },
        Ok(ts) => ts,
    };
    proof {
        law_tokenize_ends_with_eof(source@);
        let tv = tokens_view(tokens@);
        assert(tv.len() == tokens@.len());
        assert(tv.last() == tokens@.last()@);
        assert(tv.last().kind == TokenKindV::Eof);
    }
    let mut parser = Parser::new(tokens);
    parser.parse_program()
}

} // verus!
