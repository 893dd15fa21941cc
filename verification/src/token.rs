//! Tokens produced by the lexer.
use vstd::prelude::*;

verus! {

#[derive(Debug, Clone)]
pub enum TokenKind {
    Eof,
    Ident(String),
    Int(i64),
    Str(String),
    Bool(bool),
    Type(String),
    Pub,
    Fcn,
    Return,
    If,
    Else,
    While,
    For,
    In,
    Break,
    Continue,
    Use,
    Plus,
    Minus,
    Star,
    Slash,
    Equal,
    EqualEqual,
    Bang,
    BangEqual,
    Less,
    Greater,
    LessEqual,
    GreaterEqual,
    AndAnd,
    OrOr,
    Arrow,
    LParen,
    RParen,
    LBrace,
    RBrace,
    LBracket,
    RBracket,
    Comma,
    Colon,
    Semicolon,
}

/// The mathematical content of a token kind: texts become character sequences.
pub enum TokenKindV {
    Eof,
    Ident(Seq<char>),
    Int(i64),
    Str(Seq<char>),
    Bool(bool),
    Type(Seq<char>),
    Pub,
    Fcn,
    Return,
    If,
    Else,
    While,
    For,
    In,
    Break,
    Continue,
    Use,
    Plus,
    Minus,
    Star,
    Slash,
    Equal,
    EqualEqual,
    Bang,
    BangEqual,
    Less,
    Greater,
    LessEqual,
    GreaterEqual,
    AndAnd,
    OrOr,
    Arrow,
    LParen,
    RParen,
    LBrace,
    RBrace,
    LBracket,
    RBracket,
    Comma,
    Colon,
    Semicolon,
}

impl View for TokenKind {
    type V = TokenKindV;

    open spec fn view(&self) -> TokenKindV {
        match self {
            TokenKind::Eof => TokenKindV::Eof,
            TokenKind::Ident(s) => TokenKindV::Ident(s@),
            TokenKind::Int(i) => TokenKindV::Int(*i),
            TokenKind::Str(s) => TokenKindV::Str(s@),
            TokenKind::Bool(b) => TokenKindV::Bool(*b),
            TokenKind::Type(s) => TokenKindV::Type(s@),
            TokenKind::Pub => TokenKindV::Pub,
            TokenKind::Fcn => TokenKindV::Fcn,
            TokenKind::Return => TokenKindV::Return,
            TokenKind::If => TokenKindV::If,
            TokenKind::Else => TokenKindV::Else,
            TokenKind::While => TokenKindV::While,
            TokenKind::For => TokenKindV::For,
            TokenKind::In => TokenKindV::In,
            TokenKind::Break => TokenKindV::Break,
            TokenKind::Continue => TokenKindV::Continue,
            TokenKind::Use => TokenKindV::Use,
            TokenKind::Plus => TokenKindV::Plus,
            TokenKind::Minus => TokenKindV::Minus,
            TokenKind::Star => TokenKindV::Star,
            TokenKind::Slash => TokenKindV::Slash,
            TokenKind::Equal => TokenKindV::Equal,
            TokenKind::EqualEqual => TokenKindV::EqualEqual,
            TokenKind::Bang => TokenKindV::Bang,
            TokenKind::BangEqual => TokenKindV::BangEqual,
            TokenKind::Less => TokenKindV::Less,
            TokenKind::Greater => TokenKindV::Greater,
            TokenKind::LessEqual => TokenKindV::LessEqual,
            TokenKind::GreaterEqual => TokenKindV::GreaterEqual,
            TokenKind::AndAnd => TokenKindV::AndAnd,
            TokenKind::OrOr => TokenKindV::OrOr,
            TokenKind::Arrow => TokenKindV::Arrow,
            TokenKind::LParen => TokenKindV::LParen,
            TokenKind::RParen => TokenKindV::RParen,
            TokenKind::LBrace => TokenKindV::LBrace,
            TokenKind::RBrace => TokenKindV::RBrace,
            TokenKind::LBracket => TokenKindV::LBracket,
            TokenKind::RBracket => TokenKindV::RBracket,
            TokenKind::Comma => TokenKindV::Comma,
            TokenKind::Colon => TokenKindV::Colon,
            TokenKind::Semicolon => TokenKindV::Semicolon,
        }
    }
}

/// The variant of a token kind, ignoring any payload.
pub open spec fn kind_tag(k: TokenKindV) -> nat {
    match k {
        TokenKindV::Eof => 0,
        TokenKindV::Ident(_) => 1,
        TokenKindV::Int(_) => 2,
        TokenKindV::Str(_) => 3,
        TokenKindV::Bool(_) => 4,
        TokenKindV::Type(_) => 5,
        TokenKindV::Pub => 6,
        TokenKindV::Fcn => 7,
        TokenKindV::Return => 8,
        TokenKindV::If => 9,
        TokenKindV::Else => 10,
        TokenKindV::While => 11,
        TokenKindV::For => 12,
        TokenKindV::In => 13,
        TokenKindV::Break => 14,
        TokenKindV::Continue => 15,
        TokenKindV::Use => 16,
        TokenKindV::Plus => 17,
        TokenKindV::Minus => 18,
        TokenKindV::Star => 19,
        TokenKindV::Slash => 20,
        TokenKindV::Equal => 21,
        TokenKindV::EqualEqual => 22,
        TokenKindV::Bang => 23,
        TokenKindV::BangEqual => 24,
        TokenKindV::Less => 25,
        TokenKindV::Greater => 26,
        TokenKindV::LessEqual => 27,
        TokenKindV::GreaterEqual => 28,
        TokenKindV::AndAnd => 29,
        TokenKindV::OrOr => 30,
        TokenKindV::Arrow => 31,
        TokenKindV::LParen => 32,
        TokenKindV::RParen => 33,
        TokenKindV::LBrace => 34,
        TokenKindV::RBrace => 35,
        TokenKindV::LBracket => 36,
        TokenKindV::RBracket => 37,
        TokenKindV::Comma => 38,
        TokenKindV::Colon => 39,
        TokenKindV::Semicolon => 40,
    }
}

impl TokenKind {
    /// The variant number of this kind; kinds with a payload compare by variant alone.
    pub fn tag(&self) -> (r: u8)
        ensures
            r as nat == kind_tag(self@),
    {
        match self {
            TokenKind::Eof => 0,
            TokenKind::Ident(_) => 1,
            TokenKind::Int(_) => 2,
            TokenKind::Str(_) => 3,
            TokenKind::Bool(_) => 4,
            TokenKind::Type(_) => 5,
            TokenKind::Pub => 6,
            TokenKind::Fcn => 7,
            TokenKind::Return => 8,
            TokenKind::If => 9,
            TokenKind::Else => 10,
            TokenKind::While => 11,
            TokenKind::For => 12,
            TokenKind::In => 13,
            TokenKind::Break => 14,
            TokenKind::Continue => 15,
            TokenKind::Use => 16,
            TokenKind::Plus => 17,
            TokenKind::Minus => 18,
            TokenKind::Star => 19,
            TokenKind::Slash => 20,
            TokenKind::Equal => 21,
            TokenKind::EqualEqual => 22,
            TokenKind::Bang => 23,
            TokenKind::BangEqual => 24,
            TokenKind::Less => 25,
            TokenKind::Greater => 26,
            TokenKind::LessEqual => 27,
            TokenKind::GreaterEqual => 28,
            TokenKind::AndAnd => 29,
            TokenKind::OrOr => 30,
            TokenKind::Arrow => 31,
            TokenKind::LParen => 32,
            TokenKind::RParen => 33,
            TokenKind::LBrace => 34,
            TokenKind::RBrace => 35,
            TokenKind::LBracket => 36,
            TokenKind::RBracket => 37,
            TokenKind::Comma => 38,
            TokenKind::Colon => 39,
            TokenKind::Semicolon => 40,
        }
    }
}

#[derive(Debug, Clone)]
pub struct Token {
    pub kind: TokenKind,
    pub lexeme: String,
    pub line: usize,
    pub column: usize,
}

pub struct TokenV {
    pub kind: TokenKindV,
    pub lexeme: Seq<char>,
    pub line: nat,
    pub column: nat,
}

impl View for Token {
    type V = TokenV;

    open spec fn view(&self) -> TokenV {
        TokenV {
            kind: self.kind@,
            lexeme: self.lexeme@,
            line: self.line as nat,
            column: self.column as nat,
        }
    }
}

/// The views of a sequence of tokens.
pub open spec fn tokens_view(s: Seq<Token>) -> Seq<TokenV> {
    s.map_values(|t: Token| t@)
}

impl Token {
    pub fn new(kind: TokenKind, lexeme: String, line: usize, column: usize) -> (r: Self)
        ensures
            r.kind == kind,
            r.lexeme == lexeme,
            r.line == line,
            r.column == column,
    {
        Self { kind, lexeme, line, column }
    }
}

} // verus!
