//! Turns source text into tokens.
use vstd::prelude::*;
use crate::text::{
    char_is_digit, char_is_ident_part, char_is_ident_start, chars_of, digit_value, is_digit,
    is_ident_part, is_ident_start, is_text, nat_decimal, owned, push_char, push_str, push_usize,
    string_from_range,
};
use crate::token::{Token, TokenKind, TokenKindV, TokenV, tokens_view};

verus! {

// ---------------------------------------------------------------------------
// Specification
// ---------------------------------------------------------------------------

pub open spec fn tok(kind: TokenKindV, lexeme: Seq<char>, line: nat, column: nat) -> TokenV {
    TokenV { kind, lexeme, line, column }
}

/// `line L, column C: message`
pub open spec fn located(line: nat, column: nat, message: Seq<char>) -> Seq<char> {
    "line "@ + nat_decimal(line) + ", column "@ + nat_decimal(column) + ": "@ + message
}

/// The first index at or after `i` that holds a newline, or the end.
pub open spec fn comment_end(chars: Seq<char>, i: int) -> int
    decreases chars.len() - i,
{
    if i >= chars.len() || chars[i] == '\n' {
        i
    } else {
        comment_end(chars, i + 1)
    }
}

/// The first index at or after `i` whose character cannot continue an identifier.
pub open spec fn ident_end(chars: Seq<char>, i: int) -> int
    decreases chars.len() - i,
{
    if i >= chars.len() || !is_ident_part(chars[i]) {
        i
    } else {
        ident_end(chars, i + 1)
    }
}

/// The first index at or after `i` that does not hold a digit.
pub open spec fn digits_end(chars: Seq<char>, i: int) -> int
    decreases chars.len() - i,
{
    if i >= chars.len() || !is_digit(chars[i]) {
        i
    } else {
        digits_end(chars, i + 1)
    }
}

pub proof fn lemma_comment_end_bounds(chars: Seq<char>, i: int)
    requires
        0 <= i <= chars.len(),
    ensures
        i <= comment_end(chars, i) <= chars.len(),
    decreases chars.len() - i,
{
    if i < chars.len() && chars[i] != '\n' {
        lemma_comment_end_bounds(chars, i + 1);
    }
}

pub proof fn lemma_ident_end_bounds(chars: Seq<char>, i: int)
    requires
        0 <= i <= chars.len(),
    ensures
        i <= ident_end(chars, i) <= chars.len(),
        forall|k: int| i <= k < ident_end(chars, i) ==> is_ident_part(#[trigger] chars[k]),
    decreases chars.len() - i,
{
    if i < chars.len() && is_ident_part(chars[i]) {
        lemma_ident_end_bounds(chars, i + 1);
    }
}

pub proof fn lemma_digits_end_bounds(chars: Seq<char>, i: int)
    requires
        0 <= i <= chars.len(),
    ensures
        i <= digits_end(chars, i) <= chars.len(),
        forall|k: int| i <= k < digits_end(chars, i) ==> is_digit(#[trigger] chars[k]),
    decreases chars.len() - i,
{
    if i < chars.len() && is_digit(chars[i]) {
        lemma_digits_end_bounds(chars, i + 1);
    }
}

/// The value of a sequence of decimal digits.
pub open spec fn digits_value(d: Seq<char>) -> nat
    decreases d.len(),
{
    if d.len() == 0 {
        0
    } else {
        (digits_value(d.drop_last()) * 10 + digit_value(d.last())) as nat
    }
}

/// The character an escape `\c` stands for inside a string literal.
pub open spec fn unescape(c: char) -> char {
    if c == 'n' {
        '\n'
    } else if c == 't' {
        '\t'
    } else if c == 'r' {
        '\r'
    } else {
        c
    }
}

pub proof fn lemma_scan_string_bounds(chars: Seq<char>, i: int, line: nat, column: nat, acc: Seq<char>)
    ensures
        scan_string(chars, i, line, column, acc) matches StrScan::Closed { pos, .. } ==> i < pos <= chars.len(),
    decreases chars.len() - i,
{
    if 0 <= i < chars.len() && chars[i] != '"' {
        if chars[i] == '\\' {
            if i + 1 < chars.len() {
                lemma_scan_string_bounds(chars, i + 2, line, column + 2, acc.push(unescape(chars[i + 1])));
            }
        } else if chars[i] == '\n' {
            lemma_scan_string_bounds(chars, i + 1, line + 1, 1, acc.push('\n'));
        } else {
            lemma_scan_string_bounds(chars, i + 1, line, column + 1, acc.push(chars[i]));
        }
    }
}

pub enum StrScan {
    Closed { value: Seq<char>, pos: int, line: nat, column: nat },
    BadEscape,
    Unterminated,
}

/// Scans the body of a string literal from index `i` (just after the opening quote).
pub open spec fn scan_string(chars: Seq<char>, i: int, line: nat, column: nat, acc: Seq<char>) -> StrScan
    decreases chars.len() - i,
{
    if i < 0 || i >= chars.len() {
        StrScan::Unterminated
    } else if chars[i] == '"' {
        StrScan::Closed { value: acc, pos: i + 1, line, column: column + 1 }
    } else if chars[i] == '\\' {
        if i + 1 >= chars.len() {
            StrScan::BadEscape
        } else {
            scan_string(chars, i + 2, line, column + 2, acc.push(unescape(chars[i + 1])))
        }
    } else if chars[i] == '\n' {
        scan_string(chars, i + 1, line + 1, 1, acc.push('\n'))
    } else {
        scan_string(chars, i + 1, line, column + 1, acc.push(chars[i]))
    }
}

/// The token kind of an identifier-like word.
pub open spec fn word_kind(w: Seq<char>) -> TokenKindV {
    if w == "pub"@ {
        TokenKindV::Pub
    } else if w == "fcn"@ {
        TokenKindV::Fcn
    } else if w == "return"@ {
        TokenKindV::Return
    } else if w == "if"@ {
        TokenKindV::If
    } else if w == "else"@ {
        TokenKindV::Else
    } else if w == "while"@ {
        TokenKindV::While
    } else if w == "for"@ {
        TokenKindV::For
    } else if w == "in"@ {
        TokenKindV::In
    } else if w == "break"@ {
        TokenKindV::Break
    } else if w == "continue"@ {
        TokenKindV::Continue
    } else if w == "use"@ {
        TokenKindV::Use
    } else if w == "true"@ {
        TokenKindV::Bool(true)
    } else if w == "false"@ {
        TokenKindV::Bool(false)
    } else if w == "cre_int"@ || w == "cre_str"@ || w == "cre_bool"@ || w == "cre_arr"@ || w
        == "cre_dict"@ {
        TokenKindV::Type(w)
    } else {
        TokenKindV::Ident(w)
    }
}

/// Prepends already produced tokens to the outcome of lexing the rest.
pub open spec fn prepend(pre: Seq<TokenV>, rest: Result<Seq<TokenV>, Seq<char>>) -> Result<
    Seq<TokenV>,
    Seq<char>,
> {
    match rest {
        Ok(ts) => Ok(pre + ts),
        Err(e) => Err(e),
    }
}

/// A one-character token followed by the rest of the input.
pub open spec fn single(chars: Seq<char>, i: int, line: nat, column: nat, kind: TokenKindV) -> Result<
    Seq<TokenV>,
    Seq<char>,
>
    decreases chars.len() - i, 0int,
{
    if i < 0 || i >= chars.len() {
        Err(Seq::empty())
    } else {
        prepend(
            seq![tok(kind, seq![chars[i]], line, column)],
            lex_from(chars, i + 1, line, column + 1),
        )
    }
}

/// A token that is `first` alone, or `first` followed by `second` when that character comes next.
pub open spec fn pair(
    chars: Seq<char>,
    i: int,
    line: nat,
    column: nat,
    second: char,
    short: TokenKindV,
    long: TokenKindV,
) -> Result<Seq<TokenV>, Seq<char>>
    decreases chars.len() - i, 0int,
{
    if i < 0 || i >= chars.len() {
        Err(Seq::empty())
    } else if i + 1 < chars.len() && chars[i + 1] == second {
        prepend(
            seq![tok(long, seq![chars[i], second], line, column)],
            lex_from(chars, i + 2, line, column + 2),
        )
    } else {
        prepend(
            seq![tok(short, seq![chars[i]], line, column)],
            lex_from(chars, i + 1, line, column + 1),
        )
    }
}

/// The tokens of `chars` from index `i` on, the lexer standing at `line` and `column`.
pub open spec fn lex_from(chars: Seq<char>, i: int, line: nat, column: nat) -> Result<
    Seq<TokenV>,
    Seq<char>,
>
    decreases chars.len() - i, 1int,
{
    if i < 0 {
        Err(Seq::empty())
    } else if i >= chars.len() {
        Ok(seq![tok(TokenKindV::Eof, Seq::empty(), line, column)])
    } else {
        let c = chars[i];
        if c == ' ' || c == '\r' || c == '\t' {
            lex_from(chars, i + 1, line, column + 1)
        } else if c == '\n' {
            lex_from(chars, i + 1, line + 1, 1)
        } else if c == '/' {
            if i + 1 < chars.len() && chars[i + 1] == '/' {
                let j = comment_end(chars, i);
                proof {
                    lemma_comment_end_bounds(chars, i + 1);
                }
                lex_from(chars, j, line, (column + (j - i)) as nat)
            } else {
                single(chars, i, line, column, TokenKindV::Slash)
            }
        } else if c == '+' {
            single(chars, i, line, column, TokenKindV::Plus)
        } else if c == '-' {
            pair(chars, i, line, column, '>', TokenKindV::Minus, TokenKindV::Arrow)
        } else if c == '*' {
            single(chars, i, line, column, TokenKindV::Star)
        } else if c == '=' {
            pair(chars, i, line, column, '=', TokenKindV::Equal, TokenKindV::EqualEqual)
        } else if c == '!' {
            pair(chars, i, line, column, '=', TokenKindV::Bang, TokenKindV::BangEqual)
        } else if c == '<' {
            pair(chars, i, line, column, '=', TokenKindV::Less, TokenKindV::LessEqual)
        } else if c == '>' {
            pair(chars, i, line, column, '=', TokenKindV::Greater, TokenKindV::GreaterEqual)
        } else if c == '&' {
            if i + 1 < chars.len() && chars[i + 1] == '&' {
                prepend(
                    seq![tok(TokenKindV::AndAnd, seq!['&', '&'], line, column)],
                    lex_from(chars, i + 2, line, column + 2),
                )
            } else {
                Err(located(line, column, "Expected '&' after '&'. Use &&."@))
            }
        } else if c == '|' {
            if i + 1 < chars.len() && chars[i + 1] == '|' {
                prepend(
                    seq![tok(TokenKindV::OrOr, seq!['|', '|'], line, column)],
                    lex_from(chars, i + 2, line, column + 2),
                )
            } else {
                Err(located(line, column, "Expected '|' after '|'. Use ||."@))
            }
        } else if c == '(' {
            single(chars, i, line, column, TokenKindV::LParen)
        } else if c == ')' {
            single(chars, i, line, column, TokenKindV::RParen)
        } else if c == '{' {
            single(chars, i, line, column, TokenKindV::LBrace)
        } else if c == '}' {
            single(chars, i, line, column, TokenKindV::RBrace)
        } else if c == '[' {
            single(chars, i, line, column, TokenKindV::LBracket)
        } else if c == ']' {
            single(chars, i, line, column, TokenKindV::RBracket)
        } else if c == ',' {
            single(chars, i, line, column, TokenKindV::Comma)
        } else if c == ':' {
            single(chars, i, line, column, TokenKindV::Colon)
        } else if c == ';' {
            single(chars, i, line, column, TokenKindV::Semicolon)
        } else if c == '"' {
            match scan_string(chars, i + 1, line, column + 1, Seq::empty()) {
                StrScan::Closed { value, pos, line: l2, column: c2 } => {
                    proof {
                        lemma_scan_string_bounds(chars, i + 1, line, column + 1, Seq::empty());
                    }
                    prepend(
                        seq![tok(TokenKindV::Str(value), value, line, column)],
                        lex_from(chars, pos, l2, c2),
                    )
                },
                StrScan::BadEscape => Err(located(line, column, "Unterminated escape sequence."@)),
                StrScan::Unterminated => Err(located(line, column, "Unterminated string."@)),
            }
        } else if is_digit(c) {
            let j = digits_end(chars, i);
            let digits = chars.subrange(i, j);
            proof {
                lemma_digits_end_bounds(chars, i + 1);
            }
            if digits_value(digits) > i64::MAX {
                Err(
                    located(
                        line,
                        column,
                        "Invalid integer '"@ + digits
                            + "': number too large to fit in target type"@,
                    ),
                )
            } else {
                prepend(
                    seq![tok(TokenKindV::Int(digits_value(digits) as i64), digits, line, column)],
                    lex_from(chars, j, line, (column + (j - i)) as nat),
                )
            }
        } else if is_ident_start(c) {
            let j = ident_end(chars, i);
            let word = chars.subrange(i, j);
            proof {
                lemma_ident_end_bounds(chars, i + 1);
            }
            prepend(
                seq![tok(word_kind(word), word, line, column)],
                lex_from(chars, j, line, (column + (j - i)) as nat),
            )
        } else {
            Err(located(line, column, "Unexpected character '"@ + seq![c] + "'."@))
        }
    }
}

/// What lexing gives when a string literal opens at index `i`.
pub open spec fn string_rest(chars: Seq<char>, i: int, line: nat, column: nat) -> Result<Seq<TokenV>, Seq<char>> {
    match scan_string(chars, i + 1, line, column + 1, Seq::empty()) {
        StrScan::Closed { value, pos, line: l2, column: c2 } => prepend(
            seq![tok(TokenKindV::Str(value), value, line, column)],
            lex_from(chars, pos, l2, c2),
        ),
        StrScan::BadEscape => Err(located(line, column, "Unterminated escape sequence."@)),
        StrScan::Unterminated => Err(located(line, column, "Unterminated string."@)),
    }
}

/// What `tokenize` gives for a source text.
pub open spec fn spec_tokenize(source: Seq<char>) -> Result<Seq<TokenV>, Seq<char>> {
    lex_from(source, 0, 1, 1)
}

// ---------------------------------------------------------------------------
// Laws
// ---------------------------------------------------------------------------

/// The outcome, when successful, ends with the end-of-input token and holds no other.
pub open spec fn eof_terminated(r: Result<Seq<TokenV>, Seq<char>>) -> bool {
    r matches Ok(ts) ==> {
        &&& ts.len() > 0
        &&& ts.last().kind == TokenKindV::Eof
        &&& forall|k: int| 0 <= k < ts.len() - 1 ==> ts[k].kind != TokenKindV::Eof
    }
}

proof fn lemma_prepend_keeps(r: Result<Seq<TokenV>, Seq<char>>)
    requires
        eof_terminated(r),
    ensures
        forall|t: TokenV| t.kind != TokenKindV::Eof ==> #[trigger] eof_terminated(prepend(seq![t], r)),
{
    assert forall|t: TokenV| t.kind != TokenKindV::Eof implies #[trigger] eof_terminated(prepend(seq![t], r)) by {
        if let Ok(ts) = r {
            let all = seq![t] + ts;
            assert forall|k: int| 0 <= k < all.len() - 1 implies all[k].kind != TokenKindV::Eof by {
                if k > 0 {
                    assert(all[k] == ts[k - 1]);
                }
            }
        }
    }
}

/// Every successful lexing ends with exactly one end-of-input token: it is the last token,
/// and no earlier token marks the end of input.
pub proof fn lemma_lex_ends_with_eof(chars: Seq<char>, i: int, line: nat, column: nat)
    ensures
        eof_terminated(lex_from(chars, i, line, column)),
    decreases chars.len() - i,
{
    if 0 <= i < chars.len() {
        let c = chars[i];
        if c == ' ' || c == '\r' || c == '\t' {
            lemma_lex_ends_with_eof(chars, i + 1, line, column + 1);
            assert(eof_terminated(lex_from(chars, i, line, column)));
        } else if c == '\n' {
            lemma_lex_ends_with_eof(chars, i + 1, line + 1, 1);
            assert(eof_terminated(lex_from(chars, i, line, column)));
        } else if c == '/' && i + 1 < chars.len() && chars[i + 1] == '/' {
            let j = comment_end(chars, i);
            lemma_comment_end_bounds(chars, i + 1);
            lemma_lex_ends_with_eof(chars, j, line, (column + (j - i)) as nat);
            assert(eof_terminated(lex_from(chars, i, line, column)));
        } else if c == '"' {
            match scan_string(chars, i + 1, line, column + 1, Seq::empty()) {
                StrScan::Closed { value, pos, line: l2, column: c2 } => {
                    lemma_scan_string_bounds(chars, i + 1, line, column + 1, Seq::empty());
                    lemma_lex_ends_with_eof(chars, pos, l2, c2);
                    lemma_prepend_keeps(lex_from(chars, pos, l2, c2));
                    assert(eof_terminated(lex_from(chars, i, line, column)));
                },
                _ => {},
            }
        } else if is_digit(c) {
            let j = digits_end(chars, i);
            lemma_digits_end_bounds(chars, i + 1);
            lemma_lex_ends_with_eof(chars, j, line, (column + (j - i)) as nat);
            lemma_prepend_keeps(lex_from(chars, j, line, (column + (j - i)) as nat));
            assert(eof_terminated(lex_from(chars, i, line, column)));
        } else if is_ident_start(c) {
            let j = ident_end(chars, i);
            lemma_ident_end_bounds(chars, i + 1);
            lemma_lex_ends_with_eof(chars, j, line, (column + (j - i)) as nat);
            lemma_prepend_keeps(lex_from(chars, j, line, (column + (j - i)) as nat));
            assert(word_kind(chars.subrange(i, j)) != TokenKindV::Eof);
            assert(eof_terminated(lex_from(chars, i, line, column)));
        } else {
            lemma_lex_ends_with_eof(chars, i + 1, line, column + 1);
            if i + 1 < chars.len() {
                lemma_lex_ends_with_eof(chars, i + 2, line, column + 2);
            }
            lemma_operator_keeps(chars, i, line, column);
        }
    }
}

proof fn lemma_operator_keeps(chars: Seq<char>, i: int, line: nat, column: nat)
    requires
        0 <= i < chars.len(),
        eof_terminated(lex_from(chars, i + 1, line, column + 1)),
        i + 1 < chars.len() ==> eof_terminated(lex_from(chars, i + 2, line, column + 2)),
        ({
            let c = chars[i];
            &&& c != ' ' && c != '\r' && c != '\t' && c != '\n' && c != '"'
            &&& !is_digit(c) && !is_ident_start(c)
            &&& !(c == '/' && i + 1 < chars.len() && chars[i + 1] == '/')
        }),
    ensures
        eof_terminated(lex_from(chars, i, line, column)),
{
    lemma_prepend_keeps(lex_from(chars, i + 1, line, column + 1));
    if i + 1 < chars.len() {
        lemma_prepend_keeps(lex_from(chars, i + 2, line, column + 2));
    }
    let c = chars[i];
    assert forall|k: TokenKindV| k != TokenKindV::Eof implies eof_terminated(#[trigger] single(chars, i, line, column, k)) by {
        assert(single(chars, i, line, column, k) == prepend(seq![tok(k, seq![chars[i]], line, column)], lex_from(chars, i + 1, line, column + 1)));
    }
    assert forall|d: char, k1: TokenKindV, k2: TokenKindV| k1 != TokenKindV::Eof && k2 != TokenKindV::Eof implies eof_terminated(#[trigger] pair(chars, i, line, column, d, k1, k2)) by {
        if i + 1 < chars.len() && chars[i + 1] == d {
            assert(pair(chars, i, line, column, d, k1, k2) == prepend(seq![tok(k2, seq![chars[i], d], line, column)], lex_from(chars, i + 2, line, column + 2)));
        } else {
            assert(pair(chars, i, line, column, d, k1, k2) == prepend(seq![tok(k1, seq![chars[i]], line, column)], lex_from(chars, i + 1, line, column + 1)));
        }
    }
    if c == '/' {
        assert(lex_from(chars, i, line, column) == single(chars, i, line, column, TokenKindV::Slash));
    } else if c == '+' {
        assert(lex_from(chars, i, line, column) == single(chars, i, line, column, TokenKindV::Plus));
    } else if c == '*' {
        assert(lex_from(chars, i, line, column) == single(chars, i, line, column, TokenKindV::Star));
    } else if c == '(' {
        assert(lex_from(chars, i, line, column) == single(chars, i, line, column, TokenKindV::LParen));
    } else if c == ')' {
        assert(lex_from(chars, i, line, column) == single(chars, i, line, column, TokenKindV::RParen));
    } else if c == '{' {
        assert(lex_from(chars, i, line, column) == single(chars, i, line, column, TokenKindV::LBrace));
    } else if c == '}' {
        assert(lex_from(chars, i, line, column) == single(chars, i, line, column, TokenKindV::RBrace));
    } else if c == '[' {
        assert(lex_from(chars, i, line, column) == single(chars, i, line, column, TokenKindV::LBracket));
    } else if c == ']' {
        assert(lex_from(chars, i, line, column) == single(chars, i, line, column, TokenKindV::RBracket));
    } else if c == ',' {
        assert(lex_from(chars, i, line, column) == single(chars, i, line, column, TokenKindV::Comma));
    } else if c == ':' {
        assert(lex_from(chars, i, line, column) == single(chars, i, line, column, TokenKindV::Colon));
    } else if c == ';' {
        assert(lex_from(chars, i, line, column) == single(chars, i, line, column, TokenKindV::Semicolon));
    } else if c == '-' {
        assert(lex_from(chars, i, line, column) == pair(chars, i, line, column, '>', TokenKindV::Minus, TokenKindV::Arrow));
    } else if c == '=' {
        assert(lex_from(chars, i, line, column) == pair(chars, i, line, column, '=', TokenKindV::Equal, TokenKindV::EqualEqual));
    } else if c == '!' {
        assert(lex_from(chars, i, line, column) == pair(chars, i, line, column, '=', TokenKindV::Bang, TokenKindV::BangEqual));
    } else if c == '<' {
        assert(lex_from(chars, i, line, column) == pair(chars, i, line, column, '=', TokenKindV::Less, TokenKindV::LessEqual));
    } else if c == '>' {
        assert(lex_from(chars, i, line, column) == pair(chars, i, line, column, '=', TokenKindV::Greater, TokenKindV::GreaterEqual));
    }
}

/// A successful `tokenize` ends with the end-of-input token and holds no other.
pub proof fn law_tokenize_ends_with_eof(source: Seq<char>)
    ensures
        eof_terminated(spec_tokenize(source)),
{
    lemma_lex_ends_with_eof(source, 0, 1, 1);
}

// ---------------------------------------------------------------------------
// Implementation
// ---------------------------------------------------------------------------

pub proof fn lemma_prepend_assoc(a: Seq<TokenV>, b: Seq<TokenV>, r: Result<Seq<TokenV>, Seq<char>>)
    ensures
        prepend(a, prepend(b, r)) == prepend(a + b, r),
{
    if let Ok(ts) = r {
        assert(a + (b + ts) =~= (a + b) + ts);
    }
}

pub struct Lexer {
    chars: Vec<char>,
    current: usize,
    line: usize,
    column: usize,
}

/// A string of one character.
fn char_string(c: char) -> (r: String)
    ensures
        r@ == seq![c],
{
    let mut s = String::new();
    push_char(&mut s, c);
    assert(s@ =~= seq![c]);
    s
}

/// A string of two characters.
fn chars_string(c: char, d: char) -> (r: String)
    ensures
        r@ == seq![c, d],
{
    let mut s = String::new();
    push_char(&mut s, c);
    push_char(&mut s, d);
    assert(s@ =~= seq![c, d]);
    s
}

/// `line L, column C: message` as a string.
fn located_message(line: usize, column: usize, message: &str) -> (r: String)
    ensures
        r@ == located(line as nat, column as nat, message@),
{
    let mut s = owned("line ");
    push_usize(&mut s, line);
    push_str(&mut s, ", column ");
    push_usize(&mut s, column);
    push_str(&mut s, ": ");
    push_str(&mut s, message);
    assert(s@ =~= located(line as nat, column as nat, message@));
    s
}

impl Lexer {
    /// The whole input.
    pub closed spec fn source(&self) -> Seq<char> {
        self.chars@
    }

    /// The lexer is at the start of its input.
    pub closed spec fn at_start(&self) -> bool {
        self.current == 0 && self.line == 1 && self.column == 1
    }

    pub closed spec fn wf(&self) -> bool {
        &&& self.current <= self.chars.len()
        &&& 1 <= self.line <= self.current + 1
        &&& 1 <= self.column <= self.current + 1
        &&& self.chars.len() < usize::MAX
    }

    /// What lexing the rest of the input gives from the present state.
    pub closed spec fn rest(&self) -> Result<Seq<TokenV>, Seq<char>> {
        lex_from(self.chars@, self.current as int, self.line as nat, self.column as nat)
    }

    pub fn new(source: &str) -> (r: Self)
        ensures
            r.source() == source@,
            r.at_start(),
    {
        Self { chars: chars_of(source), current: 0, line: 1, column: 1 }
    }

    /// Splits the whole input into tokens, ending with the end-of-input token.
    pub fn tokenize(&mut self) -> (r: Result<Vec<Token>, String>)
        requires
            old(self).at_start(),
            old(self).source().len() < usize::MAX,
        ensures
            match r {
                Ok(ts) => spec_tokenize(old(self).source()) == Ok::<Seq<TokenV>, Seq<char>>(
                    tokens_view(ts@),
                ),
                Err(e) => spec_tokenize(old(self).source()) == Err::<Seq<TokenV>, Seq<char>>(e@),
            },
    {
        let mut tokens: Vec<Token> = Vec::new();
        assert(tokens_view(tokens@) =~= Seq::<TokenV>::empty());
        assert(prepend(Seq::<TokenV>::empty(), self.rest()) == self.rest()) by {
            if let Ok(ts) = self.rest() {
                assert(Seq::<TokenV>::empty() + ts =~= ts);
            }
        }
        while !self.is_at_end()
            invariant
                self.wf(),
                self.chars@ == old(self).chars@,
                spec_tokenize(self.chars@) == prepend(tokens_view(tokens@), self.rest()),
            decreases self.chars.len() - self.current,
        {
            let ghost before = tokens_view(tokens@);
            let ghost rest_before = self.rest();
            match self.lex_one() {
                Ok(Some(t)) => {
                    tokens.push(t);
                    proof {
                        assert(tokens_view(tokens@) =~= before + seq![t@]);
                        lemma_prepend_assoc(before, seq![t@], self.rest());
                    }
                },
                Ok(None) => {},
                Err(e) => {
                    return Err(e);
                },
            }
        }
        let eof = Token::new(TokenKind::Eof, String::new(), self.line, self.column);
        let ghost before = tokens_view(tokens@);
        tokens.push(eof);
        assert(tokens_view(tokens@) =~= before + seq![eof@]);
        assert(eof@ == tok(TokenKindV::Eof, Seq::empty(), self.line as nat, self.column as nat));
        Ok(tokens)
    }

    /// Lexes what starts at the current character: a token, or nothing for blank space and
    /// comments.
    fn lex_one(&mut self) -> (r: Result<Option<Token>, String>)
        requires
            old(self).wf(),
            old(self).current < old(self).chars.len(),
        ensures
            final(self).wf(),
            final(self).chars@ == old(self).chars@,
            final(self).current > old(self).current,
            match r {
                Ok(Some(t)) => old(self).rest() == prepend(seq![t@], final(self).rest()),
                Ok(None) => old(self).rest() == final(self).rest(),
                Err(e) => old(self).rest() == Err::<Seq<TokenV>, Seq<char>>(e@),
            },
    {
        let c = self.chars[self.current];
        if c == ' ' || c == '\r' || c == '\t' {
            self.advance();
            Ok(None)
        } else if c == '\n' {
            self.advance_newline();
            Ok(None)
        } else if c == '/' && self.peek_next() == '/' {
            self.skip_comment();
            Ok(None)
        } else if c == '"' {
            match self.string() {
                Ok(t) => Ok(Some(t)),
                Err(e) => Err(e),
            }
        } else if char_is_digit(c) {
            match self.number() {
                Ok(t) => Ok(Some(t)),
                Err(e) => Err(e),
            }
        } else if char_is_ident_start(c) {
            Ok(Some(self.identifier()))
        } else {
            self.operator()
        }
    }

    /// Lexes an operator or punctuation character, or reports an unexpected character.
    fn operator(&mut self) -> (r: Result<Option<Token>, String>)
        requires
            old(self).wf(),
            old(self).current < old(self).chars.len(),
            ({
                let c = old(self).chars@[old(self).current as int];
                &&& c != ' ' && c != '\r' && c != '\t' && c != '\n' && c != '"'
                &&& !is_digit(c) && !is_ident_start(c)
                &&& c == '/' ==> !(old(self).current + 1 < old(self).chars.len()
                    && old(self).chars@[old(self).current + 1] == '/')
            }),
        ensures
            final(self).wf(),
            final(self).chars@ == old(self).chars@,
            final(self).current > old(self).current,
            match r {
                Ok(Some(t)) => old(self).rest() == prepend(seq![t@], final(self).rest()),
                Ok(None) => false,
                Err(e) => old(self).rest() == Err::<Seq<TokenV>, Seq<char>>(e@),
            },
    {
        let c = self.chars[self.current];
        let line = self.line;
        let column = self.column;
        let kind = if c == '/' {
            TokenKind::Slash
        } else if c == '+' {
            TokenKind::Plus
        } else if c == '*' {
            TokenKind::Star
        } else if c == '(' {
            TokenKind::LParen
        } else if c == ')' {
            TokenKind::RParen
        } else if c == '{' {
            TokenKind::LBrace
        } else if c == '}' {
            TokenKind::RBrace
        } else if c == '[' {
            TokenKind::LBracket
        } else if c == ']' {
            TokenKind::RBracket
        } else if c == ',' {
            TokenKind::Comma
        } else if c == ':' {
            TokenKind::Colon
        } else if c == ';' {
            TokenKind::Semicolon
        } else {
            return self.compound();
        };
        let ghost i = self.current as int;
        assert(old(self).rest() == single(self.chars@, i, line as nat, column as nat, kind@));
        self.advance();
        Ok(Some(Token::new(kind, char_string(c), line, column)))
    }

    /// Lexes an operator that may take two characters, or reports an unexpected character.
    fn compound(&mut self) -> (r: Result<Option<Token>, String>)
        requires
            old(self).wf(),
            old(self).current < old(self).chars.len(),
            ({
                let c = old(self).chars@[old(self).current as int];
                &&& c != ' ' && c != '\r' && c != '\t' && c != '\n' && c != '"'
                &&& !is_digit(c) && !is_ident_start(c)
                &&& c != '/' && c != '+' && c != '*' && c != '(' && c != ')' && c != '{'
                &&& c != '}' && c != '[' && c != ']' && c != ',' && c != ':' && c != ';'
            }),
        ensures
            final(self).wf(),
            final(self).chars@ == old(self).chars@,
            final(self).current > old(self).current,
            match r {
                Ok(Some(t)) => old(self).rest() == prepend(seq![t@], final(self).rest()),
                Ok(None) => false,
                Err(e) => old(self).rest() == Err::<Seq<TokenV>, Seq<char>>(e@),
            },
    {
        let c = self.chars[self.current];
        let line = self.line;
        let column = self.column;
        let (second, short, long) = if c == '-' {
            ('>', TokenKind::Minus, TokenKind::Arrow)
        } else if c == '=' {
            ('=', TokenKind::Equal, TokenKind::EqualEqual)
        } else if c == '!' {
            ('=', TokenKind::Bang, TokenKind::BangEqual)
        } else if c == '<' {
            ('=', TokenKind::Less, TokenKind::LessEqual)
        } else if c == '>' {
            ('=', TokenKind::Greater, TokenKind::GreaterEqual)
        } else if c == '&' {
            self.advance();
            if self.match_char('&') {
                return Ok(Some(Token::new(TokenKind::AndAnd, chars_string('&', '&'), line, column)));
            } else {
                return Err(located_message(line, column, "Expected '&' after '&'. Use &&."));
            }
        } else if c == '|' {
            self.advance();
            if self.match_char('|') {
                return Ok(Some(Token::new(TokenKind::OrOr, chars_string('|', '|'), line, column)));
            } else {
                return Err(located_message(line, column, "Expected '|' after '|'. Use ||."));
            }
        } else {
            let mut message = owned("Unexpected character '");
            push_char(&mut message, c);
            push_str(&mut message, "'.");
            let e = located_message(line, column, message.as_str());
            assert(e@ == located(line as nat, column as nat, "Unexpected character '"@ + seq![c] + "'."@));
            self.advance();
            return Err(e);
        };
        let ghost i = self.current as int;
        assert(old(self).rest() == pair(self.chars@, i, line as nat, column as nat, second, short@, long@));
        self.advance();
        if self.match_char(second) {
            Ok(Some(Token::new(long, chars_string(c, second), line, column)))
        } else {
            Ok(Some(Token::new(short, char_string(c), line, column)))
        }
    }

    /// Lexes a string literal; the current character is the opening quote.
    fn string(&mut self) -> (r: Result<Token, String>)
        requires
            old(self).wf(),
            old(self).current < old(self).chars.len(),
            old(self).chars@[old(self).current as int] == '"',
        ensures
            final(self).wf(),
            final(self).chars@ == old(self).chars@,
            final(self).current > old(self).current,
            match r {
                Ok(t) => old(self).rest() == prepend(seq![t@], final(self).rest()),
                Err(e) => old(self).rest() == Err::<Seq<TokenV>, Seq<char>>(e@),
            },
    {
        let start = self.current;
        let start_line = self.line;
        let start_column = self.column;
        let ghost chars = self.chars@;
        assert(old(self).rest() == string_rest(chars, start as int, start_line as nat, start_column as nat));
        self.advance();
        let mut value = String::new();
        while !self.is_at_end()
            invariant
                self.wf(),
                self.chars@ == chars,
                chars == old(self).chars@,
                start == old(self).current,
                old(self).rest() == string_rest(chars, start as int, start_line as nat, start_column as nat),
                self.current > start,
                start_line <= self.line,
                scan_string(chars, start + 1, start_line as nat, (start_column + 1) as nat, Seq::empty())
                    == scan_string(chars, self.current as int, self.line as nat, self.column as nat, value@),
            decreases self.chars.len() - self.current,
        {
            let c = self.chars[self.current];
            let ghost cur = self.current as int;
            let ghost cl = self.line as nat;
            let ghost cc = self.column as nat;
            if c == '"' {
                assert(scan_string(chars, cur, cl, cc, value@) == StrScan::Closed { value: value@, pos: cur + 1, line: cl, column: cc + 1 });
                self.advance();
                let lexeme = value.clone();
                let t = Token::new(TokenKind::Str(value), lexeme, start_line, start_column);
                assert(scan_string(chars, start + 1, start_line as nat, (start_column + 1) as nat, Seq::empty()) == StrScan::Closed { value: value@, pos: cur + 1, line: cl, column: cc + 1 });
                assert(t@ == tok(TokenKindV::Str(value@), value@, start_line as nat, start_column as nat));
                assert(self.rest() == lex_from(chars, cur + 1, cl, cc + 1));
                return Ok(t);
            }
            if c == '\\' {
                self.advance();
                if self.is_at_end() {
                    assert(scan_string(chars, cur, cl, cc, value@) == StrScan::BadEscape);
                    return Err(located_message(start_line, start_column, "Unterminated escape sequence."));
                }
                let escaped = self.chars[self.current];
                let u = if escaped == 'n' {
                    '\n'
                } else if escaped == 't' {
                    '\t'
                } else if escaped == 'r' {
                    '\r'
                } else {
                    escaped
                };
                push_char(&mut value, u);
                self.advance();
            } else if c == '\n' {
                push_char(&mut value, '\n');
                self.advance_newline();
            } else {
                push_char(&mut value, c);
                self.advance();
            }
        }
        Err(located_message(start_line, start_column, "Unterminated string."))
    }

    /// Lexes an integer literal; the current character is a digit.
    fn number(&mut self) -> (r: Result<Token, String>)
        requires
            old(self).wf(),
            old(self).current < old(self).chars.len(),
            is_digit(old(self).chars@[old(self).current as int]),
        ensures
            final(self).wf(),
            final(self).chars@ == old(self).chars@,
            final(self).current > old(self).current,
            match r {
                Ok(t) => old(self).rest() == prepend(seq![t@], final(self).rest()),
                Err(e) => old(self).rest() == Err::<Seq<TokenV>, Seq<char>>(e@),
            },
    {
        let start = self.current;
        let start_line = self.line;
        let start_column = self.column;
        let ghost chars = self.chars@;
        let mut value: i64 = 0;
        let mut overflow = false;
        while self.current < self.chars.len() && char_is_digit(self.chars[self.current])
            invariant
                self.wf(),
                self.chars@ == chars,
                start <= self.current,
                self.line == start_line,
                self.column == start_column + (self.current - start),
                is_digit(chars[start as int]),
                forall|k: int| start <= k < self.current ==> is_digit(#[trigger] chars[k]),
                digits_end(chars, start as int) == digits_end(chars, self.current as int),
                overflow ==> digits_value(chars.subrange(start as int, self.current as int)) > i64::MAX,
                !overflow ==> value == digits_value(chars.subrange(start as int, self.current as int)),
            decreases self.chars.len() - self.current,
        {
            let d = self.chars[self.current];
            let ghost prev = chars.subrange(start as int, self.current as int);
            let digit: i64 = if d == '0' { 0 } else if d == '1' { 1 } else if d == '2' { 2 }
                else if d == '3' { 3 } else if d == '4' { 4 } else if d == '5' { 5 }
                else if d == '6' { 6 } else if d == '7' { 7 } else if d == '8' { 8 } else { 9 };
            assert(digit == digit_value(d));
            self.advance();
            let ghost next = chars.subrange(start as int, self.current as int);
            assert(next.drop_last() =~= prev);
            assert(next.last() == d);
            if !overflow {
                if value > (i64::MAX - digit) / 10 {
                    overflow = true;
                } else {
                    value = value * 10 + digit;
                }
            } else {
                assert(digits_value(next) >= digits_value(prev));
            }
        }
        let digits = string_from_range(&self.chars, start, self.current);
        if overflow {
            let mut message = owned("Invalid integer '");
            push_str(&mut message, digits.as_str());
            push_str(&mut message, "': number too large to fit in target type");
            let e = located_message(start_line, start_column, message.as_str());
            assert(e@ == located(start_line as nat, start_column as nat, "Invalid integer '"@ + digits@
                + "': number too large to fit in target type"@));
            return Err(e);
        }
        Ok(Token::new(TokenKind::Int(value), digits, start_line, start_column))
    }

    /// Lexes an identifier, keyword, boolean or type name; the current character starts one.
    fn identifier(&mut self) -> (t: Token)
        requires
            old(self).wf(),
            old(self).current < old(self).chars.len(),
            is_ident_start(old(self).chars@[old(self).current as int]),
        ensures
            final(self).wf(),
            final(self).chars@ == old(self).chars@,
            final(self).current > old(self).current,
            old(self).rest() == prepend(seq![t@], final(self).rest()),
    {
        let start = self.current;
        let start_line = self.line;
        let start_column = self.column;
        let ghost chars = self.chars@;
        while self.current < self.chars.len() && char_is_ident_part(self.chars[self.current])
            invariant
                self.wf(),
                self.chars@ == chars,
                start <= self.current,
                self.line == start_line,
                self.column == start_column + (self.current - start),
                is_ident_start(chars[start as int]),
                ident_end(chars, start as int) == ident_end(chars, self.current as int),
            decreases self.chars.len() - self.current,
        {
            self.advance();
        }
        let value = string_from_range(&self.chars, start, self.current);
        let kind = word_token(&value);
        Token::new(kind, value, start_line, start_column)
    }

    /// Skips a line comment up to (not including) the newline.
    fn skip_comment(&mut self)
        requires
            old(self).wf(),
            old(self).current + 1 < old(self).chars.len(),
            old(self).chars@[old(self).current as int] == '/',
            old(self).chars@[old(self).current + 1] == '/',
        ensures
            final(self).wf(),
            final(self).chars@ == old(self).chars@,
            final(self).current > old(self).current,
            old(self).rest() == final(self).rest(),
    {
        let start = self.current;
        let start_column = self.column;
        let ghost chars = self.chars@;
        self.advance();
        while !self.is_at_end() && self.chars[self.current] != '\n'
            invariant
                self.wf(),
                self.chars@ == chars,
                start < self.current,
                self.line == old(self).line,
                self.column == start_column + (self.current - start),
                comment_end(chars, start as int) == comment_end(chars, self.current as int),
            decreases self.chars.len() - self.current,
        {
            self.advance();
        }
    }

    fn advance(&mut self)
        requires
            old(self).wf(),
            old(self).current < old(self).chars.len(),
        ensures
            final(self).wf(),
            final(self).chars == old(self).chars,
            final(self).current == old(self).current + 1,
            final(self).line == old(self).line,
            final(self).column == old(self).column + 1,
    {
        self.current += 1;
        self.column += 1;
    }

    fn advance_newline(&mut self)
        requires
            old(self).wf(),
            old(self).current < old(self).chars.len(),
        ensures
            final(self).wf(),
            final(self).chars == old(self).chars,
            final(self).current == old(self).current + 1,
            final(self).line == old(self).line + 1,
            final(self).column == 1,
    {
        self.current += 1;
        self.line += 1;
        self.column = 1;
    }

    fn match_char(&mut self, expected: char) -> (r: bool)
        requires
            old(self).wf(),
        ensures
            final(self).wf(),
            final(self).chars == old(self).chars,
            r == (old(self).current < old(self).chars.len()
                && old(self).chars@[old(self).current as int] == expected),
            r ==> final(self).current == old(self).current + 1 && final(self).column == old(self).column + 1,
            !r ==> final(self).current == old(self).current && final(self).column == old(self).column,
            final(self).line == old(self).line,
    {
        if self.is_at_end() {
            return false;
        }
        if self.chars[self.current] != expected {
            return false;
        }
        self.advance();
        true
    }

    fn peek_next(&self) -> (c: char)
        requires
            self.wf(),
        ensures
            self.current + 1 < self.chars.len() ==> c == self.chars@[self.current + 1],
            self.current + 1 >= self.chars.len() ==> c == '\0',
    {
        if self.current + 1 >= self.chars.len() {
            '\0'
        } else {
            self.chars[self.current + 1]
        }
    }

    fn is_at_end(&self) -> (r: bool)
        ensures
            r == (self.current >= self.chars.len()),
    {
        self.current >= self.chars.len()
    }
}

/// The token kind of a word.
fn word_token(value: &String) -> (k: TokenKind)
    ensures
        k@ == word_kind(value@),
{
    if is_text(value, "pub") {
        TokenKind::Pub
    } else if is_text(value, "fcn") {
        TokenKind::Fcn
    } else if is_text(value, "return") {
        TokenKind::Return
    } else if is_text(value, "if") {
        TokenKind::If
    } else if is_text(value, "else") {
        TokenKind::Else
    } else if is_text(value, "while") {
        TokenKind::While
    } else if is_text(value, "for") {
        TokenKind::For
    } else if is_text(value, "in") {
        TokenKind::In
    } else if is_text(value, "break") {
        TokenKind::Break
    } else if is_text(value, "continue") {
        TokenKind::Continue
    } else if is_text(value, "use") {
        TokenKind::Use
    } else if is_text(value, "true") {
        TokenKind::Bool(true)
    } else if is_text(value, "false") {
        TokenKind::Bool(false)
    } else if is_text(value, "cre_int") || is_text(value, "cre_str") || is_text(value, "cre_bool")
        || is_text(value, "cre_arr") || is_text(value, "cre_dict") {
        TokenKind::Type(value.clone())
    } else {
        TokenKind::Ident(value.clone())
    }
}

pub fn is_identifier_start(value: char) -> (r: bool)
    ensures
        r == is_ident_start(value),
{
    char_is_ident_start(value)
}

pub fn is_identifier_part(value: char) -> (r: bool)
    ensures
        r == is_ident_part(value),
{
    char_is_ident_part(value)
}

} // verus!
