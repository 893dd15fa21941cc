//! Appending a line comment to a source text that lexes leaves its tokens as they were.
use vstd::prelude::*;
use crate::lexer::{
    StrScan, unescape, comment_end, digits_end, ident_end, lemma_comment_end_bounds,
    lemma_digits_end_bounds, lemma_ident_end_bounds, lemma_scan_string_bounds, lex_from,
    scan_string, spec_tokenize, tok,
};
use crate::text::{has_char, is_digit, is_ident_part};
use crate::token::{TokenKindV, TokenV};

verus! {

/// A space, `//`, and a note without a newline: a line comment at the end of a text.
pub open spec fn line_comment(note: Seq<char>) -> Seq<char> {
    seq![' ', '/', '/'] + note
}

/// The same tokens, but for where the end-of-input token stands.
pub open spec fn same_tokens(a: Seq<TokenV>, b: Seq<TokenV>) -> bool {
    &&& a.len() > 0
    &&& b.len() == a.len()
    &&& b.drop_last() == a.drop_last()
    &&& b.last().kind == a.last().kind
}

/// The tokens of `a` and `b` are the same when `a` lexes.
pub open spec fn lexes_alike(a: Result<Seq<TokenV>, Seq<char>>, b: Result<Seq<TokenV>, Seq<char>>) -> bool {
    a matches Ok(ts) ==> (b matches Ok(ts2) && same_tokens(ts, ts2))
}

proof fn lemma_comment_end_ext(c: Seq<char>, t: Seq<char>, i: int)
    requires
        0 <= i <= c.len(),
        !has_char(t, '\n'),
    ensures
        comment_end(c, i) < c.len() ==> comment_end(c + t, i) == comment_end(c, i),
        comment_end(c, i) == c.len() ==> comment_end(c + t, i) == c.len() + t.len(),
    decreases c.len() + t.len() - i,
{
    let c2 = c + t;
    if i < c.len() {
        assert(c2[i] == c[i]);
        if c[i] != '\n' {
            lemma_comment_end_ext(c, t, i + 1);
        }
    } else {
        lemma_comment_tail(c2, i);
    }
}

proof fn lemma_comment_tail(s: Seq<char>, i: int)
    requires
        0 <= i <= s.len(),
        forall|k: int| i <= k < s.len() ==> s[k] != '\n',
    ensures
        comment_end(s, i) == s.len(),
    decreases s.len() - i,
{
    if i < s.len() {
        lemma_comment_tail(s, i + 1);
    }
}

proof fn lemma_ident_end_ext(c: Seq<char>, t: Seq<char>, i: int)
    requires
        0 <= i <= c.len(),
        t.len() > 0,
        !is_ident_part(t[0]),
        !is_digit(t[0]),
    ensures
        ident_end(c + t, i) == ident_end(c, i),
        digits_end(c + t, i) == digits_end(c, i),
    decreases c.len() - i,
{
    let c2 = c + t;
    if i < c.len() {
        assert(c2[i] == c[i]);
        lemma_ident_end_ext(c, t, i + 1);
    } else {
        assert(c2[i] == t[0]);
    }
}

proof fn lemma_scan_ext(c: Seq<char>, t: Seq<char>, i: int, line: nat, column: nat, acc: Seq<char>)
    ensures
        scan_string(c, i, line, column, acc) is Closed ==> scan_string(c + t, i, line, column, acc)
            == scan_string(c, i, line, column, acc),
    decreases c.len() - i,
{
    let c2 = c + t;
    if 0 <= i < c.len() {
        assert(c2[i] == c[i]);
        if c[i] == '\\' {
            if i + 1 < c.len() {
                assert(c2[i + 1] == c[i + 1]);
                lemma_scan_ext(c, t, i + 2, line, column + 2, acc.push(crate::lexer::unescape(c[i + 1])));
            }
        } else if c[i] == '\n' {
            lemma_scan_ext(c, t, i + 1, line + 1, 1, acc.push('\n'));
        } else if c[i] != '"' {
            lemma_scan_ext(c, t, i + 1, line, column + 1, acc.push(c[i]));
        }
    }
}

proof fn lemma_prepend_alike(pre: Seq<TokenV>, a: Result<Seq<TokenV>, Seq<char>>, b: Result<Seq<TokenV>, Seq<char>>)
    requires
        lexes_alike(a, b),
    ensures
        lexes_alike(crate::lexer::prepend(pre, a), crate::lexer::prepend(pre, b)),
{
    if let Ok(ts) = a {
        let ts2 = b->Ok_0;
        assert((pre + ts2).drop_last() =~= pre + ts2.drop_last());
        assert((pre + ts).drop_last() =~= pre + ts.drop_last());
    }
}

proof fn lemma_end_alike(c: Seq<char>, note: Seq<char>, line: nat, column: nat, col2: nat)
    requires
        !has_char(note, '\n'),
    ensures
        lexes_alike(
            lex_from(c, c.len() as int, line, column),
            lex_from(c + line_comment(note), c.len() as int, line, col2),
        ),
{
    let t = line_comment(note);
    let c2 = c + t;
    let n = c.len() as int;
    assert(c2[n] == ' ');
    assert(c2[n + 1] == '/');
    assert(c2[n + 2] == '/');
    assert forall|k: int| n + 1 <= k < c2.len() implies c2[k] != '\n' by {
        if k >= n + 3 {
            assert(c2[k] == note[k - n - 3]);
        }
    }
    lemma_comment_tail(c2, n + 1);
    lemma_comment_end_bounds(c2, n + 2);
    let e = (col2 + 1 + (c2.len() - (n + 1))) as nat;
    let r = lex_from(c2, n + 1, line, col2 + 1);
    assert(r == lex_from(c2, c2.len() as int, line, e));
    assert(lex_from(c2, n, line, col2) == r);
    let ts = seq![tok(TokenKindV::Eof, Seq::empty(), line, column)];
    let ts2 = seq![tok(TokenKindV::Eof, Seq::empty(), line, e)];
    assert(lex_from(c, n, line, column) == Ok::<Seq<TokenV>, Seq<char>>(ts));
    assert(r == Ok::<Seq<TokenV>, Seq<char>>(ts2));
    assert(ts.drop_last() =~= ts2.drop_last());
}

proof fn lemma_lex_ext(c: Seq<char>, note: Seq<char>, i: int, line: nat, column: nat)
    requires
        0 <= i <= c.len(),
        !has_char(note, '\n'),
    ensures
        lexes_alike(lex_from(c, i, line, column), lex_from(c + line_comment(note), i, line, column)),
    decreases c.len() - i, 1int,
{
    let t = line_comment(note);
    let c2 = c + t;
    let n = c.len() as int;
    assert(c2[n] == ' ');
    assert(!has_char(t, '\n')) by {
        assert forall|k: int| 0 <= k < t.len() implies t[k] != '\n' by {
            if k >= 3 {
                assert(t[k] == note[k - 3]);
            }
        }
    }
    if i == n {
        lemma_end_alike(c, note, line, column, column);
        return;
    }
    let ch = c[i];
    assert(c2[i] == ch);
    if i + 1 < n {
        assert(c2[i + 1] == c[i + 1]);
    } else {
        assert(c2[i + 1] == ' ');
    }
    if ch == ' ' || ch == '\r' || ch == '\t' {
        lemma_lex_ext(c, note, i + 1, line, column + 1);
        assert(lexes_alike(lex_from(c, i, line, column), lex_from(c2, i, line, column)));
    } else if ch == '\n' {
        lemma_lex_ext(c, note, i + 1, line + 1, 1);
        assert(lexes_alike(lex_from(c, i, line, column), lex_from(c2, i, line, column)));
    } else if ch == '/' && i + 1 < n && c[i + 1] == '/' {
        lemma_comment_end_ext(c, t, i);
        lemma_comment_end_bounds(c, i + 1);
        let j = comment_end(c, i);
        if j < n {
            lemma_lex_ext(c, note, j, line, (column + (j - i)) as nat);
        } else {
            lemma_comment_end_bounds(c2, i + 1);
            let j2 = comment_end(c2, i);
            assert(j2 == c2.len());
            let ts = seq![tok(TokenKindV::Eof, Seq::empty(), line, (column + (j - i)) as nat)];
            let ts2 = seq![tok(TokenKindV::Eof, Seq::empty(), line, (column + (j2 - i)) as nat)];
            assert(lex_from(c, j, line, (column + (j - i)) as nat) == Ok::<Seq<TokenV>, Seq<char>>(ts));
            assert(lex_from(c2, j2, line, (column + (j2 - i)) as nat) == Ok::<Seq<TokenV>, Seq<char>>(ts2));
            assert(lex_from(c, i, line, column) == Ok::<Seq<TokenV>, Seq<char>>(ts));
            assert(lex_from(c2, i, line, column) == Ok::<Seq<TokenV>, Seq<char>>(ts2));
            assert(ts.drop_last() =~= ts2.drop_last());
        }
        assert(lexes_alike(lex_from(c, i, line, column), lex_from(c2, i, line, column)));
    } else if ch == '"' {
        lemma_scan_ext(c, t, i + 1, line, column + 1, Seq::empty());
        lemma_scan_string_bounds(c, i + 1, line, column + 1, Seq::empty());
        if let StrScan::Closed { value, pos, line: l2, column: c2c } = scan_string(c, i + 1, line, column + 1, Seq::empty()) {
            lemma_lex_ext(c, note, pos, l2, c2c);
            lemma_prepend_alike(
                seq![tok(TokenKindV::Str(value), value, line, column)],
                lex_from(c, pos, l2, c2c),
                lex_from(c2, pos, l2, c2c),
            );
        }
        assert(lexes_alike(lex_from(c, i, line, column), lex_from(c2, i, line, column)));
    } else if is_digit(ch) {
        lemma_ident_end_ext(c, t, i);
        lemma_digits_end_bounds(c, i + 1);
        let j = digits_end(c, i);
        assert(c2.subrange(i, j) =~= c.subrange(i, j));
        lemma_lex_ext(c, note, j, line, (column + (j - i)) as nat);
        let digits = c.subrange(i, j);
        let pre = seq![tok(TokenKindV::Int(crate::lexer::digits_value(digits) as i64), digits, line, column)];
        if crate::lexer::digits_value(digits) <= i64::MAX {
            assert(lex_from(c, i, line, column) == crate::lexer::prepend(pre, lex_from(c, j, line, (column + (j - i)) as nat)));
            assert(lex_from(c2, i, line, column) == crate::lexer::prepend(pre, lex_from(c2, j, line, (column + (j - i)) as nat)));
            lemma_prepend_alike(
                pre,
                lex_from(c, j, line, (column + (j - i)) as nat),
                lex_from(c2, j, line, (column + (j - i)) as nat),
            );
        } else {
            assert(lex_from(c, i, line, column) is Err);
        }
        assert(lexes_alike(lex_from(c, i, line, column), lex_from(c2, i, line, column)));
    } else if crate::text::is_ident_start(ch) {
        lemma_ident_end_ext(c, t, i);
        lemma_ident_end_bounds(c, i + 1);
        let j = ident_end(c, i);
        assert(c2.subrange(i, j) =~= c.subrange(i, j));
        lemma_lex_ext(c, note, j, line, (column + (j - i)) as nat);
        let word = c.subrange(i, j);
        lemma_prepend_alike(
            seq![tok(crate::lexer::word_kind(word), word, line, column)],
            lex_from(c, j, line, (column + (j - i)) as nat),
            lex_from(c2, j, line, (column + (j - i)) as nat),
        );
    } else {
        if ch == '/' {
            lemma_single_alike(c, note, i, line, column, TokenKindV::Slash);
        } else if ch == '+' {
            lemma_single_alike(c, note, i, line, column, TokenKindV::Plus);
        } else if ch == '-' {
            lemma_pair_alike(c, note, i, line, column, '>', TokenKindV::Minus, TokenKindV::Arrow);
        } else if ch == '*' {
            lemma_single_alike(c, note, i, line, column, TokenKindV::Star);
        } else if ch == '=' {
            lemma_pair_alike(c, note, i, line, column, '=', TokenKindV::Equal, TokenKindV::EqualEqual);
        } else if ch == '!' {
            lemma_pair_alike(c, note, i, line, column, '=', TokenKindV::Bang, TokenKindV::BangEqual);
        } else if ch == '<' {
            lemma_pair_alike(c, note, i, line, column, '=', TokenKindV::Less, TokenKindV::LessEqual);
        } else if ch == '>' {
            lemma_pair_alike(c, note, i, line, column, '=', TokenKindV::Greater, TokenKindV::GreaterEqual);
        } else if ch == '&' || ch == '|' {
            if i + 1 < n {
                lemma_lex_ext(c, note, i + 2, line, column + 2);
                let kind = if ch == '&' { TokenKindV::AndAnd } else { TokenKindV::OrOr };
                lemma_prepend_alike(
                    seq![tok(kind, seq![ch, ch], line, column)],
                    lex_from(c, i + 2, line, column + 2),
                    lex_from(c + t, i + 2, line, column + 2),
                );
            }
        } else if ch == '(' {
            lemma_single_alike(c, note, i, line, column, TokenKindV::LParen);
        } else if ch == ')' {
            lemma_single_alike(c, note, i, line, column, TokenKindV::RParen);
        } else if ch == '{' {
            lemma_single_alike(c, note, i, line, column, TokenKindV::LBrace);
        } else if ch == '}' {
            lemma_single_alike(c, note, i, line, column, TokenKindV::RBrace);
        } else if ch == '[' {
            lemma_single_alike(c, note, i, line, column, TokenKindV::LBracket);
        } else if ch == ']' {
            lemma_single_alike(c, note, i, line, column, TokenKindV::RBracket);
        } else if ch == ',' {
            lemma_single_alike(c, note, i, line, column, TokenKindV::Comma);
        } else if ch == ':' {
            lemma_single_alike(c, note, i, line, column, TokenKindV::Colon);
        } else if ch == ';' {
            lemma_single_alike(c, note, i, line, column, TokenKindV::Semicolon);
        }
    }
}

proof fn lemma_single_alike(c: Seq<char>, note: Seq<char>, i: int, line: nat, column: nat, kind: TokenKindV)
    requires
        0 <= i < c.len(),
        !has_char(note, '\n'),
    ensures
        lexes_alike(
            crate::lexer::single(c, i, line, column, kind),
            crate::lexer::single(c + line_comment(note), i, line, column, kind),
        ),
    decreases c.len() - i, 0int,
{
    let c2 = c + line_comment(note);
    assert(c2[i] == c[i]);
    lemma_lex_ext(c, note, i + 1, line, column + 1);
    lemma_prepend_alike(
        seq![tok(kind, seq![c[i]], line, column)],
        lex_from(c, i + 1, line, column + 1),
        lex_from(c2, i + 1, line, column + 1),
    );
}

proof fn lemma_pair_alike(
    c: Seq<char>,
    note: Seq<char>,
    i: int,
    line: nat,
    column: nat,
    second: char,
    short: TokenKindV,
    long: TokenKindV,
)
    requires
        0 <= i < c.len(),
        !has_char(note, '\n'),
        second != ' ',
    ensures
        lexes_alike(
            crate::lexer::pair(c, i, line, column, second, short, long),
            crate::lexer::pair(c + line_comment(note), i, line, column, second, short, long),
        ),
    decreases c.len() - i, 0int,
{
    let c2 = c + line_comment(note);
    assert(c2[i] == c[i]);
    if i + 1 < c.len() {
        assert(c2[i + 1] == c[i + 1]);
    } else {
        assert(c2[i + 1] == ' ');
    }
    if i + 1 < c.len() && c[i + 1] == second {
        lemma_lex_ext(c, note, i + 2, line, column + 2);
        lemma_prepend_alike(
            seq![tok(long, seq![c[i], second], line, column)],
            lex_from(c, i + 2, line, column + 2),
            lex_from(c2, i + 2, line, column + 2),
        );
    } else {
        lemma_lex_ext(c, note, i + 1, line, column + 1);
        lemma_prepend_alike(
            seq![tok(short, seq![c[i]], line, column)],
            lex_from(c, i + 1, line, column + 1),
            lex_from(c2, i + 1, line, column + 1),
        );
    }
}

/// Appending a line comment to a source text that lexes adds no token and no error: the
/// tokens are the same, but for the position of the end-of-input token.
pub proof fn law_trailing_comment_keeps_tokens(source: Seq<char>, note: Seq<char>)
    requires
        !has_char(note, '\n'),
    ensures
        lexes_alike(spec_tokenize(source), spec_tokenize(source + line_comment(note))),
{
    lemma_lex_ext(source, note, 0, 1, 1);
}

/// How a character is written inside a string literal: a newline, tab, carriage return,
/// quote or backslash as an escape (`\n`, `\t`, `\r`, `\"`, `\\`), any other as itself.
pub open spec fn escape_char(c: char) -> Seq<char> {
    if c == '\n' {
        seq!['\\', 'n']
    } else if c == '\t' {
        seq!['\\', 't']
    } else if c == '\r' {
        seq!['\\', 'r']
    } else if c == '"' {
        seq!['\\', '"']
    } else if c == '\\' {
        seq!['\\', '\\']
    } else {
        seq![c]
    }
}

/// A text written with escapes, character by character.
pub open spec fn escaped(w: Seq<char>) -> Seq<char>
    decreases w.len(),
{
    if w.len() == 0 {
        Seq::empty()
    } else {
        escape_char(w[0]) + escaped(w.drop_first())
    }
}

proof fn lemma_scan_escaped(c: Seq<char>, i: int, w: Seq<char>, line: nat, column: nat, acc: Seq<char>)
    requires
        0 <= i,
        i + escaped(w).len() < c.len(),
        c.subrange(i, i + escaped(w).len()) == escaped(w),
        c[i + escaped(w).len()] == '"',
    ensures
        scan_string(c, i, line, column, acc) matches StrScan::Closed { value, pos, .. } && value == acc + w
            && pos == i + escaped(w).len() + 1,
    decreases w.len(),
{
    if w.len() == 0 {
        assert(acc + w =~= acc);
    } else {
        let e = escape_char(w[0]);
        let rest = w.drop_first();
        let k = e.len() as int;
        assert(escaped(w) == e + escaped(rest));
        assert(c[i] == escaped(w)[0]);
        assert(c.subrange(i + k, i + k + escaped(rest).len()) =~= escaped(rest)) by {
            assert forall|j: int| 0 <= j < escaped(rest).len() implies c[i + k + j] == escaped(rest)[j] by {
                assert(c.subrange(i, i + escaped(w).len())[k + j] == escaped(w)[k + j]);
            }
        }
        assert(acc.push(w[0]) + rest =~= acc + w);
        if k == 2 {
            assert(c[i + 1] == escaped(w)[1]);
            assert(c[i] == '\\');
            assert(unescape(e[1]) == w[0]);
            lemma_scan_escaped(c, i + 2, rest, line, column + 2, acc.push(w[0]));
        } else {
            assert(c[i] == w[0]);
            if w[0] == '\n' {
                assert(false);
            }
            lemma_scan_escaped(c, i + 1, rest, line, column + 1, acc.push(w[0]));
        }
    }
}

/// A string literal written with escapes lexes to one string token holding exactly the
/// text: each escape `\n`, `\t`, `\r`, `\"`, `\\` stands for its character.
pub proof fn law_string_literal_escapes(w: Seq<char>)
    ensures
        spec_tokenize(seq!['"'] + escaped(w) + seq!['"']) matches Ok(ts) && ts.len() == 2
            && ts[0].kind == TokenKindV::Str(w) && ts[0].lexeme == w && ts[1].kind == TokenKindV::Eof,
{
    let c = seq!['"'] + escaped(w) + seq!['"'];
    let n = escaped(w).len() as int;
    assert(c.subrange(1, 1 + n) =~= escaped(w));
    assert(c[1 + n] == '"');
    assert(c[0] == '"');
    lemma_scan_escaped(c, 1, w, 1, 2, Seq::empty());
    assert(Seq::<char>::empty() + w =~= w);
    if let StrScan::Closed { value, pos, line: l2, column: c2 } = scan_string(c, 1, 1, 2, Seq::empty()) {
        assert(pos == c.len());
        let end = lex_from(c, pos, l2, c2);
        assert(end == Ok::<Seq<TokenV>, Seq<char>>(seq![tok(TokenKindV::Eof, Seq::empty(), l2, c2)]));
        assert(lex_from(c, 0, 1, 1) == crate::lexer::prepend(
            seq![tok(TokenKindV::Str(value), value, 1, 1)],
            end,
        ));
    }
}

/// How each operator and punctuation token is written.
pub open spec fn spelling(k: TokenKindV) -> Seq<char> {
    match k {
        TokenKindV::Plus => seq!['+'],
        TokenKindV::Minus => seq!['-'],
        TokenKindV::Star => seq!['*'],
        TokenKindV::Slash => seq!['/'],
        TokenKindV::Equal => seq!['='],
        TokenKindV::EqualEqual => seq!['=', '='],
        TokenKindV::Bang => seq!['!'],
        TokenKindV::BangEqual => seq!['!', '='],
        TokenKindV::Less => seq!['<'],
        TokenKindV::LessEqual => seq!['<', '='],
        TokenKindV::Greater => seq!['>'],
        TokenKindV::GreaterEqual => seq!['>', '='],
        TokenKindV::AndAnd => seq!['&', '&'],
        TokenKindV::OrOr => seq!['|', '|'],
        TokenKindV::Arrow => seq!['-', '>'],
        TokenKindV::LParen => seq!['('],
        TokenKindV::RParen => seq![')'],
        TokenKindV::LBrace => seq!['{'],
        TokenKindV::RBrace => seq!['}'],
        TokenKindV::LBracket => seq!['['],
        TokenKindV::RBracket => seq![']'],
        TokenKindV::Comma => seq![','],
        TokenKindV::Colon => seq![':'],
        TokenKindV::Semicolon => seq![';'],
        _ => Seq::empty(),
    }
}

/// Each operator and punctuation mark, written alone, lexes to its own token followed by
/// the end of input: `>=` is `GreaterEqual`, `>` is `Greater`, `->` is `Arrow`, and so on.
pub proof fn law_operator_tokens(k: TokenKindV)
    requires
        spelling(k).len() > 0,
    ensures
        spec_tokenize(spelling(k)) matches Ok(ts) && ts.len() == 2 && ts[0].kind == k
            && ts[0].lexeme == spelling(k) && ts[1].kind == TokenKindV::Eof,
{
    let s = spelling(k);
    match k {
        TokenKindV::Plus => {
            assert(lex_from(s, 0, 1, 1) == crate::lexer::single(s, 0, 1, 1, TokenKindV::Plus));
            assert(lex_from(s, 1, 1, 2) == Ok::<Seq<TokenV>, Seq<char>>(seq![tok(TokenKindV::Eof, Seq::empty(), 1, 2)]));
        },
        TokenKindV::Star => {
            assert(lex_from(s, 0, 1, 1) == crate::lexer::single(s, 0, 1, 1, TokenKindV::Star));
            assert(lex_from(s, 1, 1, 2) == Ok::<Seq<TokenV>, Seq<char>>(seq![tok(TokenKindV::Eof, Seq::empty(), 1, 2)]));
        },
        TokenKindV::Slash => {
            assert(lex_from(s, 0, 1, 1) == crate::lexer::single(s, 0, 1, 1, TokenKindV::Slash));
            assert(lex_from(s, 1, 1, 2) == Ok::<Seq<TokenV>, Seq<char>>(seq![tok(TokenKindV::Eof, Seq::empty(), 1, 2)]));
        },
        TokenKindV::LParen => {
            assert(lex_from(s, 0, 1, 1) == crate::lexer::single(s, 0, 1, 1, TokenKindV::LParen));
            assert(lex_from(s, 1, 1, 2) == Ok::<Seq<TokenV>, Seq<char>>(seq![tok(TokenKindV::Eof, Seq::empty(), 1, 2)]));
        },
        TokenKindV::RParen => {
            assert(lex_from(s, 0, 1, 1) == crate::lexer::single(s, 0, 1, 1, TokenKindV::RParen));
            assert(lex_from(s, 1, 1, 2) == Ok::<Seq<TokenV>, Seq<char>>(seq![tok(TokenKindV::Eof, Seq::empty(), 1, 2)]));
        },
        TokenKindV::LBrace => {
            assert(lex_from(s, 0, 1, 1) == crate::lexer::single(s, 0, 1, 1, TokenKindV::LBrace));
            assert(lex_from(s, 1, 1, 2) == Ok::<Seq<TokenV>, Seq<char>>(seq![tok(TokenKindV::Eof, Seq::empty(), 1, 2)]));
        },
        TokenKindV::RBrace => {
            assert(lex_from(s, 0, 1, 1) == crate::lexer::single(s, 0, 1, 1, TokenKindV::RBrace));
            assert(lex_from(s, 1, 1, 2) == Ok::<Seq<TokenV>, Seq<char>>(seq![tok(TokenKindV::Eof, Seq::empty(), 1, 2)]));
        },
        TokenKindV::LBracket => {
            assert(lex_from(s, 0, 1, 1) == crate::lexer::single(s, 0, 1, 1, TokenKindV::LBracket));
            assert(lex_from(s, 1, 1, 2) == Ok::<Seq<TokenV>, Seq<char>>(seq![tok(TokenKindV::Eof, Seq::empty(), 1, 2)]));
        },
        TokenKindV::RBracket => {
            assert(lex_from(s, 0, 1, 1) == crate::lexer::single(s, 0, 1, 1, TokenKindV::RBracket));
            assert(lex_from(s, 1, 1, 2) == Ok::<Seq<TokenV>, Seq<char>>(seq![tok(TokenKindV::Eof, Seq::empty(), 1, 2)]));
        },
        TokenKindV::Comma => {
            assert(lex_from(s, 0, 1, 1) == crate::lexer::single(s, 0, 1, 1, TokenKindV::Comma));
            assert(lex_from(s, 1, 1, 2) == Ok::<Seq<TokenV>, Seq<char>>(seq![tok(TokenKindV::Eof, Seq::empty(), 1, 2)]));
        },
        TokenKindV::Colon => {
            assert(lex_from(s, 0, 1, 1) == crate::lexer::single(s, 0, 1, 1, TokenKindV::Colon));
            assert(lex_from(s, 1, 1, 2) == Ok::<Seq<TokenV>, Seq<char>>(seq![tok(TokenKindV::Eof, Seq::empty(), 1, 2)]));
        },
        TokenKindV::Semicolon => {
            assert(lex_from(s, 0, 1, 1) == crate::lexer::single(s, 0, 1, 1, TokenKindV::Semicolon));
            assert(lex_from(s, 1, 1, 2) == Ok::<Seq<TokenV>, Seq<char>>(seq![tok(TokenKindV::Eof, Seq::empty(), 1, 2)]));
        },
        TokenKindV::Minus => {
            assert(lex_from(s, 0, 1, 1) == crate::lexer::pair(s, 0, 1, 1, '>', TokenKindV::Minus, TokenKindV::Arrow));
            assert(lex_from(s, 1, 1, 2) == Ok::<Seq<TokenV>, Seq<char>>(seq![tok(TokenKindV::Eof, Seq::empty(), 1, 2)]));
        },
        TokenKindV::Arrow => {
            assert(lex_from(s, 0, 1, 1) == crate::lexer::pair(s, 0, 1, 1, '>', TokenKindV::Minus, TokenKindV::Arrow));
            assert(lex_from(s, 2, 1, 3) == Ok::<Seq<TokenV>, Seq<char>>(seq![tok(TokenKindV::Eof, Seq::empty(), 1, 3)]));
            assert(seq![s[0], '>'] =~= s);
        },
        TokenKindV::Equal => {
            assert(lex_from(s, 0, 1, 1) == crate::lexer::pair(s, 0, 1, 1, '=', TokenKindV::Equal, TokenKindV::EqualEqual));
            assert(lex_from(s, 1, 1, 2) == Ok::<Seq<TokenV>, Seq<char>>(seq![tok(TokenKindV::Eof, Seq::empty(), 1, 2)]));
        },
        TokenKindV::EqualEqual => {
            assert(lex_from(s, 0, 1, 1) == crate::lexer::pair(s, 0, 1, 1, '=', TokenKindV::Equal, TokenKindV::EqualEqual));
            assert(lex_from(s, 2, 1, 3) == Ok::<Seq<TokenV>, Seq<char>>(seq![tok(TokenKindV::Eof, Seq::empty(), 1, 3)]));
            assert(seq![s[0], '='] =~= s);
        },
        TokenKindV::Bang => {
            assert(lex_from(s, 0, 1, 1) == crate::lexer::pair(s, 0, 1, 1, '=', TokenKindV::Bang, TokenKindV::BangEqual));
            assert(lex_from(s, 1, 1, 2) == Ok::<Seq<TokenV>, Seq<char>>(seq![tok(TokenKindV::Eof, Seq::empty(), 1, 2)]));
        },
        TokenKindV::BangEqual => {
            assert(lex_from(s, 0, 1, 1) == crate::lexer::pair(s, 0, 1, 1, '=', TokenKindV::Bang, TokenKindV::BangEqual));
            assert(lex_from(s, 2, 1, 3) == Ok::<Seq<TokenV>, Seq<char>>(seq![tok(TokenKindV::Eof, Seq::empty(), 1, 3)]));
            assert(seq![s[0], '='] =~= s);
        },
        TokenKindV::Less => {
            assert(lex_from(s, 0, 1, 1) == crate::lexer::pair(s, 0, 1, 1, '=', TokenKindV::Less, TokenKindV::LessEqual));
            assert(lex_from(s, 1, 1, 2) == Ok::<Seq<TokenV>, Seq<char>>(seq![tok(TokenKindV::Eof, Seq::empty(), 1, 2)]));
        },
        TokenKindV::LessEqual => {
            assert(lex_from(s, 0, 1, 1) == crate::lexer::pair(s, 0, 1, 1, '=', TokenKindV::Less, TokenKindV::LessEqual));
            assert(lex_from(s, 2, 1, 3) == Ok::<Seq<TokenV>, Seq<char>>(seq![tok(TokenKindV::Eof, Seq::empty(), 1, 3)]));
            assert(seq![s[0], '='] =~= s);
        },
        TokenKindV::Greater => {
            assert(lex_from(s, 0, 1, 1) == crate::lexer::pair(s, 0, 1, 1, '=', TokenKindV::Greater, TokenKindV::GreaterEqual));
            assert(lex_from(s, 1, 1, 2) == Ok::<Seq<TokenV>, Seq<char>>(seq![tok(TokenKindV::Eof, Seq::empty(), 1, 2)]));
        },
        TokenKindV::GreaterEqual => {
            assert(lex_from(s, 0, 1, 1) == crate::lexer::pair(s, 0, 1, 1, '=', TokenKindV::Greater, TokenKindV::GreaterEqual));
            assert(lex_from(s, 2, 1, 3) == Ok::<Seq<TokenV>, Seq<char>>(seq![tok(TokenKindV::Eof, Seq::empty(), 1, 3)]));
            assert(seq![s[0], '='] =~= s);
        },
        TokenKindV::AndAnd => {
            assert(lex_from(s, 2, 1, 3) == Ok::<Seq<TokenV>, Seq<char>>(seq![tok(TokenKindV::Eof, Seq::empty(), 1, 3)]));
        },
        TokenKindV::OrOr => {
            assert(lex_from(s, 2, 1, 3) == Ok::<Seq<TokenV>, Seq<char>>(seq![tok(TokenKindV::Eof, Seq::empty(), 1, 3)]));
        },
        _ => {},
    }
}

proof fn lemma_digits_end_all(d: Seq<char>, i: int)
    requires
        0 <= i <= d.len(),
        forall|j: int| 0 <= j < d.len() ==> is_digit(#[trigger] d[j]),
    ensures
        digits_end(d, i) == d.len(),
    decreases d.len() - i,
{
    if i < d.len() {
        lemma_digits_end_all(d, i + 1);
    }
}

/// Decimal digits lex to one integer token of their value, when it fits in `i64`, and
/// otherwise to an error.
pub proof fn law_integer_tokens(d: Seq<char>)
    requires
        d.len() > 0,
        forall|j: int| 0 <= j < d.len() ==> is_digit(#[trigger] d[j]),
    ensures
        crate::lexer::digits_value(d) <= i64::MAX ==> (spec_tokenize(d) matches Ok(ts) && ts.len() == 2
            && ts[0].kind == TokenKindV::Int(crate::lexer::digits_value(d) as i64)
            && ts[1].kind == TokenKindV::Eof),
        crate::lexer::digits_value(d) > i64::MAX ==> spec_tokenize(d) is Err,
{
    lemma_digits_end_all(d, 0);
    lemma_digits_end_bounds(d, 1);
    assert(d.subrange(0, d.len() as int) =~= d);
    assert(is_digit(d[0]));
    let n = d.len() as int;
    let end = lex_from(d, n, 1, (1 + n) as nat);
    assert(end == Ok::<Seq<TokenV>, Seq<char>>(seq![tok(TokenKindV::Eof, Seq::empty(), 1, (1 + n) as nat)]));
    if crate::lexer::digits_value(d) <= i64::MAX {
        assert(lex_from(d, 0, 1, 1) == crate::lexer::prepend(
            seq![tok(TokenKindV::Int(crate::lexer::digits_value(d) as i64), d, 1, 1)],
            end,
        ));
    } else {
        assert(lex_from(d, 0, 1, 1) is Err);
    }
}

proof fn lemma_decimal_digits(v: nat)
    ensures
        crate::lexer::digits_value(crate::text::nat_decimal(v)) == v,
        crate::text::nat_decimal(v).len() > 0,
        forall|j: int| 0 <= j < crate::text::nat_decimal(v).len() ==> is_digit(#[trigger] crate::text::nat_decimal(v)[j]),
    decreases v,
{
    let s = crate::text::nat_decimal(v);
    if v < 10 {
        let c = crate::text::digit_char(v as int);
        assert(c as int == v + 48);
        assert(s.drop_last() =~= Seq::<char>::empty());
        assert(crate::text::digit_value(c) == v);
        assert(crate::lexer::digits_value(Seq::<char>::empty()) == 0);
        assert(crate::lexer::digits_value(s) == (crate::lexer::digits_value(s.drop_last()) * 10
            + crate::text::digit_value(s.last())) as nat);
    } else {
        lemma_decimal_digits(v / 10);
        let pre = crate::text::nat_decimal(v / 10);
        let c = crate::text::digit_char((v % 10) as int);
        assert(c as int == v % 10 + 48);
        assert(s.drop_last() =~= pre);
        assert(s.last() == c);
        assert(v == (v / 10) * 10 + v % 10) by (nonlinear_arith);
        assert(crate::text::digit_value(c) == v % 10);
        assert(crate::lexer::digits_value(s) == (crate::lexer::digits_value(s.drop_last()) * 10
            + crate::text::digit_value(s.last())) as nat);
        assert forall|j: int| 0 <= j < s.len() implies is_digit(#[trigger] s[j]) by {
            if j < pre.len() {
                assert(s[j] == pre[j]);
            }
        }
    }
}

/// An integer printed in decimal lexes back to an integer token of the same value.
pub proof fn law_printed_integers_lex_back(v: nat)
    requires
        v <= i64::MAX,
    ensures
        spec_tokenize(crate::text::nat_decimal(v)) matches Ok(ts) && ts.len() == 2
            && ts[0].kind == TokenKindV::Int(v as i64) && ts[1].kind == TokenKindV::Eof,
{
    lemma_decimal_digits(v);
    law_integer_tokens(crate::text::nat_decimal(v));
}

} // verus!
