//! How binary operators group: `* /` bind tightest, then `+ -`, then `< > <= >=`,
//! then `== !=`, then `&&`, then `||`; operators of one level group to the left.
use vstd::prelude::*;
use crate::ast::{BinaryOp, ExprV};
use crate::parse_spec::{
    Parsed, binary_tail, kind_at, op_at, postfix_tail, spec_binary, spec_expr, spec_operand,
    spec_postfix, spec_primary, spec_unary,
};
use crate::token::{TokenKindV, TokenV};

verus! {

/// How tightly an operator token binds: 1 for `* /` up to 6 for `||`; 7 for any other token.
pub open spec fn binding(k: TokenKindV) -> nat {
    match k {
        TokenKindV::Star | TokenKindV::Slash => 1,
        TokenKindV::Plus | TokenKindV::Minus => 2,
        TokenKindV::Less | TokenKindV::Greater | TokenKindV::LessEqual | TokenKindV::GreaterEqual => 3,
        TokenKindV::EqualEqual | TokenKindV::BangEqual => 4,
        TokenKindV::AndAnd => 5,
        TokenKindV::OrOr => 6,
        _ => 7,
    }
}

/// The operator an operator token denotes.
pub open spec fn operator(k: TokenKindV) -> BinaryOp {
    match k {
        TokenKindV::Star => BinaryOp::Mul,
        TokenKindV::Slash => BinaryOp::Div,
        TokenKindV::Plus => BinaryOp::Add,
        TokenKindV::Minus => BinaryOp::Sub,
        TokenKindV::Less => BinaryOp::Less,
        TokenKindV::Greater => BinaryOp::Greater,
        TokenKindV::LessEqual => BinaryOp::LessEq,
        TokenKindV::GreaterEqual => BinaryOp::GreaterEq,
        TokenKindV::EqualEqual => BinaryOp::Eq,
        TokenKindV::BangEqual => BinaryOp::NotEq,
        TokenKindV::AndAnd => BinaryOp::And,
        _ => BinaryOp::Or,
    }
}

/// A token after which an operand ends: no call and no index follows.
pub open spec fn ends_operand(k: TokenKindV) -> bool {
    !(k is LParen) && !(k is LBracket)
}

pub open spec fn bin(a: ExprV, op: BinaryOp, b: ExprV) -> ExprV {
    ExprV::Binary { left: Box::new(a), op, right: Box::new(b) }
}

proof fn lemma_op_at(ts: Seq<TokenV>, p: int, level: nat)
    requires
        1 <= level <= 6,
    ensures
        op_at(ts, p, level) == (if binding(kind_at(ts, p)) == level {
            Some(operator(kind_at(ts, p)))
        } else {
            None::<BinaryOp>
        }),
{
}

proof fn lemma_atom(ts: Seq<TokenV>, p: int, level: nat, v: i64)
    requires
        0 <= p,
        kind_at(ts, p) == TokenKindV::Int(v),
        ends_operand(kind_at(ts, p + 1)),
        binding(kind_at(ts, p + 1)) > level,
        level <= 6,
    ensures
        spec_operand(ts, p, level) == Ok::<(ExprV, nat), Seq<char>>((ExprV::Int(v), 1)),
        spec_binary(ts, p, level) == Ok::<(ExprV, nat), Seq<char>>((ExprV::Int(v), 1)),
    decreases level,
{
    reveal_with_fuel(spec_operand, 1);
    reveal_with_fuel(spec_binary, 1);
    reveal_with_fuel(binary_tail, 1);
    reveal_with_fuel(spec_unary, 1);
    reveal_with_fuel(spec_postfix, 1);
    reveal_with_fuel(spec_primary, 1);
    reveal_with_fuel(postfix_tail, 1);
    assert(spec_primary(ts, p) == Ok::<(ExprV, nat), Seq<char>>((ExprV::Int(v), 1)));
    assert(postfix_tail(ts, ExprV::Int(v), p + 1) == Ok::<(ExprV, nat), Seq<char>>((ExprV::Int(v), 0)));
    assert(spec_postfix(ts, p) == Ok::<(ExprV, nat), Seq<char>>((ExprV::Int(v), 1)));
    assert(spec_unary(ts, p) == Ok::<(ExprV, nat), Seq<char>>((ExprV::Int(v), 1)));
    if level >= 1 {
        lemma_atom(ts, p, (level - 1) as nat, v);
        assert(spec_operand(ts, p, level) == spec_binary(ts, p, (level - 1) as nat));
        lemma_op_at(ts, p + 1, level);
    } else {
        assert(op_at(ts, p + 1, 0) is None);
    }
    assert(binary_tail(ts, ExprV::Int(v), p + 1, level) == Ok::<(ExprV, nat), Seq<char>>((ExprV::Int(v), 0)));
}

/// `a op b` followed by a token that binds looser than `level`.
proof fn lemma_one_op(ts: Seq<TokenV>, p: int, level: nat, a: i64, b: i64)
    requires
        0 <= p,
        kind_at(ts, p) == TokenKindV::Int(a),
        1 <= binding(kind_at(ts, p + 1)) <= level <= 6,
        kind_at(ts, p + 2) == TokenKindV::Int(b),
        ends_operand(kind_at(ts, p + 3)),
        binding(kind_at(ts, p + 3)) > level,
    ensures
        spec_binary(ts, p, level) == Ok::<(ExprV, nat), Seq<char>>(
            (bin(ExprV::Int(a), operator(kind_at(ts, p + 1)), ExprV::Int(b)), 3),
        ),
        level < 6 ==> spec_operand(ts, p, level + 1) == spec_binary(ts, p, level),
    decreases level,
{
    reveal_with_fuel(spec_operand, 1);
    reveal_with_fuel(spec_binary, 1);
    reveal_with_fuel(binary_tail, 1);
    let l = binding(kind_at(ts, p + 1));
    let e = bin(ExprV::Int(a), operator(kind_at(ts, p + 1)), ExprV::Int(b));
    lemma_op_at(ts, p + 3, level);
    if level == l {
        lemma_atom(ts, p, (level - 1) as nat, a);
        assert(spec_operand(ts, p, level) == spec_binary(ts, p, (level - 1) as nat));
        lemma_atom(ts, p + 2, level, b);
        lemma_op_at(ts, p + 1, level);
        assert(binary_tail(ts, e, p + 3, level) == Ok::<(ExprV, nat), Seq<char>>((e, 0)));
        assert(binary_tail(ts, ExprV::Int(a), p + 1, level) == Ok::<(ExprV, nat), Seq<char>>((e, 2)));
    } else {
        lemma_one_op(ts, p, (level - 1) as nat, a, b);
        assert(binary_tail(ts, e, p + 3, level) == Ok::<(ExprV, nat), Seq<char>>((e, 0)));
    }
}

/// Two operators in `a o1 b o2 c`, read at `level` at least that of both.
proof fn lemma_two_ops(ts: Seq<TokenV>, level: nat, a: i64, b: i64, c: i64)
    requires
        kind_at(ts, 0) == TokenKindV::Int(a),
        1 <= binding(kind_at(ts, 1)) <= 6,
        kind_at(ts, 2) == TokenKindV::Int(b),
        1 <= binding(kind_at(ts, 3)) <= 6,
        kind_at(ts, 4) == TokenKindV::Int(c),
        ends_operand(kind_at(ts, 5)),
        binding(kind_at(ts, 5)) == 7,
        binding(kind_at(ts, 1)) <= level,
        binding(kind_at(ts, 3)) <= level,
        level <= 6,
    ensures
        spec_binary(ts, 0, level) == Ok::<(ExprV, nat), Seq<char>>(
            (
                if binding(kind_at(ts, 1)) <= binding(kind_at(ts, 3)) {
                    bin(
                        bin(ExprV::Int(a), operator(kind_at(ts, 1)), ExprV::Int(b)),
                        operator(kind_at(ts, 3)),
                        ExprV::Int(c),
                    )
                } else {
                    bin(
                        ExprV::Int(a),
                        operator(kind_at(ts, 1)),
                        bin(ExprV::Int(b), operator(kind_at(ts, 3)), ExprV::Int(c)),
                    )
                },
                5,
            ),
        ),
    decreases level,
{
    reveal_with_fuel(spec_operand, 1);
    reveal_with_fuel(spec_binary, 1);
    reveal_with_fuel(binary_tail, 1);
    let l1 = binding(kind_at(ts, 1));
    let l2 = binding(kind_at(ts, 3));
    let o1 = operator(kind_at(ts, 1));
    let o2 = operator(kind_at(ts, 3));
    let ea = ExprV::Int(a);
    let eb = ExprV::Int(b);
    let ec = ExprV::Int(c);
    lemma_op_at(ts, 5, level);
    let top = level == (if l1 <= l2 { l2 } else { l1 });
    if !top {
        lemma_two_ops(ts, (level - 1) as nat, a, b, c);
    } else if l1 <= l2 {
        // the left operator groups first
        let left = bin(ea, o1, eb);
        lemma_atom(ts, 4, level, c);
        lemma_op_at(ts, 3, level);
        if l1 < l2 {
            lemma_one_op(ts, 0, (level - 1) as nat, a, b);
        } else {
            lemma_atom(ts, 0, (level - 1) as nat, a);
            lemma_atom(ts, 2, (level - 1) as nat, b);
            lemma_op_at(ts, 1, level);
            assert(binary_tail(ts, ea, 1, level) == shift_by(binary_tail(ts, left, 3, level), 2));
        }
        let whole = bin(left, o2, ec);
        assert(binary_tail(ts, whole, 5, level) == Ok::<(ExprV, nat), Seq<char>>((whole, 0)));
        assert(binary_tail(ts, left, 3, level) == Ok::<(ExprV, nat), Seq<char>>((whole, 2)));
    } else {
        // the right operator groups first
        let right = bin(eb, o2, ec);
        lemma_atom(ts, 0, (level - 1) as nat, a);
        lemma_op_at(ts, 1, level);
        lemma_one_op(ts, 2, (level - 1) as nat, b, c);
        let whole = bin(ea, o1, right);
        assert(binary_tail(ts, whole, 5, level) == Ok::<(ExprV, nat), Seq<char>>((whole, 0)));
        assert(binary_tail(ts, ea, 1, level) == Ok::<(ExprV, nat), Seq<char>>((whole, 4)));
    }
}

pub open spec fn shift_by(r: Parsed<ExprV>, k: nat) -> Parsed<ExprV> {
    match r {
        Ok((v, n)) => Ok((v, n + k)),
        Err(e) => Err(e),
    }
}

/// In `a o1 b o2 c` the operator that binds tighter groups first, and of two operators
/// that bind alike the left one does: `1 + 2 < 4` is `(1 + 2) < 4`, `1 < 2 + 4` is
/// `1 < (2 + 4)`, `1 - 2 - 4` is `(1 - 2) - 4`; `* /` bind tightest, then `+ -`, then
/// `< > <= >=`, then `== !=`, then `&&`, then `||`.
pub proof fn law_operator_precedence(ts: Seq<TokenV>, a: i64, b: i64, c: i64)
    requires
        kind_at(ts, 0) == TokenKindV::Int(a),
        binding(kind_at(ts, 1)) <= 6,
        kind_at(ts, 2) == TokenKindV::Int(b),
        binding(kind_at(ts, 3)) <= 6,
        kind_at(ts, 4) == TokenKindV::Int(c),
        ends_operand(kind_at(ts, 5)),
        binding(kind_at(ts, 5)) == 7,
    ensures
        spec_expr(ts, 0) == Ok::<(ExprV, nat), Seq<char>>(
            (
                if binding(kind_at(ts, 1)) <= binding(kind_at(ts, 3)) {
                    bin(
                        bin(ExprV::Int(a), operator(kind_at(ts, 1)), ExprV::Int(b)),
                        operator(kind_at(ts, 3)),
                        ExprV::Int(c),
                    )
                } else {
                    bin(
                        ExprV::Int(a),
                        operator(kind_at(ts, 1)),
                        bin(ExprV::Int(b), operator(kind_at(ts, 3)), ExprV::Int(c)),
                    )
                },
                5,
            ),
        ),
{
    reveal_with_fuel(spec_expr, 1);
    reveal_with_fuel(spec_binary, 1);
    assert(spec_expr(ts, 0) == spec_binary(ts, 0, 6));
    lemma_two_ops(ts, 6, a, b, c);
}

} // verus!
