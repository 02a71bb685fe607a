use vstd::prelude::*;
use crate::lexer::token::Token;
use crate::ast::{BinaryOp, ExprV, Param, StmtV};
use crate::parser::spec::{Parsed, binop_info, p_binary, p_binary_rest, p_expr, p_unary, p_ident_stmt, p_items, p_params, p_params_from, p_program, tok_at, within};

verus! {

proof fn lemma_items_reach_end(toks: Seq<Token>, pos: int)
    ensures
        p_items(toks, pos) matches Parsed::Done(_, p) ==> p == toks.len(),
    decreases toks.len() - pos,
{
    if 0 <= pos <= toks.len() && tok_at(toks, pos) is Some {
        if let Parsed::Done(_, p) = crate::parser::spec::p_top_level(toks, pos) {
            if pos + 1 <= p <= toks.len() {
                lemma_items_reach_end(toks, p);
            }
        }
    }
}

/// A program that parses is parsed up to the end of the tokens: nothing is left over.
pub proof fn law_program_reaches_end(toks: Seq<Token>, pos: int)
    ensures
        p_program(toks, pos) matches Parsed::Done(_, p) ==> p == toks.len(),
{
    lemma_items_reach_end(toks, pos);
}

/// Whether a statement that starts with a name is about the name `n`: it declares
/// or assigns `n`, calls `n`, or increments or decrements `n`.
pub open spec fn names(st: StmtV, n: String) -> bool {
    match st {
        StmtV::VarDecl { name, .. } => name == n,
        StmtV::Assign { name, .. } => name == n,
        StmtV::Expr(ExprV::Call { name, .. }) => name == n,
        StmtV::Expr(ExprV::UnaryOp { expr, .. }) => *expr == ExprV::Ident(n),
        _ => false,
    }
}

/// A statement parsed from a name is about that name; where no name starts it,
/// the parser stops.
pub proof fn law_ident_stmt_names(toks: Seq<Token>, pos: int, terminated: bool)
    ensures
        tok_at(toks, pos) matches Some(Token::Ident(n)) ==> (p_ident_stmt(toks, pos, terminated) matches Parsed::Done(
            st,
            _,
        ) ==> names(st, n)),
        within(toks, 0, pos) && !(tok_at(toks, pos) matches Some(Token::Ident(_))) ==> p_ident_stmt(
            toks,
            pos,
            terminated,
        ) is Stuck,
{
}

proof fn lemma_params_from_flags(toks: Seq<Token>, p: int)
    ensures
        p_params_from(toks, p) matches Parsed::Done(ps, _) ==> forall|i: int|
            0 <= i < ps.len() ==> !(#[trigger] ps[i].by_ref && ps[i].by_const_ref),
    decreases toks.len() - p,
{
    if within(toks, 0, p) {
        let amp = tok_at(toks, p) == Some(Token::Ampersand);
        let by_const_ref = amp && tok_at(toks, p + 1) == Some(Token::Const);
        let p2 = if by_const_ref {
            p + 2
        } else if amp {
            p + 1
        } else {
            p
        };
        if let Parsed::Done(_, p3) = crate::parser::spec::p_type(toks, p2) {
            if let Parsed::Done(_, p4) = crate::parser::spec::p_name(toks, p3, "param name"@) {
                if tok_at(toks, p4) == Some(Token::Comma) {
                    lemma_params_from_flags(toks, p4 + 1);
                    if let Parsed::Done(rest, _) = p_params_from(toks, p4 + 1) {
                        if let Parsed::Done(ps, _) = p_params_from(toks, p) {
                            assert forall|i: int| 0 <= i < ps.len() implies !(#[trigger] ps[i].by_ref
                                && ps[i].by_const_ref) by {
                                if i > 0 {
                                    assert(ps[i] == rest[i - 1]);
                                }
                            }
                        }
                    }
                }
            }
        }
    }
}

/// No parameter is both a reference and a constant reference; a list that starts
/// with `)` is empty and consumes nothing.
pub proof fn law_params(toks: Seq<Token>, pos: int)
    ensures
        p_params(toks, pos) matches Parsed::Done(ps, _) ==> forall|i: int|
            0 <= i < ps.len() ==> !(#[trigger] ps[i].by_ref && ps[i].by_const_ref),
        tok_at(toks, pos) == Some(Token::RParen) ==> p_params(toks, pos) == Parsed::<Seq<Param>>::Done(
            Seq::empty(),
            pos,
        ),
{
    lemma_params_from_flags(toks, pos);
}

/// The binding strength of a binary operator token (0 for other tokens).
pub open spec fn prec(t: Token) -> nat {
    match binop_info(Some(t)) {
        Some((p, _)) => p,
        None => 0,
    }
}

/// The operator that a binary operator token stands for.
pub open spec fn op_of(t: Token) -> Option<BinaryOp> {
    match binop_info(Some(t)) {
        Some((_, op)) => Some(op),
        None => None,
    }
}

/// The binary operators and how tightly they bind, loosest first: `||`, `&&`,
/// equality, ordering, ranges, `??`, `+ -`, `* / %`, `**`. Each token stands for the
/// operator of the same spelling.
pub proof fn law_operator_table()
    ensures
        prec(Token::Or) < prec(Token::And),
        prec(Token::And) < prec(Token::EqualEqual),
        prec(Token::EqualEqual) == prec(Token::NotEqual),
        prec(Token::NotEqual) < prec(Token::Less),
        prec(Token::Less) == prec(Token::Greater),
        prec(Token::Less) == prec(Token::LessEqual),
        prec(Token::Less) == prec(Token::GreaterEqual),
        prec(Token::Less) < prec(Token::DotDot),
        prec(Token::DotDot) == prec(Token::DotDotEq),
        prec(Token::DotDot) < prec(Token::QuestionQuestion),
        prec(Token::QuestionQuestion) < prec(Token::Plus),
        prec(Token::Plus) == prec(Token::Minus),
        prec(Token::Plus) < prec(Token::Star),
        prec(Token::Star) == prec(Token::Slash),
        prec(Token::Star) == prec(Token::Percent),
        prec(Token::Star) < prec(Token::StarStar),
        prec(Token::Or) > 0,
        op_of(Token::Or) == Some(BinaryOp::Or),
        op_of(Token::And) == Some(BinaryOp::And),
        op_of(Token::EqualEqual) == Some(BinaryOp::Eq),
        op_of(Token::NotEqual) == Some(BinaryOp::Neq),
        op_of(Token::Less) == Some(BinaryOp::Lt),
        op_of(Token::Greater) == Some(BinaryOp::Gt),
        op_of(Token::LessEqual) == Some(BinaryOp::Lte),
        op_of(Token::GreaterEqual) == Some(BinaryOp::Gte),
        op_of(Token::DotDot) == Some(BinaryOp::Range),
        op_of(Token::DotDotEq) == Some(BinaryOp::RangeInclusive),
        op_of(Token::QuestionQuestion) == Some(BinaryOp::NullCoalesce),
        op_of(Token::Plus) == Some(BinaryOp::Add),
        op_of(Token::Minus) == Some(BinaryOp::Sub),
        op_of(Token::Star) == Some(BinaryOp::Mul),
        op_of(Token::Slash) == Some(BinaryOp::Div),
        op_of(Token::Percent) == Some(BinaryOp::Mod),
        op_of(Token::StarStar) == Some(BinaryOp::Pow),
{
}

/// A name followed by an operator or by the end is an operand on its own.
proof fn lemma_name_operand(toks: Seq<Token>, i: int, name: String)
    requires
        0 <= i < toks.len(),
        toks[i] == Token::Ident(name),
        i + 1 == toks.len() || binop_info(Some(toks[i + 1])) is Some,
    ensures
        p_unary(toks, i) == Parsed::Done(ExprV::Ident(name), i + 1),
{
    assert(tok_at(toks, i) == Some(Token::Ident(name)));
    if i + 1 < toks.len() {
        assert(tok_at(toks, i + 1) == Some(toks[i + 1]));
    }
    assert(tok_at(toks, i + 1) != Some(Token::LParen));
    assert(tok_at(toks, i + 1) != Some(Token::Dot));
    assert(tok_at(toks, i + 1) != Some(Token::LBracket));
    assert(crate::parser::spec::p_ident_expr(toks, i) == Parsed::Done(ExprV::Ident(name), i + 1));
    assert(crate::parser::spec::p_primary(toks, i) == Parsed::Done(ExprV::Ident(name), i + 1));
}

/// The shape that `x t1 y t2 z` parses to: the operator that binds tighter takes
/// its operands first, and of two that bind equally the left one does.
pub open spec fn two_op_shape(x: String, t1: Token, y: String, t2: Token, z: String) -> ExprV {
    let o1 = op_of(t1).unwrap();
    let o2 = op_of(t2).unwrap();
    let (ex, ey, ez) = (ExprV::Ident(x), ExprV::Ident(y), ExprV::Ident(z));
    if prec(t1) < prec(t2) {
        ExprV::BinaryOp { op: o1, left: Box::new(ex), right: Box::new(ExprV::BinaryOp { op: o2, left: Box::new(ey), right: Box::new(ez) }) }
    } else {
        ExprV::BinaryOp { op: o2, left: Box::new(ExprV::BinaryOp { op: o1, left: Box::new(ex), right: Box::new(ey) }), right: Box::new(ez) }
    }
}

/// Of two binary operators between three names, the one that binds tighter takes
/// its operands first; of two that bind equally, the left one does.
pub proof fn law_two_operators(x: String, t1: Token, y: String, t2: Token, z: String)
    requires
        op_of(t1) is Some,
        op_of(t2) is Some,
    ensures
        p_expr(seq![Token::Ident(x), t1, Token::Ident(y), t2, Token::Ident(z)], 0) == Parsed::Done(
            two_op_shape(x, t1, y, t2, z),
            5,
        ),
{
    let toks = seq![Token::Ident(x), t1, Token::Ident(y), t2, Token::Ident(z)];
    let (p1, o1) = binop_info(Some(t1)).unwrap();
    let (p2, o2) = binop_info(Some(t2)).unwrap();
    assert(tok_at(toks, 1) == Some(t1));
    assert(tok_at(toks, 3) == Some(t2));
    assert(tok_at(toks, 5) is None);
    lemma_name_operand(toks, 0, x);
    lemma_name_operand(toks, 2, y);
    lemma_name_operand(toks, 4, z);
    let (ex, ey, ez) = (ExprV::Ident(x), ExprV::Ident(y), ExprV::Ident(z));
    // z alone, at any level
    assert(forall|m: nat| #[trigger] p_binary_rest(toks, 5, m, ez) == Parsed::Done(ez, 5));
    assert(forall|m: nat| #[trigger] p_binary(toks, 4, m) == Parsed::Done(ez, 5));
    if p1 < p2 {
        let r = ExprV::BinaryOp { op: o2, left: Box::new(ey), right: Box::new(ez) };
        assert(p_binary(toks, 4, p2 + 1) == Parsed::Done(ez, 5));
        assert(p_binary_rest(toks, 5, p1 + 1, r) == Parsed::Done(r, 5));
        assert(p_binary_rest(toks, 3, p1 + 1, ey) == Parsed::Done(r, 5));
        assert(p_binary(toks, 2, p1 + 1) == Parsed::Done(r, 5));
        let all = ExprV::BinaryOp { op: o1, left: Box::new(ex), right: Box::new(r) };
        assert(p_binary_rest(toks, 5, 0, all) == Parsed::Done(all, 5));
        assert(p_binary_rest(toks, 1, 0, ex) == Parsed::Done(all, 5));
    } else {
        assert(p_binary_rest(toks, 3, p1 + 1, ey) == Parsed::Done(ey, 3));
        assert(p_binary(toks, 2, p1 + 1) == Parsed::Done(ey, 3));
        let l = ExprV::BinaryOp { op: o1, left: Box::new(ex), right: Box::new(ey) };
        let all = ExprV::BinaryOp { op: o2, left: Box::new(l), right: Box::new(ez) };
        assert(p_binary(toks, 4, p2 + 1) == Parsed::Done(ez, 5));
        assert(p_binary_rest(toks, 5, 0, all) == Parsed::Done(all, 5));
        assert(p_binary_rest(toks, 3, 0, l) == Parsed::Done(all, 5));
        assert(p_binary_rest(toks, 1, 0, ex) == Parsed::Done(all, 5));
    }
    assert(p_binary(toks, 0, 0) == p_binary_rest(toks, 1, 0, ex));
}

} // verus!
