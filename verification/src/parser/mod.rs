pub mod spec;
pub mod laws;

use vstd::prelude::*;
use crate::ast::{BinaryOp, Expr, Literal, Param, Program, Stmt, TopLevel, Type, UnaryOp, exprs_view, stmts_view, top_levels_view};
use crate::lexer::token::{Token, is_unit, token_debug};
use crate::parser::spec::{
    Parsed, binop_info, expected_msg, is_decl_type, keyword_type, p_args, p_args_from, p_binary, p_binary_rest,
    p_block, p_braced, p_end, p_expect, p_expr, p_expr_semi, p_for, p_function, p_ident_expr, p_ident_stmt, p_if, p_value,
    p_items, p_name, p_paren_expr, p_params, p_params_from, p_primary, p_program, p_return, p_stmt,
    p_top_level, p_type, p_unary, p_var_decl, p_while, tok_at, tok_text, unexpected_msg, within,
};

verus! {

/// The token that an optional reference points to.
pub open spec fn opt_tok(t: Option<&Token>) -> Option<Token> {
    match t {
        Some(x) => Some(*x),
        None => None,
    }
}

fn tok_text_string(t: Option<&Token>) -> (s: String)
    ensures
        s@ == tok_text(opt_tok(t)),
{
    match t {
        Some(x) => x.debug_string(),
        None => String::from_str("EOF"),
    }
}

/// `Expected <what>, got <token>`.
fn expected_got(what: &str, t: Option<&Token>) -> (s: String)
    ensures
        s@ == expected_msg(what@, opt_tok(t)),
{
    let mut s = String::from_str("Expected ");
    s.append(what);
    s.append(", got ");
    let g = tok_text_string(t);
    s.append(g.as_str());
    s
}

/// `Unexpected token in <place>: <token>` or `Unexpected EOF in <place>`.
fn unexpected_in(place: &str, t: Option<&Token>) -> (s: String)
    ensures
        s@ == unexpected_msg(place@, opt_tok(t)),
{
    match t {
        Some(x) => {
            let mut s = String::from_str("Unexpected token in ");
            s.append(place);
            s.append(": ");
            let d = x.debug_string();
            s.append(d.as_str());
            s
        },
        None => {
            let mut s = String::from_str("Unexpected EOF in ");
            s.append(place);
            s
        },
    }
}

/// Why parsing ended early: an error to report, or a construct that the parser
/// does not implement.
enum Halt {
    Error(String),
    Stop,
}

/// The parse failed with message `m`.
spec fn halted_with<T>(res: Result<T, Halt>, m: Seq<char>) -> bool {
    res matches Err(Halt::Error(e)) && e@ == m
}

/// The parse stopped at a construct it does not implement.
spec fn stopped<T>(res: Result<T, Halt>) -> bool {
    res matches Err(Halt::Stop)
}

/// A recursive-descent parser over a list of tokens.
pub struct Parser {
    tokens: Vec<Token>,
    position: usize,
}

impl Parser {
    /// The tokens being parsed.
    pub closed spec fn toks(&self) -> Seq<Token> {
        self.tokens@
    }

    /// The position of the next token.
    pub closed spec fn pos(&self) -> int {
        self.position as int
    }

    pub fn new(tokens: Vec<Token>) -> (p: Parser)
        ensures
            p.toks() == tokens@,
            p.pos() == 0,
    {
        Parser { tokens, position: 0 }
    }

    fn current(&self) -> (r: Option<&Token>)
        ensures
            opt_tok(r) == tok_at(self.tokens@, self.position as int),
    {
        if self.position < self.tokens.len() {
            Some(&self.tokens[self.position])
        } else {
            None
        }
    }

    fn peek(&self) -> (r: Option<&Token>)
        ensures
            opt_tok(r) == tok_at(self.tokens@, self.position + 1),
    {
        if self.position < self.tokens.len() && self.position + 1 < self.tokens.len() {
            Some(&self.tokens[self.position + 1])
        } else {
            None
        }
    }

    fn advance(&mut self)
        requires
            old(self).position < old(self).tokens.len(),
        ensures
            final(self).tokens@ == old(self).tokens@,
            final(self).position == old(self).position + 1,
    {
        self.position = self.position + 1;
    }

    fn expect(&mut self, expected: &Token) -> (res: Result<(), Halt>)
        requires
            is_unit(*expected),
        ensures
            final(self).tokens@ == old(self).tokens@,
            match p_expect(old(self).tokens@, old(self).position as int, *expected) {
                Parsed::Done(_, p) => res is Ok && final(self).position == p,
                Parsed::Fail(m) => halted_with(res, m),
                Parsed::Stuck => stopped(res),
            },
            res is Ok ==> final(self).position == old(self).position + 1 && final(self).position <= final(self).tokens@.len(),
            res is Err ==> final(self).position == old(self).position,
    {
        match self.current() {
            Some(tok) => {
                if tok.is(expected) {
                    self.advance();
                    Ok(())
                } else {
                    let d = expected.debug_string();
                    Err(Halt::Error(expected_got(d.as_str(), Some(tok))))
                }
            },
            None => {
                let d = expected.debug_string();
                Err(Halt::Error(expected_got(d.as_str(), None)))
            },
        }
    }

    /// Consumes a name, or fails with `Expected <what>, got ...`.
    fn expect_name(&mut self, what: &str) -> (res: Result<String, Halt>)
        ensures
            final(self).tokens@ == old(self).tokens@,
            match p_name(old(self).tokens@, old(self).position as int, what@) {
                Parsed::Done(n, p) => res is Ok && res->Ok_0 == n && final(self).position == p,
                Parsed::Fail(m) => halted_with(res, m),
                Parsed::Stuck => stopped(res),
            },
            res is Ok ==> final(self).position == old(self).position + 1 && final(self).position <= final(self).tokens@.len(),
            res is Err ==> final(self).position == old(self).position,
    {
        match self.current() {
            Some(Token::Ident(n)) => {
                let n = n.clone();
                self.advance();
                Ok(n)
            },
            t => Err(Halt::Error(expected_got(what, t))),
        }
    }

    fn parse_type(&mut self) -> (res: Result<Type, Halt>)
        ensures
            final(self).tokens@ == old(self).tokens@,
            match p_type(old(self).tokens@, old(self).position as int) {
                Parsed::Done(t, p) => res is Ok && res->Ok_0 == t && final(self).position == p,
                Parsed::Fail(m) => halted_with(res, m),
                Parsed::Stuck => stopped(res),
            },
            res is Ok ==> old(self).position < final(self).position <= final(self).tokens@.len(),
    {
        let ty = match self.current() {
            Some(Token::TypeInt) => {
                self.advance();
                Type::Int
            },
            Some(Token::TypeFloat) => {
                self.advance();
                Type::Float
            },
            Some(Token::TypeString) => {
                self.advance();
                Type::String
            },
            Some(Token::TypeBool) => {
                self.advance();
                Type::Bool
            },
            Some(Token::TypeVoid) => {
                self.advance();
                Type::Void
            },
            Some(Token::TypeNever) => {
                self.advance();
                Type::Never
            },
            t => {
                proof {
                    reveal_strlit("type");
                }
                return Err(Halt::Error(expected_got("type", t)));
            },
        };
        if let Some(Token::Question) = self.current() {
            self.advance();
            return Ok(Type::Nullable(Box::new(ty)));
        }
        Ok(ty)
    }

    fn parse_expr(&mut self) -> (res: Result<Expr, Halt>)
        requires
            old(self).position <= old(self).tokens@.len(),
        ensures
            final(self).tokens@ == old(self).tokens@,
            match p_expr(old(self).tokens@, old(self).position as int) {
                Parsed::Done(e, p) => res is Ok && res->Ok_0@ == e && final(self).position == p,
                Parsed::Fail(m) => halted_with(res, m),
                Parsed::Stuck => stopped(res),
            },
            res is Ok ==> old(self).position < final(self).position <= final(self).tokens@.len(),
        decreases old(self).tokens@.len() - old(self).position, 11nat,
    {
        self.parse_binary(0)
    }

    fn parse_binary(&mut self, min_precedence: u8) -> (res: Result<Expr, Halt>)
        requires
            old(self).position <= old(self).tokens@.len(),
        ensures
            final(self).tokens@ == old(self).tokens@,
            match p_binary(old(self).tokens@, old(self).position as int, min_precedence as nat) {
                Parsed::Done(e, p) => res is Ok && res->Ok_0@ == e && final(self).position == p,
                Parsed::Fail(m) => halted_with(res, m),
                Parsed::Stuck => stopped(res),
            },
            res is Ok ==> old(self).position < final(self).position <= final(self).tokens@.len(),
        decreases old(self).tokens@.len() - old(self).position, 10nat,
    {
        let ghost toks = self.tokens@;
        let ghost pos0 = self.position as int;
        let ghost target = p_binary(toks, pos0, min_precedence as nat);
        let mut left = self.parse_unary()?;
        loop
            invariant
                self.tokens@ == toks,
                toks == old(self).tokens@,
                pos0 == old(self).position,
                target == p_binary(old(self).tokens@, old(self).position as int, min_precedence as nat),
                pos0 < self.position <= toks.len(),
                target == p_binary_rest(toks, self.position as int, min_precedence as nat, left@),
            ensures
                self.tokens@ == toks,
                pos0 < self.position <= toks.len(),
                target == Parsed::Done(left@, self.position as int),
            decreases toks.len() - self.position,
        {
            let prec: u8 = match self.current() {
                Some(Token::Or) => 1,
                Some(Token::And) => 2,
                Some(Token::EqualEqual) | Some(Token::NotEqual) => 3,
                Some(Token::Less) | Some(Token::Greater) | Some(Token::LessEqual) | Some(Token::GreaterEqual) => 4,
                Some(Token::DotDot) | Some(Token::DotDotEq) => 5,
                Some(Token::QuestionQuestion) => 6,
                Some(Token::Plus) | Some(Token::Minus) => 7,
                Some(Token::Star) | Some(Token::Slash) | Some(Token::Percent) => 8,
                Some(Token::StarStar) => 9,
                _ => break,
            };
            if prec < min_precedence {
                break;
            }
            let op = match self.current() {
                Some(Token::Plus) => BinaryOp::Add,
                Some(Token::Minus) => BinaryOp::Sub,
                Some(Token::Star) => BinaryOp::Mul,
                Some(Token::Slash) => BinaryOp::Div,
                Some(Token::Percent) => BinaryOp::Mod,
                Some(Token::StarStar) => BinaryOp::Pow,
                Some(Token::EqualEqual) => BinaryOp::Eq,
                Some(Token::NotEqual) => BinaryOp::Neq,
                Some(Token::Less) => BinaryOp::Lt,
                Some(Token::Greater) => BinaryOp::Gt,
                Some(Token::LessEqual) => BinaryOp::Lte,
                Some(Token::GreaterEqual) => BinaryOp::Gte,
                Some(Token::And) => BinaryOp::And,
                Some(Token::Or) => BinaryOp::Or,
                Some(Token::DotDot) => BinaryOp::Range,
                Some(Token::DotDotEq) => BinaryOp::RangeInclusive,
                Some(Token::QuestionQuestion) => BinaryOp::NullCoalesce,
                _ => break,
            };
            assert(binop_info(tok_at(toks, self.position as int)) == Some((prec as nat, op)));
            self.advance();
            let right = self.parse_binary(prec + 1)?;
            left = Expr::BinaryOp { op, left: Box::new(left), right: Box::new(right) };
        }
        Ok(left)
    }

    fn parse_unary(&mut self) -> (res: Result<Expr, Halt>)
        requires
            old(self).position <= old(self).tokens@.len(),
        ensures
            final(self).tokens@ == old(self).tokens@,
            match p_unary(old(self).tokens@, old(self).position as int) {
                Parsed::Done(e, p) => res is Ok && res->Ok_0@ == e && final(self).position == p,
                Parsed::Fail(m) => halted_with(res, m),
                Parsed::Stuck => stopped(res),
            },
            res is Ok ==> old(self).position < final(self).position <= final(self).tokens@.len(),
        decreases old(self).tokens@.len() - old(self).position, 8nat,
    {
        match self.current() {
            Some(Token::Not) => {
                self.advance();
                let expr = self.parse_unary()?;
                Ok(Expr::UnaryOp { op: UnaryOp::Not, expr: Box::new(expr) })
            },
            Some(Token::Minus) => {
                self.advance();
                let expr = self.parse_unary()?;
                Ok(Expr::UnaryOp { op: UnaryOp::Neg, expr: Box::new(expr) })
            },
            _ => self.parse_primary(),
        }
    }

    fn parse_primary(&mut self) -> (res: Result<Expr, Halt>)
        requires
            old(self).position <= old(self).tokens@.len(),
        ensures
            final(self).tokens@ == old(self).tokens@,
            match p_primary(old(self).tokens@, old(self).position as int) {
                Parsed::Done(e, p) => res is Ok && res->Ok_0@ == e && final(self).position == p,
                Parsed::Fail(m) => halted_with(res, m),
                Parsed::Stuck => stopped(res),
            },
            res is Ok ==> old(self).position < final(self).position <= final(self).tokens@.len(),
        decreases old(self).tokens@.len() - old(self).position, 7nat,
    {
        match self.current() {
            Some(Token::Int(n)) => {
                let n = *n;
                self.advance();
                Ok(Expr::Literal(Literal::Int(n)))
            },
            Some(Token::Float(f)) => {
                let f = f.duplicate();
                self.advance();
                Ok(Expr::Literal(Literal::Float(f)))
            },
            Some(Token::StringLiteral(s)) => {
                let s = s.clone();
                self.advance();
                Ok(Expr::Literal(Literal::String(s)))
            },
            Some(Token::True) => {
                self.advance();
                Ok(Expr::Literal(Literal::Bool(true)))
            },
            Some(Token::False) => {
                self.advance();
                Ok(Expr::Literal(Literal::Bool(false)))
            },
            Some(Token::Null) => {
                self.advance();
                Ok(Expr::Literal(Literal::Null))
            },
            Some(Token::Ident(_)) => self.parse_ident_expr(),
            Some(Token::LParen) => {
                self.advance();
                let expr = self.parse_expr()?;
                self.expect(&Token::RParen)?;
                Ok(expr)
            },
            t => {
                proof {
                    reveal_strlit("expression");
                }
                Err(Halt::Error(unexpected_in("expression", t)))
            },
        }
    }

    #[verifier::rlimit(30)]
    fn parse_ident_expr(&mut self) -> (res: Result<Expr, Halt>)
        requires
            old(self).position <= old(self).tokens@.len(),
            tok_at(old(self).tokens@, old(self).position as int) matches Some(Token::Ident(_)),
        ensures
            final(self).tokens@ == old(self).tokens@,
            match p_ident_expr(old(self).tokens@, old(self).position as int) {
                Parsed::Done(e, p) => res is Ok && res->Ok_0@ == e && final(self).position == p,
                Parsed::Fail(m) => halted_with(res, m),
                Parsed::Stuck => stopped(res),
            },
            res is Ok ==> old(self).position < final(self).position <= final(self).tokens@.len(),
        decreases old(self).tokens@.len() - old(self).position, 6nat,
    {
        let name = match self.current() {
            Some(Token::Ident(n)) => {
                let n = n.clone();
                self.advance();
                n
            },
            _ => vstd::pervasive::unreached(),
        };
        assert(Expr::Ident(name)@ == crate::ast::ExprV::Ident(name));
        match self.current() {
            Some(Token::LParen) => {
                self.advance();
                let args = self.parse_args()?;
                self.expect(&Token::RParen)?;
                let r = Expr::Call { name, args };
                assert(p_ident_expr(old(self).tokens@, old(self).position as int) == Parsed::Done(r@, self.position as int));
                Ok(r)
            },
            Some(Token::Dot) => {
                self.advance();
                let field = match self.current() {
                    Some(Token::Ident(f)) => {
                        let f = f.clone();
                        self.advance();
                        f
                    },
                    t => {
                        proof {
                            reveal_strlit("field name");
                        }
                        return Err(Halt::Error(expected_got("field name", t)));
                    },
                };
                if let Some(Token::LParen) = self.current() {
                    self.advance();
                    let args = self.parse_args()?;
                    self.expect(&Token::RParen)?;
                    Ok(Expr::MethodCall { object: Box::new(Expr::Ident(name)), method: field, args })
                } else {
                    let r = Expr::FieldAccess { object: Box::new(Expr::Ident(name)), field };
                    assert(p_ident_expr(old(self).tokens@, old(self).position as int) == Parsed::Done(r@, self.position as int));
                    Ok(r)
                }
            },
            Some(Token::LBracket) => {
                self.advance();
                let index = self.parse_expr()?;
                self.expect(&Token::RBracket)?;
                Ok(Expr::Index { array: Box::new(Expr::Ident(name)), index: Box::new(index) })
            },
            _ => Ok(Expr::Ident(name)),
        }
    }

    fn parse_args(&mut self) -> (res: Result<Vec<Expr>, Halt>)
        requires
            old(self).position <= old(self).tokens@.len(),
        ensures
            final(self).tokens@ == old(self).tokens@,
            match p_args(old(self).tokens@, old(self).position as int) {
                Parsed::Done(a, p) => res is Ok && exprs_view(res->Ok_0@) == a && final(self).position == p,
                Parsed::Fail(m) => halted_with(res, m),
                Parsed::Stuck => stopped(res),
            },
            res is Ok ==> old(self).position <= final(self).position <= final(self).tokens@.len(),
        decreases old(self).tokens@.len() - old(self).position, 13nat,
    {
        let ghost toks = self.tokens@;
        let mut args: Vec<Expr> = vec![];
        if let Some(Token::RParen) = self.current() {
            proof {
                assert(exprs_view(args@) =~= Seq::empty());
            }
            return Ok(args);
        }
        let ghost pos0 = self.position as int;
        loop
            invariant_except_break
                p_args(toks, pos0) == match p_args_from(toks, self.position as int) {
                    Parsed::Done(rest, q) => Parsed::Done(exprs_view(args@) + rest, q),
                    Parsed::Fail(m) => Parsed::Fail(m),
                    Parsed::Stuck => Parsed::Stuck,
                },
            invariant
                self.tokens@ == toks,
                toks == old(self).tokens@,
                pos0 == old(self).position,
                pos0 <= self.position <= toks.len(),
                args@.len() == 0 ==> self.position == pos0,
            ensures
                self.tokens@ == toks,
                pos0 <= self.position <= toks.len(),
                p_args(toks, pos0) == Parsed::Done(exprs_view(args@), self.position as int),
            decreases toks.len() - self.position,
        {
            let ghost ph = self.position as int;
            let e = self.parse_expr()?;
            let ghost before = args@;
            args.push(e);
            proof {
                assert(args@.drop_last() =~= before);
                assert(exprs_view(args@) =~= exprs_view(before) + seq![e@]);
            }
            match self.current() {
                Some(Token::Comma) => {
                    self.advance();
                },
                _ => {
                    assert(p_args_from(toks, ph) == Parsed::Done(seq![e@], self.position as int));
                    assert(exprs_view(before) + seq![e@] =~= exprs_view(args@));
                    break;
                },
            }
            proof {
                assert(forall|r: Seq<crate::ast::ExprV>| exprs_view(before) + (seq![e@] + r) =~= exprs_view(args@) + r);
            }
        }
        Ok(args)
    }

    fn parse_block(&mut self) -> (res: Result<Vec<Stmt>, Halt>)
        requires
            old(self).position <= old(self).tokens@.len(),
        ensures
            final(self).tokens@ == old(self).tokens@,
            match p_block(old(self).tokens@, old(self).position as int) {
                Parsed::Done(b, p) => res is Ok && stmts_view(res->Ok_0@) == b && final(self).position == p,
                Parsed::Fail(m) => halted_with(res, m),
                Parsed::Stuck => stopped(res),
            },
            res is Ok ==> old(self).position <= final(self).position <= final(self).tokens@.len(),
        decreases old(self).tokens@.len() - old(self).position, 17nat,
    {
        let ghost toks = self.tokens@;
        let ghost pos0 = self.position as int;
        let mut stmts: Vec<Stmt> = vec![];
        proof {
            assert(stmts_view(stmts@) =~= Seq::empty());
            assert(forall|r: Seq<crate::ast::StmtV>| stmts_view(stmts@) + r =~= r);
        }
        loop
            invariant_except_break
                p_block(toks, pos0) == match p_block(toks, self.position as int) {
                    Parsed::Done(rest, q) => Parsed::Done(stmts_view(stmts@) + rest, q),
                    Parsed::Fail(m) => Parsed::Fail(m),
                    Parsed::Stuck => Parsed::Stuck,
                },
            invariant
                self.tokens@ == toks,
                toks == old(self).tokens@,
                pos0 == old(self).position,
                pos0 <= self.position <= toks.len(),
            ensures
                self.tokens@ == toks,
                pos0 <= self.position <= toks.len(),
                p_block(toks, pos0) == Parsed::Done(stmts_view(stmts@), self.position as int),
            decreases toks.len() - self.position,
        {
            let tok = match self.current() {
                Some(t) => t,
                None => {
                    proof {
                        assert(stmts_view(stmts@) + Seq::empty() =~= stmts_view(stmts@));
                    }
                    break;
                },
            };
            if tok.is(&Token::RBrace) {
                proof {
                    assert(stmts_view(stmts@) + Seq::empty() =~= stmts_view(stmts@));
                }
                break;
            }
            let ghost ph = self.position as int;
            let stmt = self.parse_stmt()?;
            let ghost before = stmts@;
            stmts.push(stmt);
            proof {
                assert(stmts@.drop_last() =~= before);
                assert(forall|r: Seq<crate::ast::StmtV>| stmts_view(before) + (seq![stmt@] + r) =~= stmts_view(stmts@) + r);
            }
        }
        Ok(stmts)
    }

    fn parse_stmt(&mut self) -> (res: Result<Stmt, Halt>)
        requires
            old(self).position <= old(self).tokens@.len(),
        ensures
            final(self).tokens@ == old(self).tokens@,
            match p_stmt(old(self).tokens@, old(self).position as int) {
                Parsed::Done(st, p) => res is Ok && res->Ok_0@ == st && final(self).position == p,
                Parsed::Fail(m) => halted_with(res, m),
                Parsed::Stuck => stopped(res),
            },
            res is Ok ==> old(self).position < final(self).position <= final(self).tokens@.len(),
        decreases old(self).tokens@.len() - old(self).position, 16nat,
    {
        match self.current() {
            Some(Token::Const) => self.parse_var_decl(true),
            Some(Token::TypeInt) | Some(Token::TypeFloat) | Some(Token::TypeString) | Some(Token::TypeBool) =>
                self.parse_var_decl(false),
            Some(Token::If) => self.parse_if(),
            Some(Token::While) => self.parse_while(),
            Some(Token::For) => self.parse_for(),
            Some(Token::Return) => self.parse_return(),
            Some(Token::Ident(_)) => self.parse_ident_stmt(true),
            t => {
                proof {
                    reveal_strlit("statement");
                }
                Err(Halt::Error(unexpected_in("statement", t)))
            },
        }
    }

    /// An expression and the `;` after it.
    fn parse_expr_semi(&mut self) -> (res: Result<Expr, Halt>)
        requires
            old(self).position <= old(self).tokens@.len(),
        ensures
            final(self).tokens@ == old(self).tokens@,
            match p_expr_semi(old(self).tokens@, old(self).position as int) {
                Parsed::Done(e, p) => res is Ok && res->Ok_0@ == e && final(self).position == p,
                Parsed::Fail(m) => halted_with(res, m),
                Parsed::Stuck => stopped(res),
            },
            res is Ok ==> old(self).position < final(self).position <= final(self).tokens@.len(),
        decreases old(self).tokens@.len() - old(self).position, 14nat,
    {
        let value = self.parse_expr()?;
        self.expect(&Token::Semicolon)?;
        Ok(value)
    }

    fn parse_var_decl(&mut self, is_const: bool) -> (res: Result<Stmt, Halt>)
        requires
            old(self).position <= old(self).tokens@.len(),
            is_const ==> old(self).position < old(self).tokens@.len(),
        ensures
            final(self).tokens@ == old(self).tokens@,
            match p_var_decl(old(self).tokens@, old(self).position as int, is_const) {
                Parsed::Done(st, p) => res is Ok && res->Ok_0@ == st && final(self).position == p,
                Parsed::Fail(m) => halted_with(res, m),
                Parsed::Stuck => stopped(res),
            },
            res is Ok ==> old(self).position < final(self).position <= final(self).tokens@.len(),
        decreases old(self).tokens@.len() - old(self).position, 15nat,
    {
        if is_const {
            self.advance();
        }
        let ty = match self.current() {
            Some(Token::TypeInt) | Some(Token::TypeFloat) | Some(Token::TypeString) | Some(Token::TypeBool) => {
                Some(self.parse_type()?)
            },
            _ => None,
        };
        proof {
            reveal_strlit("variable name");
        }
        let name = self.expect_name("variable name")?;
        match self.current() {
            Some(Token::Assign) | Some(Token::ColonAssign) => {
                self.advance();
            },
            t => {
                proof {
                    reveal_strlit("= or :=");
                }
                return Err(Halt::Error(expected_got("= or :=", t)));
            },
        }
        let value = self.parse_expr_semi()?;
        Ok(Stmt::VarDecl { ty, name, value, is_const })
    }

    /// `{ block }`
    fn parse_braced(&mut self) -> (res: Result<Vec<Stmt>, Halt>)
        requires
            old(self).position <= old(self).tokens@.len(),
        ensures
            final(self).tokens@ == old(self).tokens@,
            match p_braced(old(self).tokens@, old(self).position as int) {
                Parsed::Done(b, p) => res is Ok && stmts_view(res->Ok_0@) == b && final(self).position == p,
                Parsed::Fail(m) => halted_with(res, m),
                Parsed::Stuck => stopped(res),
            },
            res is Ok ==> old(self).position < final(self).position <= final(self).tokens@.len(),
        decreases old(self).tokens@.len() - old(self).position, 18nat,
    {
        self.expect(&Token::LBrace)?;
        let block = self.parse_block()?;
        self.expect(&Token::RBrace)?;
        Ok(block)
    }

    /// `( expr )`
    fn parse_paren_expr(&mut self) -> (res: Result<Expr, Halt>)
        requires
            old(self).position <= old(self).tokens@.len(),
        ensures
            final(self).tokens@ == old(self).tokens@,
            match p_paren_expr(old(self).tokens@, old(self).position as int) {
                Parsed::Done(e, p) => res is Ok && res->Ok_0@ == e && final(self).position == p,
                Parsed::Fail(m) => halted_with(res, m),
                Parsed::Stuck => stopped(res),
            },
            res is Ok ==> old(self).position < final(self).position <= final(self).tokens@.len(),
        decreases old(self).tokens@.len() - old(self).position, 14nat,
    {
        self.expect(&Token::LParen)?;
        let e = self.parse_expr()?;
        self.expect(&Token::RParen)?;
        Ok(e)
    }

    fn parse_if(&mut self) -> (res: Result<Stmt, Halt>)
        requires
            old(self).position < old(self).tokens@.len(),
        ensures
            final(self).tokens@ == old(self).tokens@,
            match p_if(old(self).tokens@, old(self).position as int) {
                Parsed::Done(st, p) => res is Ok && res->Ok_0@ == st && final(self).position == p,
                Parsed::Fail(m) => halted_with(res, m),
                Parsed::Stuck => stopped(res),
            },
            res is Ok ==> old(self).position < final(self).position <= final(self).tokens@.len(),
        decreases old(self).tokens@.len() - old(self).position, 15nat,
    {
        self.advance();
        let condition = self.parse_paren_expr()?;
        let then_block = self.parse_braced()?;
        let else_block = if let Some(Token::Else) = self.current() {
            self.advance();
            if let Some(Token::If) = self.current() {
                let else_if = self.parse_if()?;
                let ghost e0 = else_if;
                let mut v = Vec::new();
                v.push(else_if);
                proof {
                    assert(v@.drop_last() =~= Seq::<Stmt>::empty());
                    assert(v@.last() == e0);
                    assert(stmts_view(v@.drop_last()) =~= Seq::<crate::ast::StmtV>::empty());
                    assert(stmts_view(v@) =~= seq![e0@]);
                }
                Some(v)
            } else {
                let block = self.parse_braced()?;
                Some(block)
            }
        } else {
            None
        };
        Ok(Stmt::If { condition, then_block, else_block })
    }

    fn parse_while(&mut self) -> (res: Result<Stmt, Halt>)
        requires
            old(self).position < old(self).tokens@.len(),
        ensures
            final(self).tokens@ == old(self).tokens@,
            match p_while(old(self).tokens@, old(self).position as int) {
                Parsed::Done(st, p) => res is Ok && res->Ok_0@ == st && final(self).position == p,
                Parsed::Fail(m) => halted_with(res, m),
                Parsed::Stuck => stopped(res),
            },
            res is Ok ==> old(self).position < final(self).position <= final(self).tokens@.len(),
        decreases old(self).tokens@.len() - old(self).position, 15nat,
    {
        self.advance();
        let condition = self.parse_paren_expr()?;
        let body = self.parse_braced()?;
        Ok(Stmt::While { condition, body })
    }

    fn parse_return(&mut self) -> (res: Result<Stmt, Halt>)
        requires
            old(self).position < old(self).tokens@.len(),
        ensures
            final(self).tokens@ == old(self).tokens@,
            match p_return(old(self).tokens@, old(self).position as int) {
                Parsed::Done(st, p) => res is Ok && res->Ok_0@ == st && final(self).position == p,
                Parsed::Fail(m) => halted_with(res, m),
                Parsed::Stuck => stopped(res),
            },
            res is Ok ==> old(self).position < final(self).position <= final(self).tokens@.len(),
        decreases old(self).tokens@.len() - old(self).position, 15nat,
    {
        self.advance();
        if let Some(Token::Semicolon) = self.current() {
            self.advance();
            return Ok(Stmt::Return(None));
        }
        let expr = self.parse_expr_semi()?;
        Ok(Stmt::Return(Some(expr)))
    }

    /// The value after an assignment operator, and the `;` after it when `terminated`.
    fn parse_value(&mut self, terminated: bool) -> (res: Result<Expr, Halt>)
        requires
            old(self).position <= old(self).tokens@.len(),
        ensures
            final(self).tokens@ == old(self).tokens@,
            match p_value(old(self).tokens@, old(self).position as int, terminated) {
                Parsed::Done(e, p) => res is Ok && res->Ok_0@ == e && final(self).position == p,
                Parsed::Fail(m) => halted_with(res, m),
                Parsed::Stuck => stopped(res),
            },
            res is Ok ==> old(self).position < final(self).position <= final(self).tokens@.len(),
    {
        if terminated {
            self.parse_expr_semi()
        } else {
            self.parse_expr()
        }
    }

    /// The `;` that ends a `terminated` statement.
    fn parse_end(&mut self, terminated: bool) -> (res: Result<(), Halt>)
        requires
            old(self).position <= old(self).tokens@.len(),
        ensures
            final(self).tokens@ == old(self).tokens@,
            match p_end(old(self).tokens@, old(self).position as int, terminated) {
                Parsed::Done(_, p) => res is Ok && final(self).position == p,
                Parsed::Fail(m) => halted_with(res, m),
                Parsed::Stuck => stopped(res),
            },
            res is Ok ==> old(self).position <= final(self).position <= final(self).tokens@.len(),
    {
        if terminated {
            self.expect(&Token::Semicolon)
        } else {
            Ok(())
        }
    }

    #[verifier::rlimit(40)]
    fn parse_ident_stmt(&mut self, terminated: bool) -> (res: Result<Stmt, Halt>)
        requires
            old(self).position <= old(self).tokens@.len(),
            tok_at(old(self).tokens@, old(self).position as int) matches Some(Token::Ident(_)),
        ensures
            final(self).tokens@ == old(self).tokens@,
            match p_ident_stmt(old(self).tokens@, old(self).position as int, terminated) {
                Parsed::Done(st, p) => res is Ok && res->Ok_0@ == st && final(self).position == p,
                Parsed::Fail(m) => halted_with(res, m),
                Parsed::Stuck => stopped(res),
            },
            res is Ok ==> old(self).position < final(self).position <= final(self).tokens@.len(),
        decreases old(self).tokens@.len() - old(self).position, 15nat,
    {
        let name = match self.current() {
            Some(Token::Ident(n)) => {
                let n = n.clone();
                self.advance();
                n
            },
            _ => vstd::pervasive::unreached(),
        };
        assert(Expr::Ident(name)@ == crate::ast::ExprV::Ident(name));
        match self.current() {
            Some(Token::ColonAssign) => {
                self.advance();
                let value = self.parse_value(terminated)?;
                Ok(Stmt::VarDecl { ty: None, name, value, is_const: false })
            },
            Some(Token::Assign) => {
                self.advance();
                let value = self.parse_value(terminated)?;
                Ok(Stmt::Assign { name, value })
            },
            Some(Token::PlusPlus) => {
                self.advance();
                self.parse_end(terminated)?;
                let e = Expr::UnaryOp { op: UnaryOp::PostIncrement, expr: Box::new(Expr::Ident(name)) };
                Ok(Stmt::Expr(e))
            },
            Some(Token::MinusMinus) => {
                self.advance();
                self.parse_end(terminated)?;
                let e = Expr::UnaryOp { op: UnaryOp::PostDecrement, expr: Box::new(Expr::Ident(name)) };
                Ok(Stmt::Expr(e))
            },
            Some(Token::PlusAssign) => {
                self.advance();
                let value = self.parse_value(terminated)?;
                let v = Expr::BinaryOp { op: BinaryOp::Add, left: Box::new(Expr::Ident(name.clone())), right: Box::new(value) };
                Ok(Stmt::Assign { name, value: v })
            },
            Some(Token::MinusAssign) => {
                self.advance();
                let value = self.parse_value(terminated)?;
                let v = Expr::BinaryOp { op: BinaryOp::Sub, left: Box::new(Expr::Ident(name.clone())), right: Box::new(value) };
                Ok(Stmt::Assign { name, value: v })
            },
            Some(Token::LParen) => {
                self.advance();
                let args = self.parse_args()?;
                self.expect(&Token::RParen)?;
                self.parse_end(terminated)?;
                Ok(Stmt::Expr(Expr::Call { name, args }))
            },
            t => {
                proof {
                    reveal_strlit("statement");
                }
                Err(Halt::Error(unexpected_in("statement", t)))
            },
        }
    }

    #[verifier::rlimit(40)]
    fn parse_for(&mut self) -> (res: Result<Stmt, Halt>)
        requires
            old(self).position < old(self).tokens@.len(),
        ensures
            final(self).tokens@ == old(self).tokens@,
            match p_for(old(self).tokens@, old(self).position as int) {
                Parsed::Done(st, p) => res is Ok && res->Ok_0@ == st && final(self).position == p,
                Parsed::Fail(m) => halted_with(res, m),
                Parsed::Stuck => stopped(res),
            },
            res is Ok ==> old(self).position < final(self).position <= final(self).tokens@.len(),
        decreases old(self).tokens@.len() - old(self).position, 15nat,
    {
        self.advance();
        self.expect(&Token::LParen)?;
        let is_range = match (self.current(), self.peek()) {
            (Some(Token::TypeInt), _) | (Some(Token::TypeFloat), _) => true,
            _ => false,
        };
        if is_range {
            let ty = Some(self.parse_type()?);
            proof {
                reveal_strlit("variable name");
            }
            let name = self.expect_name("variable name")?;
            self.expect(&Token::Assign)?;
            let range = self.parse_expr()?;
            self.expect(&Token::RParen)?;
            let body = self.parse_braced()?;
            Ok(Stmt::ForRange { ty, name, range, body })
        } else {
            let init = Box::new(self.parse_stmt()?);
            let condition = self.parse_expr_semi()?;
            match self.current() {
                Some(Token::Ident(_)) => {},
                _ => return Err(Halt::Stop),
            }
            let step = Box::new(self.parse_ident_stmt(false)?);
            self.expect(&Token::RParen)?;
            let body = self.parse_braced()?;
            Ok(Stmt::For { init, condition, step, body })
        }
    }

    fn parse_params(&mut self) -> (res: Result<Vec<Param>, Halt>)
        requires
            old(self).position <= old(self).tokens@.len(),
        ensures
            final(self).tokens@ == old(self).tokens@,
            match p_params(old(self).tokens@, old(self).position as int) {
                Parsed::Done(ps, p) => res is Ok && res->Ok_0@ == ps && final(self).position == p,
                Parsed::Fail(m) => halted_with(res, m),
                Parsed::Stuck => stopped(res),
            },
            res is Ok ==> old(self).position <= final(self).position <= final(self).tokens@.len(),
    {
        let ghost toks = self.tokens@;
        let ghost pos0 = self.position as int;
        let mut params: Vec<Param> = vec![];
        if let Some(Token::RParen) = self.current() {
            return Ok(params);
        }
        proof {
            assert(params@ =~= Seq::empty());
            assert(forall|r: Seq<Param>| params@ + r =~= r);
        }
        loop
            invariant_except_break
                p_params(toks, pos0) == match p_params_from(toks, self.position as int) {
                    Parsed::Done(rest, q) => Parsed::Done(params@ + rest, q),
                    Parsed::Fail(m) => Parsed::Fail(m),
                    Parsed::Stuck => Parsed::Stuck,
                },
            invariant
                self.tokens@ == toks,
                toks == old(self).tokens@,
                pos0 == old(self).position,
                pos0 <= self.position <= toks.len(),
            ensures
                self.tokens@ == toks,
                pos0 <= self.position <= toks.len(),
                p_params(toks, pos0) == Parsed::Done(params@, self.position as int),
            decreases toks.len() - self.position,
        {
            let ghost ph = self.position as int;
            let (by_ref, by_const_ref) = if let Some(Token::Ampersand) = self.current() {
                self.advance();
                if let Some(Token::Const) = self.current() {
                    self.advance();
                    (false, true)
                } else {
                    (true, false)
                }
            } else {
                (false, false)
            };
            let ty = self.parse_type()?;
            proof {
                reveal_strlit("param name");
            }
            let name = self.expect_name("param name")?;
            let ghost before = params@;
            let param = Param { ty, name, by_ref, by_const_ref };
            params.push(param);
            proof {
                assert(forall|r: Seq<Param>| before + (seq![param] + r) =~= params@ + r);
            }
            match self.current() {
                Some(Token::Comma) => {
                    self.advance();
                },
                _ => {
                    assert(p_params_from(toks, ph) == Parsed::Done(seq![param], self.position as int));
                    assert(before + seq![param] =~= params@);
                    break;
                },
            }
        }
        Ok(params)
    }

    fn parse_function(&mut self) -> (res: Result<TopLevel, Halt>)
        requires
            old(self).position <= old(self).tokens@.len(),
        ensures
            final(self).tokens@ == old(self).tokens@,
            match p_function(old(self).tokens@, old(self).position as int) {
                Parsed::Done(t, p) => res is Ok && res->Ok_0@ == t && final(self).position == p,
                Parsed::Fail(m) => halted_with(res, m),
                Parsed::Stuck => stopped(res),
            },
            res is Ok ==> old(self).position < final(self).position <= final(self).tokens@.len(),
    {
        let return_ty = self.parse_type()?;
        proof {
            reveal_strlit("function name");
        }
        let name = self.expect_name("function name")?;
        self.expect(&Token::LParen)?;
        let params = self.parse_params()?;
        self.expect(&Token::RParen)?;
        let body = self.parse_braced()?;
        Ok(TopLevel::Function { return_ty, name, params, body })
    }

    fn parse_top_level(&mut self) -> (res: Result<TopLevel, Halt>)
        requires
            old(self).position <= old(self).tokens@.len(),
        ensures
            final(self).tokens@ == old(self).tokens@,
            match p_top_level(old(self).tokens@, old(self).position as int) {
                Parsed::Done(t, p) => res is Ok && res->Ok_0@ == t && final(self).position == p,
                Parsed::Fail(m) => halted_with(res, m),
                Parsed::Stuck => stopped(res),
            },
            res is Ok ==> old(self).position < final(self).position <= final(self).tokens@.len(),
    {
        match self.current() {
            Some(Token::Struct) | Some(Token::Interface) | Some(Token::LParen) => Err(Halt::Stop),
            _ => self.parse_function(),
        }
    }

    /// Parses items up to the end of the tokens.
    fn parse_items(&mut self) -> (res: Result<Program, Halt>)
        requires
            old(self).position <= old(self).tokens@.len(),
        ensures
            final(self).tokens@ == old(self).tokens@,
            match p_program(old(self).tokens@, old(self).position as int) {
                Parsed::Done(prog, p) => res is Ok && res->Ok_0@ == prog && final(self).position == p,
                Parsed::Fail(m) => halted_with(res, m),
                Parsed::Stuck => stopped(res),
            },
    {
        let ghost toks = self.tokens@;
        let ghost pos0 = self.position as int;
        let mut items: Vec<TopLevel> = vec![];
        proof {
            assert(top_levels_view(items@) =~= Seq::empty());
            assert(forall|r: Seq<crate::ast::TopLevelV>| top_levels_view(items@) + r =~= r);
        }
        while self.current().is_some()
            invariant
                self.tokens@ == toks,
                toks == old(self).tokens@,
                pos0 == old(self).position,
                pos0 <= self.position <= toks.len(),
                p_items(toks, pos0) == match p_items(toks, self.position as int) {
                    Parsed::Done(rest, q) => Parsed::Done(top_levels_view(items@) + rest, q),
                    Parsed::Fail(m) => Parsed::Fail(m),
                    Parsed::Stuck => Parsed::Stuck,
                },
            decreases toks.len() - self.position,
        {
            let item = self.parse_top_level()?;
            let ghost before = items@;
            items.push(item);
            proof {
                assert(top_levels_view(items@) =~= top_levels_view(before).push(item@));
                assert(forall|r: Seq<crate::ast::TopLevelV>| top_levels_view(before) + (seq![item@] + r) =~= top_levels_view(items@) + r);
            }
        }
        proof {
            assert(top_levels_view(items@) + Seq::empty() =~= top_levels_view(items@));
        }
        let prog = Program { items };
        assert(prog@.items == top_levels_view(prog.items@));
        Ok(prog)
    }

    /// Parses items up to the end of the tokens. Struct, interface and method
    /// declarations are not implemented: `requires` leaves out the inputs where
    /// the parser would reach one, as it does a `for` step that does not start
    /// with a name.
    pub fn parse_program(&mut self) -> (res: Result<Program, String>)
        requires
            !(p_program(old(self).toks(), old(self).pos()) is Stuck),
        ensures
            final(self).toks() == old(self).toks(),
            match p_program(old(self).toks(), old(self).pos()) {
                Parsed::Done(prog, p) => res is Ok && res->Ok_0@ == prog && final(self).pos() == p,
                Parsed::Fail(m) => res is Err && res->Err_0@ == m,
                Parsed::Stuck => false,
            },
    {
        match self.parse_items() {
            Ok(prog) => Ok(prog),
            Err(Halt::Error(e)) => Err(e),
            Err(Halt::Stop) => vstd::pervasive::unreached(),
        }
    }

    /// Parses items up to the end of the tokens, or gives `None` where the
    /// parser reaches a construct it does not implement (a struct, interface or
    /// method declaration, or a `for` step that does not start with a name).
    pub fn parse_program_checked(&mut self) -> (res: Option<Result<Program, String>>)
        ensures
            final(self).toks() == old(self).toks(),
            match p_program(old(self).toks(), old(self).pos()) {
                Parsed::Done(prog, p) => res matches Some(Ok(r)) && r@ == prog && final(self).pos() == p,
                Parsed::Fail(m) => res matches Some(Err(e)) && e@ == m,
                Parsed::Stuck => res is None,
            },
    {
        if self.position > self.tokens.len() {
            return None;
        }
        match self.parse_items() {
            Ok(prog) => Some(Ok(prog)),
            Err(Halt::Error(e)) => Some(Err(e)),
            Err(Halt::Stop) => None,
        }
    }
}

} // verus!
