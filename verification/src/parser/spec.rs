use vstd::prelude::*;
use crate::ast::{BinaryOp, ExprV, Literal, Param, ProgramV, StmtV, TopLevelV, Type, UnaryOp};
use crate::lexer::token::{Token, token_debug};

verus! {

/// The outcome of parsing from a position: a value and the position after it, an
/// error message, or a stop where the parser cannot go on (a construct it does not
/// implement yet).
pub enum Parsed<T> {
    Done(T, int),
    Fail(Seq<char>),
    Stuck,
}

/// The token at position `p`, if there is one.
pub open spec fn tok_at(toks: Seq<Token>, p: int) -> Option<Token> {
    if 0 <= p < toks.len() {
        Some(toks[p])
    } else {
        None
    }
}

/// Whether `p` lies between `lo` and the end of the tokens.
pub open spec fn within(toks: Seq<Token>, lo: int, p: int) -> bool {
    lo <= p <= toks.len()
}

/// How a token, or the end of input, appears in messages.
pub open spec fn tok_text(t: Option<Token>) -> Seq<char> {
    match t {
        Some(t) => token_debug(t),
        None => "EOF"@,
    }
}

/// `Expected <what>, got <token>`.
pub open spec fn expected_msg(what: Seq<char>, t: Option<Token>) -> Seq<char> {
    "Expected "@ + what + ", got "@ + tok_text(t)
}

/// `Unexpected token in <place>: <token>`, or `Unexpected EOF in <place>`.
pub open spec fn unexpected_msg(place: Seq<char>, t: Option<Token>) -> Seq<char> {
    match t {
        Some(t) => "Unexpected token in "@ + place + ": "@ + token_debug(t),
        None => "Unexpected EOF in "@ + place,
    }
}

/// Consumes the token `expected`.
pub open spec fn p_expect(toks: Seq<Token>, pos: int, expected: Token) -> Parsed<()> {
    match tok_at(toks, pos) {
        Some(t) => if t == expected {
            Parsed::Done((), pos + 1)
        } else {
            Parsed::Fail(expected_msg(token_debug(expected), Some(t)))
        },
        None => Parsed::Fail(expected_msg(token_debug(expected), None)),
    }
}

/// Consumes a name.
pub open spec fn p_name(toks: Seq<Token>, pos: int, what: Seq<char>) -> Parsed<String> {
    match tok_at(toks, pos) {
        Some(Token::Ident(n)) => Parsed::Done(n, pos + 1),
        t => Parsed::Fail(expected_msg(what, t)),
    }
}

/// The type that a type keyword names.
pub open spec fn keyword_type(t: Option<Token>) -> Option<Type> {
    match t {
        Some(Token::TypeInt) => Some(Type::Int),
        Some(Token::TypeFloat) => Some(Type::Float),
        Some(Token::TypeString) => Some(Type::String),
        Some(Token::TypeBool) => Some(Type::Bool),
        Some(Token::TypeVoid) => Some(Type::Void),
        Some(Token::TypeNever) => Some(Type::Never),
        _ => None,
    }
}

/// A type: a type keyword, made nullable by a following `?`.
pub open spec fn p_type(toks: Seq<Token>, pos: int) -> Parsed<Type> {
    match keyword_type(tok_at(toks, pos)) {
        Some(b) => if tok_at(toks, pos + 1) == Some(Token::Question) {
            Parsed::Done(Type::Nullable(Box::new(b)), pos + 2)
        } else {
            Parsed::Done(b, pos + 1)
        },
        None => Parsed::Fail(expected_msg("type"@, tok_at(toks, pos))),
    }
}

/// One parameter and the ones after it: `[&const | &] type name {, ...}`. `&const`
/// marks a constant reference, a lone `&` a reference.
pub open spec fn p_params_from(toks: Seq<Token>, p: int) -> Parsed<Seq<Param>>
    decreases toks.len() - p,
{
    if !within(toks, 0, p) {
        Parsed::Stuck
    } else {
        let amp = tok_at(toks, p) == Some(Token::Ampersand);
        let by_const_ref = amp && tok_at(toks, p + 1) == Some(Token::Const);
        let by_ref = amp && !by_const_ref;
        let p2 = if by_const_ref {
            p + 2
        } else if amp {
            p + 1
        } else {
            p
        };
        match p_type(toks, p2) {
            Parsed::Done(ty, p3) => match p_name(toks, p3, "param name"@) {
                Parsed::Done(name, p4) => {
                    let param = Param { ty, name, by_ref, by_const_ref };
                    if tok_at(toks, p4) == Some(Token::Comma) {
                        match p_params_from(toks, p4 + 1) {
                            Parsed::Done(rest, q) => Parsed::Done(seq![param] + rest, q),
                            Parsed::Fail(m) => Parsed::Fail(m),
                            Parsed::Stuck => Parsed::Stuck,
                        }
                    } else {
                        Parsed::Done(seq![param], p4)
                    }
                },
                Parsed::Fail(m) => Parsed::Fail(m),
                Parsed::Stuck => Parsed::Stuck,
            },
            Parsed::Fail(m) => Parsed::Fail(m),
            Parsed::Stuck => Parsed::Stuck,
        }
    }
}

/// A parameter list, possibly empty (before `)`).
pub open spec fn p_params(toks: Seq<Token>, pos: int) -> Parsed<Seq<Param>> {
    if tok_at(toks, pos) == Some(Token::RParen) {
        Parsed::Done(Seq::empty(), pos)
    } else {
        p_params_from(toks, pos)
    }
}

/// The precedence and operator of a binary operator token.
pub open spec fn binop_info(t: Option<Token>) -> Option<(nat, BinaryOp)> {
    match t {
        Some(Token::Or) => Some((1, BinaryOp::Or)),
        Some(Token::And) => Some((2, BinaryOp::And)),
        Some(Token::EqualEqual) => Some((3, BinaryOp::Eq)),
        Some(Token::NotEqual) => Some((3, BinaryOp::Neq)),
        Some(Token::Less) => Some((4, BinaryOp::Lt)),
        Some(Token::Greater) => Some((4, BinaryOp::Gt)),
        Some(Token::LessEqual) => Some((4, BinaryOp::Lte)),
        Some(Token::GreaterEqual) => Some((4, BinaryOp::Gte)),
        Some(Token::DotDot) => Some((5, BinaryOp::Range)),
        Some(Token::DotDotEq) => Some((5, BinaryOp::RangeInclusive)),
        Some(Token::QuestionQuestion) => Some((6, BinaryOp::NullCoalesce)),
        Some(Token::Plus) => Some((7, BinaryOp::Add)),
        Some(Token::Minus) => Some((7, BinaryOp::Sub)),
        Some(Token::Star) => Some((8, BinaryOp::Mul)),
        Some(Token::Slash) => Some((8, BinaryOp::Div)),
        Some(Token::Percent) => Some((8, BinaryOp::Mod)),
        Some(Token::StarStar) => Some((9, BinaryOp::Pow)),
        _ => None,
    }
}

/// An expression.
pub open spec fn p_expr(toks: Seq<Token>, pos: int) -> Parsed<ExprV>
    decreases toks.len() - pos, 11nat,
{
    if !within(toks, 0, pos) {
        Parsed::Stuck
    } else {
        p_binary(toks, pos, 0)
    }
}

/// An expression whose operators bind at least as tightly as `min`.
pub open spec fn p_binary(toks: Seq<Token>, pos: int, min: nat) -> Parsed<ExprV>
    decreases toks.len() - pos, 10nat,
{
    if !within(toks, 0, pos) {
        Parsed::Stuck
    } else {
        match p_unary(toks, pos) {
            Parsed::Done(l, p1) => if within(toks, pos, p1) {
                p_binary_rest(toks, p1, min, l)
            } else {
                Parsed::Stuck
            },
            Parsed::Fail(m) => Parsed::Fail(m),
            Parsed::Stuck => Parsed::Stuck,
        }
    }
}

/// The operators that follow `left`: each binds its right operand at one level
/// above its own precedence, so operators of one level group to the left.
pub open spec fn p_binary_rest(toks: Seq<Token>, p: int, min: nat, left: ExprV) -> Parsed<ExprV>
    decreases toks.len() - p, 9nat,
{
    if !within(toks, 0, p) {
        Parsed::Stuck
    } else {
        match binop_info(tok_at(toks, p)) {
            None => Parsed::Done(left, p),
            Some((prec, op)) => if prec < min {
                Parsed::Done(left, p)
            } else {
                match p_binary(toks, p + 1, prec + 1) {
                    Parsed::Done(r, q) => if within(toks, p + 1, q) {
                        p_binary_rest(
                            toks,
                            q,
                            min,
                            ExprV::BinaryOp { op, left: Box::new(left), right: Box::new(r) },
                        )
                    } else {
                        Parsed::Stuck
                    },
                    Parsed::Fail(m) => Parsed::Fail(m),
                    Parsed::Stuck => Parsed::Stuck,
                }
            },
        }
    }
}

/// A unary expression: `!` or `-` before a unary expression, or a primary one.
pub open spec fn p_unary(toks: Seq<Token>, pos: int) -> Parsed<ExprV>
    decreases toks.len() - pos, 8nat,
{
    if !within(toks, 0, pos) {
        Parsed::Stuck
    } else {
        match tok_at(toks, pos) {
            Some(Token::Not) => match p_unary(toks, pos + 1) {
                Parsed::Done(e, p) => Parsed::Done(ExprV::UnaryOp { op: UnaryOp::Not, expr: Box::new(e) }, p),
                Parsed::Fail(m) => Parsed::Fail(m),
                Parsed::Stuck => Parsed::Stuck,
            },
            Some(Token::Minus) => match p_unary(toks, pos + 1) {
                Parsed::Done(e, p) => Parsed::Done(ExprV::UnaryOp { op: UnaryOp::Neg, expr: Box::new(e) }, p),
                Parsed::Fail(m) => Parsed::Fail(m),
                Parsed::Stuck => Parsed::Stuck,
            },
            _ => p_primary(toks, pos),
        }
    }
}

/// A literal, a name (with what may follow it), or an expression in parentheses.
pub open spec fn p_primary(toks: Seq<Token>, pos: int) -> Parsed<ExprV>
    decreases toks.len() - pos, 7nat,
{
    if !within(toks, 0, pos) {
        Parsed::Stuck
    } else {
        match tok_at(toks, pos) {
            Some(Token::Int(n)) => Parsed::Done(ExprV::Literal(Literal::Int(n)), pos + 1),
            Some(Token::Float(f)) => Parsed::Done(ExprV::Literal(Literal::Float(f)), pos + 1),
            Some(Token::StringLiteral(s)) => Parsed::Done(ExprV::Literal(Literal::String(s)), pos + 1),
            Some(Token::True) => Parsed::Done(ExprV::Literal(Literal::Bool(true)), pos + 1),
            Some(Token::False) => Parsed::Done(ExprV::Literal(Literal::Bool(false)), pos + 1),
            Some(Token::Null) => Parsed::Done(ExprV::Literal(Literal::Null), pos + 1),
            Some(Token::Ident(_)) => p_ident_expr(toks, pos),
            Some(Token::LParen) => match p_expr(toks, pos + 1) {
                Parsed::Done(e, p) => if within(toks, pos + 1, p) {
                    match p_expect(toks, p, Token::RParen) {
                        Parsed::Done(_, q) => Parsed::Done(e, q),
                        Parsed::Fail(m) => Parsed::Fail(m),
                        Parsed::Stuck => Parsed::Stuck,
                    }
                } else {
                    Parsed::Stuck
                },
                Parsed::Fail(m) => Parsed::Fail(m),
                Parsed::Stuck => Parsed::Stuck,
            },
            t => Parsed::Fail(unexpected_msg("expression"@, t)),
        }
    }
}

/// What may follow a name in an expression: a call, a field or method, an index.
pub open spec fn p_ident_expr(toks: Seq<Token>, pos: int) -> Parsed<ExprV>
    decreases toks.len() - pos, 6nat,
{
    if !within(toks, 0, pos) {
        Parsed::Stuck
    } else {
        match tok_at(toks, pos) {
            Some(Token::Ident(name)) => match tok_at(toks, pos + 1) {
                Some(Token::LParen) => match p_args(toks, pos + 2) {
                    Parsed::Done(args, p) => if within(toks, pos + 2, p) {
                        match p_expect(toks, p, Token::RParen) {
                            Parsed::Done(_, q) => Parsed::Done(ExprV::Call { name, args }, q),
                            Parsed::Fail(m) => Parsed::Fail(m),
                            Parsed::Stuck => Parsed::Stuck,
                        }
                    } else {
                        Parsed::Stuck
                    },
                    Parsed::Fail(m) => Parsed::Fail(m),
                    Parsed::Stuck => Parsed::Stuck,
                },
                Some(Token::Dot) => match tok_at(toks, pos + 2) {
                    Some(Token::Ident(field)) => if tok_at(toks, pos + 3) == Some(Token::LParen) {
                        match p_args(toks, pos + 4) {
                            Parsed::Done(args, p) => if within(toks, pos + 4, p) {
                                match p_expect(toks, p, Token::RParen) {
                                    Parsed::Done(_, q) => Parsed::Done(
                                        ExprV::MethodCall {
                                            object: Box::new(ExprV::Ident(name)),
                                            method: field,
                                            args,
                                        },
                                        q,
                                    ),
                                    Parsed::Fail(m) => Parsed::Fail(m),
                                    Parsed::Stuck => Parsed::Stuck,
                                }
                            } else {
                                Parsed::Stuck
                            },
                            Parsed::Fail(m) => Parsed::Fail(m),
                            Parsed::Stuck => Parsed::Stuck,
                        }
                    } else {
                        Parsed::Done(
                            ExprV::FieldAccess { object: Box::new(ExprV::Ident(name)), field },
                            pos + 3,
                        )
                    },
                    t => Parsed::Fail(expected_msg("field name"@, t)),
                },
                Some(Token::LBracket) => match p_expr(toks, pos + 2) {
                    Parsed::Done(index, p) => if within(toks, pos + 2, p) {
                        match p_expect(toks, p, Token::RBracket) {
                            Parsed::Done(_, q) => Parsed::Done(
                                ExprV::Index {
                                    array: Box::new(ExprV::Ident(name)),
                                    index: Box::new(index),
                                },
                                q,
                            ),
                            Parsed::Fail(m) => Parsed::Fail(m),
                            Parsed::Stuck => Parsed::Stuck,
                        }
                    } else {
                        Parsed::Stuck
                    },
                    Parsed::Fail(m) => Parsed::Fail(m),
                    Parsed::Stuck => Parsed::Stuck,
                },
                _ => Parsed::Done(ExprV::Ident(name), pos + 1),
            },
            _ => Parsed::Stuck,
        }
    }
}

/// A list of call arguments, possibly empty (before `)`).
pub open spec fn p_args(toks: Seq<Token>, pos: int) -> Parsed<Seq<ExprV>>
    decreases toks.len() - pos, 13nat,
{
    if !within(toks, 0, pos) {
        Parsed::Stuck
    } else if tok_at(toks, pos) == Some(Token::RParen) {
        Parsed::Done(Seq::empty(), pos)
    } else {
        p_args_from(toks, pos)
    }
}

/// One argument and, after each `,`, the next.
pub open spec fn p_args_from(toks: Seq<Token>, p: int) -> Parsed<Seq<ExprV>>
    decreases toks.len() - p, 12nat,
{
    if !within(toks, 0, p) {
        Parsed::Stuck
    } else {
        match p_expr(toks, p) {
            Parsed::Done(e, q) => if within(toks, p, q) {
                if tok_at(toks, q) == Some(Token::Comma) {
                    match p_args_from(toks, q + 1) {
                        Parsed::Done(rest, r) => Parsed::Done(seq![e] + rest, r),
                        Parsed::Fail(m) => Parsed::Fail(m),
                        Parsed::Stuck => Parsed::Stuck,
                    }
                } else {
                    Parsed::Done(seq![e], q)
                }
            } else {
                Parsed::Stuck
            },
            Parsed::Fail(m) => Parsed::Fail(m),
            Parsed::Stuck => Parsed::Stuck,
        }
    }
}


/// The statements of a block, up to its `}` (or the end of input).
pub open spec fn p_block(toks: Seq<Token>, pos: int) -> Parsed<Seq<StmtV>>
    decreases toks.len() - pos, 17nat,
{
    if !within(toks, 0, pos) {
        Parsed::Stuck
    } else {
        match tok_at(toks, pos) {
            None => Parsed::Done(Seq::empty(), pos),
            Some(Token::RBrace) => Parsed::Done(Seq::empty(), pos),
            Some(_) => match p_stmt(toks, pos) {
                Parsed::Done(s, p) => if within(toks, pos + 1, p) {
                    match p_block(toks, p) {
                        Parsed::Done(rest, q) => Parsed::Done(seq![s] + rest, q),
                        Parsed::Fail(m) => Parsed::Fail(m),
                        Parsed::Stuck => Parsed::Stuck,
                    }
                } else {
                    Parsed::Stuck
                },
                Parsed::Fail(m) => Parsed::Fail(m),
                Parsed::Stuck => Parsed::Stuck,
            },
        }
    }
}

/// `{ block }`, starting at the `{`.
pub open spec fn p_braced(toks: Seq<Token>, pos: int) -> Parsed<Seq<StmtV>>
    decreases toks.len() - pos, 18nat,
{
    if !within(toks, 0, pos) {
        Parsed::Stuck
    } else {
        match p_expect(toks, pos, Token::LBrace) {
            Parsed::Done(_, p1) => match p_block(toks, p1) {
                Parsed::Done(b, p2) => if within(toks, p1, p2) {
                    match p_expect(toks, p2, Token::RBrace) {
                        Parsed::Done(_, p3) => Parsed::Done(b, p3),
                        Parsed::Fail(m) => Parsed::Fail(m),
                        Parsed::Stuck => Parsed::Stuck,
                    }
                } else {
                    Parsed::Stuck
                },
                Parsed::Fail(m) => Parsed::Fail(m),
                Parsed::Stuck => Parsed::Stuck,
            },
            Parsed::Fail(m) => Parsed::Fail(m),
            Parsed::Stuck => Parsed::Stuck,
        }
    }
}

/// `( expr )`, starting at the `(`.
pub open spec fn p_paren_expr(toks: Seq<Token>, pos: int) -> Parsed<ExprV>
    decreases toks.len() - pos, 14nat,
{
    if !within(toks, 0, pos) {
        Parsed::Stuck
    } else {
        match p_expect(toks, pos, Token::LParen) {
            Parsed::Done(_, p1) => match p_expr(toks, p1) {
                Parsed::Done(e, p2) => if within(toks, p1, p2) {
                    match p_expect(toks, p2, Token::RParen) {
                        Parsed::Done(_, p3) => Parsed::Done(e, p3),
                        Parsed::Fail(m) => Parsed::Fail(m),
                        Parsed::Stuck => Parsed::Stuck,
                    }
                } else {
                    Parsed::Stuck
                },
                Parsed::Fail(m) => Parsed::Fail(m),
                Parsed::Stuck => Parsed::Stuck,
            },
            Parsed::Fail(m) => Parsed::Fail(m),
            Parsed::Stuck => Parsed::Stuck,
        }
    }
}

/// An expression followed by `;`.
pub open spec fn p_expr_semi(toks: Seq<Token>, pos: int) -> Parsed<ExprV>
    decreases toks.len() - pos, 14nat,
{
    if !within(toks, 0, pos) {
        Parsed::Stuck
    } else {
        match p_expr(toks, pos) {
            Parsed::Done(e, p1) => if within(toks, pos, p1) {
                match p_expect(toks, p1, Token::Semicolon) {
                    Parsed::Done(_, p2) => Parsed::Done(e, p2),
                    Parsed::Fail(m) => Parsed::Fail(m),
                    Parsed::Stuck => Parsed::Stuck,
                }
            } else {
                Parsed::Stuck
            },
            Parsed::Fail(m) => Parsed::Fail(m),
            Parsed::Stuck => Parsed::Stuck,
        }
    }
}

/// A statement.
pub open spec fn p_stmt(toks: Seq<Token>, pos: int) -> Parsed<StmtV>
    decreases toks.len() - pos, 16nat,
{
    if !within(toks, 0, pos) {
        Parsed::Stuck
    } else {
        match tok_at(toks, pos) {
            Some(Token::Const) => p_var_decl(toks, pos, true),
            Some(Token::TypeInt) | Some(Token::TypeFloat) | Some(Token::TypeString) | Some(Token::TypeBool) =>
                p_var_decl(toks, pos, false),
            Some(Token::If) => p_if(toks, pos),
            Some(Token::While) => p_while(toks, pos),
            Some(Token::For) => p_for(toks, pos),
            Some(Token::Return) => p_return(toks, pos),
            Some(Token::Ident(_)) => p_ident_stmt(toks, pos, true),
            t => Parsed::Fail(unexpected_msg("statement"@, t)),
        }
    }
}

/// Whether a token starts a declaration type (`int`, `float`, `string`, `bool`).
pub open spec fn is_decl_type(t: Option<Token>) -> bool {
    t == Some(Token::TypeInt) || t == Some(Token::TypeFloat) || t == Some(Token::TypeString) || t == Some(
        Token::TypeBool,
    )
}

/// `[const] [type] name (= | :=) expr ;`
pub open spec fn p_var_decl(toks: Seq<Token>, pos: int, is_const: bool) -> Parsed<StmtV>
    decreases toks.len() - pos, 15nat,
{
    if !within(toks, 0, pos) || (is_const && pos >= toks.len()) {
        Parsed::Stuck
    } else {
        let p0 = if is_const {
            pos + 1
        } else {
            pos
        };
        let tyr: Parsed<Option<Type>> = if is_decl_type(tok_at(toks, p0)) {
            match p_type(toks, p0) {
                Parsed::Done(t, p) => Parsed::Done(Some(t), p),
                Parsed::Fail(m) => Parsed::Fail(m),
                Parsed::Stuck => Parsed::Stuck,
            }
        } else {
            Parsed::Done(None, p0)
        };
        match tyr {
            Parsed::Done(ty, p1) => match p_name(toks, p1, "variable name"@) {
                Parsed::Done(name, p2) => match tok_at(toks, p2) {
                    Some(Token::Assign) | Some(Token::ColonAssign) => match p_expr_semi(toks, p2 + 1) {
                        Parsed::Done(value, p3) => Parsed::Done(StmtV::VarDecl { ty, name, value, is_const }, p3),
                        Parsed::Fail(m) => Parsed::Fail(m),
                        Parsed::Stuck => Parsed::Stuck,
                    },
                    t => Parsed::Fail(expected_msg("= or :="@, t)),
                },
                Parsed::Fail(m) => Parsed::Fail(m),
                Parsed::Stuck => Parsed::Stuck,
            },
            Parsed::Fail(m) => Parsed::Fail(m),
            Parsed::Stuck => Parsed::Stuck,
        }
    }
}

/// `if (cond) { ... } [else if ... | else { ... }]`
pub open spec fn p_if(toks: Seq<Token>, pos: int) -> Parsed<StmtV>
    decreases toks.len() - pos, 15nat,
{
    if !within(toks, 0, pos) || pos >= toks.len() {
        Parsed::Stuck
    } else {
        match p_paren_expr(toks, pos + 1) {
            Parsed::Done(condition, p1) => if within(toks, pos + 1, p1) {
                match p_braced(toks, p1) {
                    Parsed::Done(then_block, p2) => if within(toks, p1, p2) {
                        if tok_at(toks, p2) == Some(Token::Else) {
                            if tok_at(toks, p2 + 1) == Some(Token::If) {
                                match p_if(toks, p2 + 1) {
                                    Parsed::Done(else_if, p3) => Parsed::Done(
                                        StmtV::If { condition, then_block, else_block: Some(seq![else_if]) },
                                        p3,
                                    ),
                                    Parsed::Fail(m) => Parsed::Fail(m),
                                    Parsed::Stuck => Parsed::Stuck,
                                }
                            } else {
                                match p_braced(toks, p2 + 1) {
                                    Parsed::Done(b, p3) => Parsed::Done(
                                        StmtV::If { condition, then_block, else_block: Some(b) },
                                        p3,
                                    ),
                                    Parsed::Fail(m) => Parsed::Fail(m),
                                    Parsed::Stuck => Parsed::Stuck,
                                }
                            }
                        } else {
                            Parsed::Done(StmtV::If { condition, then_block, else_block: None }, p2)
                        }
                    } else {
                        Parsed::Stuck
                    },
                    Parsed::Fail(m) => Parsed::Fail(m),
                    Parsed::Stuck => Parsed::Stuck,
                }
            } else {
                Parsed::Stuck
            },
            Parsed::Fail(m) => Parsed::Fail(m),
            Parsed::Stuck => Parsed::Stuck,
        }
    }
}

/// `while (cond) { ... }`
pub open spec fn p_while(toks: Seq<Token>, pos: int) -> Parsed<StmtV>
    decreases toks.len() - pos, 15nat,
{
    if !within(toks, 0, pos) || pos >= toks.len() {
        Parsed::Stuck
    } else {
        match p_paren_expr(toks, pos + 1) {
            Parsed::Done(condition, p1) => if within(toks, pos + 1, p1) {
                match p_braced(toks, p1) {
                    Parsed::Done(body, p2) => Parsed::Done(StmtV::While { condition, body }, p2),
                    Parsed::Fail(m) => Parsed::Fail(m),
                    Parsed::Stuck => Parsed::Stuck,
                }
            } else {
                Parsed::Stuck
            },
            Parsed::Fail(m) => Parsed::Fail(m),
            Parsed::Stuck => Parsed::Stuck,
        }
    }
}

/// `for (int|float name = range) { ... }` or `for (init; cond; step) { ... }`, where
/// `init;` is a statement, `cond;` an expression and `step` a name statement
/// without its `;`.
pub open spec fn p_for(toks: Seq<Token>, pos: int) -> Parsed<StmtV>
    decreases toks.len() - pos, 15nat,
{
    if !within(toks, 0, pos) || pos >= toks.len() {
        Parsed::Stuck
    } else {
        match p_expect(toks, pos + 1, Token::LParen) {
            Parsed::Done(_, p1) => {
                let t = tok_at(toks, p1);
                if t == Some(Token::TypeInt) || t == Some(Token::TypeFloat) {
                    match p_type(toks, p1) {
                        Parsed::Done(ty, p2) => match p_name(toks, p2, "variable name"@) {
                            Parsed::Done(name, p3) => match p_expect(toks, p3, Token::Assign) {
                                Parsed::Done(_, p4) => match p_expr(toks, p4) {
                                    Parsed::Done(range, p5) => if within(toks, p4, p5) {
                                        match p_expect(toks, p5, Token::RParen) {
                                            Parsed::Done(_, p6) => match p_braced(toks, p6) {
                                                Parsed::Done(body, p7) => Parsed::Done(
                                                    StmtV::ForRange { ty: Some(ty), name, range, body },
                                                    p7,
                                                ),
                                                Parsed::Fail(m) => Parsed::Fail(m),
                                                Parsed::Stuck => Parsed::Stuck,
                                            },
                                            Parsed::Fail(m) => Parsed::Fail(m),
                                            Parsed::Stuck => Parsed::Stuck,
                                        }
                                    } else {
                                        Parsed::Stuck
                                    },
                                    Parsed::Fail(m) => Parsed::Fail(m),
                                    Parsed::Stuck => Parsed::Stuck,
                                },
                                Parsed::Fail(m) => Parsed::Fail(m),
                                Parsed::Stuck => Parsed::Stuck,
                            },
                            Parsed::Fail(m) => Parsed::Fail(m),
                            Parsed::Stuck => Parsed::Stuck,
                        },
                        Parsed::Fail(m) => Parsed::Fail(m),
                        Parsed::Stuck => Parsed::Stuck,
                    }
                } else {
                    match p_stmt(toks, p1) {
                        Parsed::Done(init, p2) => if within(toks, p1, p2) {
                            match p_expr_semi(toks, p2) {
                                Parsed::Done(condition, p3) => if within(toks, p2, p3) {
                                    match p_ident_stmt(toks, p3, false) {
                                        Parsed::Done(step, p4) => if within(toks, p3, p4) {
                                            match p_expect(toks, p4, Token::RParen) {
                                                Parsed::Done(_, p5) => match p_braced(toks, p5) {
                                                    Parsed::Done(body, p6) => Parsed::Done(
                                                        StmtV::For {
                                                            init: Box::new(init),
                                                            condition,
                                                            step: Box::new(step),
                                                            body,
                                                        },
                                                        p6,
                                                    ),
                                                    Parsed::Fail(m) => Parsed::Fail(m),
                                                    Parsed::Stuck => Parsed::Stuck,
                                                },
                                                Parsed::Fail(m) => Parsed::Fail(m),
                                                Parsed::Stuck => Parsed::Stuck,
                                            }
                                        } else {
                                            Parsed::Stuck
                                        },
                                        Parsed::Fail(m) => Parsed::Fail(m),
                                        Parsed::Stuck => Parsed::Stuck,
                                    }
                                } else {
                                    Parsed::Stuck
                                },
                                Parsed::Fail(m) => Parsed::Fail(m),
                                Parsed::Stuck => Parsed::Stuck,
                            }
                        } else {
                            Parsed::Stuck
                        },
                        Parsed::Fail(m) => Parsed::Fail(m),
                        Parsed::Stuck => Parsed::Stuck,
                    }
                }
            },
            Parsed::Fail(m) => Parsed::Fail(m),
            Parsed::Stuck => Parsed::Stuck,
        }
    }
}

/// `return;` or `return expr;`
pub open spec fn p_return(toks: Seq<Token>, pos: int) -> Parsed<StmtV>
    decreases toks.len() - pos, 15nat,
{
    if !within(toks, 0, pos) || pos >= toks.len() {
        Parsed::Stuck
    } else if tok_at(toks, pos + 1) == Some(Token::Semicolon) {
        Parsed::Done(StmtV::Return(None), pos + 2)
    } else {
        match p_expr_semi(toks, pos + 1) {
            Parsed::Done(e, p) => Parsed::Done(StmtV::Return(Some(e)), p),
            Parsed::Fail(m) => Parsed::Fail(m),
            Parsed::Stuck => Parsed::Stuck,
        }
    }
}

/// The value after an assignment operator: an expression, followed by `;` when
/// the statement is `terminated`.
pub open spec fn p_value(toks: Seq<Token>, pos: int, terminated: bool) -> Parsed<ExprV> {
    if terminated {
        p_expr_semi(toks, pos)
    } else {
        p_expr(toks, pos)
    }
}

/// The `;` that ends a `terminated` statement; nothing otherwise.
pub open spec fn p_end(toks: Seq<Token>, pos: int, terminated: bool) -> Parsed<()> {
    if terminated {
        p_expect(toks, pos, Token::Semicolon)
    } else {
        Parsed::Done((), pos)
    }
}

/// A statement that starts with a name: `x := e`, `x = e`, `x++`, `x--`,
/// `x += e`, `x -= e` or `f(args)`, followed by `;` when `terminated` (in a
/// block), without it as the step of a `for` header. The parser stops where no
/// name starts it.
pub open spec fn p_ident_stmt(toks: Seq<Token>, pos: int, terminated: bool) -> Parsed<StmtV>
    decreases toks.len() - pos, 15nat,
{
    if !within(toks, 0, pos) {
        Parsed::Stuck
    } else {
        match tok_at(toks, pos) {
            Some(Token::Ident(name)) => match tok_at(toks, pos + 1) {
                Some(Token::ColonAssign) => match p_value(toks, pos + 2, terminated) {
                    Parsed::Done(value, p) => Parsed::Done(
                        StmtV::VarDecl { ty: None, name, value, is_const: false },
                        p,
                    ),
                    Parsed::Fail(m) => Parsed::Fail(m),
                    Parsed::Stuck => Parsed::Stuck,
                },
                Some(Token::Assign) => match p_value(toks, pos + 2, terminated) {
                    Parsed::Done(value, p) => Parsed::Done(StmtV::Assign { name, value }, p),
                    Parsed::Fail(m) => Parsed::Fail(m),
                    Parsed::Stuck => Parsed::Stuck,
                },
                Some(Token::PlusPlus) => match p_end(toks, pos + 2, terminated) {
                    Parsed::Done(_, p) => Parsed::Done(
                        StmtV::Expr(
                            ExprV::UnaryOp { op: UnaryOp::PostIncrement, expr: Box::new(ExprV::Ident(name)) },
                        ),
                        p,
                    ),
                    Parsed::Fail(m) => Parsed::Fail(m),
                    Parsed::Stuck => Parsed::Stuck,
                },
                Some(Token::MinusMinus) => match p_end(toks, pos + 2, terminated) {
                    Parsed::Done(_, p) => Parsed::Done(
                        StmtV::Expr(
                            ExprV::UnaryOp { op: UnaryOp::PostDecrement, expr: Box::new(ExprV::Ident(name)) },
                        ),
                        p,
                    ),
                    Parsed::Fail(m) => Parsed::Fail(m),
                    Parsed::Stuck => Parsed::Stuck,
                },
                Some(Token::PlusAssign) => match p_value(toks, pos + 2, terminated) {
                    Parsed::Done(value, p) => Parsed::Done(
                        StmtV::Assign {
                            name,
                            value: ExprV::BinaryOp {
                                op: BinaryOp::Add,
                                left: Box::new(ExprV::Ident(name)),
                                right: Box::new(value),
                            },
                        },
                        p,
                    ),
                    Parsed::Fail(m) => Parsed::Fail(m),
                    Parsed::Stuck => Parsed::Stuck,
                },
                Some(Token::MinusAssign) => match p_value(toks, pos + 2, terminated) {
                    Parsed::Done(value, p) => Parsed::Done(
                        StmtV::Assign {
                            name,
                            value: ExprV::BinaryOp {
                                op: BinaryOp::Sub,
                                left: Box::new(ExprV::Ident(name)),
                                right: Box::new(value),
                            },
                        },
                        p,
                    ),
                    Parsed::Fail(m) => Parsed::Fail(m),
                    Parsed::Stuck => Parsed::Stuck,
                },
                Some(Token::LParen) => match p_args(toks, pos + 2) {
                    Parsed::Done(args, p) => if within(toks, pos + 2, p) {
                        match p_expect(toks, p, Token::RParen) {
                            Parsed::Done(_, p1) => match p_end(toks, p1, terminated) {
                                Parsed::Done(_, p2) => Parsed::Done(StmtV::Expr(ExprV::Call { name, args }), p2),
                                Parsed::Fail(m) => Parsed::Fail(m),
                                Parsed::Stuck => Parsed::Stuck,
                            },
                            Parsed::Fail(m) => Parsed::Fail(m),
                            Parsed::Stuck => Parsed::Stuck,
                        }
                    } else {
                        Parsed::Stuck
                    },
                    Parsed::Fail(m) => Parsed::Fail(m),
                    Parsed::Stuck => Parsed::Stuck,
                },
                t => Parsed::Fail(unexpected_msg("statement"@, t)),
            },
            _ => Parsed::Stuck,
        }
    }
}

/// `type name ( params ) { body }`
pub open spec fn p_function(toks: Seq<Token>, pos: int) -> Parsed<TopLevelV> {
    match p_type(toks, pos) {
        Parsed::Done(return_ty, p1) => match p_name(toks, p1, "function name"@) {
            Parsed::Done(name, p2) => match p_expect(toks, p2, Token::LParen) {
                Parsed::Done(_, p3) => match p_params(toks, p3) {
                    Parsed::Done(params, p4) => if within(toks, p3, p4) {
                        match p_expect(toks, p4, Token::RParen) {
                            Parsed::Done(_, p5) => match p_braced(toks, p5) {
                                Parsed::Done(body, p6) => Parsed::Done(
                                    TopLevelV::Function { return_ty, name, params, body },
                                    p6,
                                ),
                                Parsed::Fail(m) => Parsed::Fail(m),
                                Parsed::Stuck => Parsed::Stuck,
                            },
                            Parsed::Fail(m) => Parsed::Fail(m),
                            Parsed::Stuck => Parsed::Stuck,
                        }
                    } else {
                        Parsed::Stuck
                    },
                    Parsed::Fail(m) => Parsed::Fail(m),
                    Parsed::Stuck => Parsed::Stuck,
                },
                Parsed::Fail(m) => Parsed::Fail(m),
                Parsed::Stuck => Parsed::Stuck,
            },
            Parsed::Fail(m) => Parsed::Fail(m),
            Parsed::Stuck => Parsed::Stuck,
        },
        Parsed::Fail(m) => Parsed::Fail(m),
        Parsed::Stuck => Parsed::Stuck,
    }
}

/// A top-level item. Structs, interfaces and methods are not implemented yet:
/// the parser stops at them.
pub open spec fn p_top_level(toks: Seq<Token>, pos: int) -> Parsed<TopLevelV> {
    match tok_at(toks, pos) {
        Some(Token::Struct) | Some(Token::Interface) | Some(Token::LParen) => Parsed::Stuck,
        _ => p_function(toks, pos),
    }
}

/// The items up to the end of input.
pub open spec fn p_items(toks: Seq<Token>, pos: int) -> Parsed<Seq<TopLevelV>>
    decreases toks.len() - pos,
{
    if !within(toks, 0, pos) {
        Parsed::Stuck
    } else if tok_at(toks, pos) is None {
        Parsed::Done(Seq::empty(), pos)
    } else {
        match p_top_level(toks, pos) {
            Parsed::Done(item, p) => if within(toks, pos + 1, p) {
                match p_items(toks, p) {
                    Parsed::Done(rest, q) => Parsed::Done(seq![item] + rest, q),
                    Parsed::Fail(m) => Parsed::Fail(m),
                    Parsed::Stuck => Parsed::Stuck,
                }
            } else {
                Parsed::Stuck
            },
            Parsed::Fail(m) => Parsed::Fail(m),
            Parsed::Stuck => Parsed::Stuck,
        }
    }
}

/// A program: items up to the end of input.
pub open spec fn p_program(toks: Seq<Token>, pos: int) -> Parsed<ProgramV> {
    match p_items(toks, pos) {
        Parsed::Done(items, p) => Parsed::Done(ProgramV { items }, p),
        Parsed::Fail(m) => Parsed::Fail(m),
        Parsed::Stuck => Parsed::Stuck,
    }
}
} // verus!
