//! Expressions, parsed by binding power.
use vstd::prelude::*;

use crate::lexer::{Token, TokenType};
use crate::parser::ast::{expr_yield, exprs_yield, Expr, ExprKind};
use crate::parser::literal::{parse_bool, parse_i32, trim_quotes};
use crate::parser::grammar::{
    expr_outcome, exprs_outcome, node, p_arguments_from, p_call_arguments,
    p_expr_bp, p_expression, p_operators, p_primary, p_unary, spec_infix_bp, spec_postfix_bp,
};
use crate::parser::model::{expr_m, exprs_m, lemma_exprs_m_push, ExprKindM};
use crate::parser::{consumed, lemma_consumed_one, lemma_consumed_split, ParseError, Parser};

verus! {

impl<'a> Parser<'a> {
    /// Parses one expression.
    pub fn expression(&mut self) -> (r: Result<Expr<'a>, ParseError<'a>>)
        requires
            old(self).wf(),
        ensures
            old(self).moved_to(*final(self)),
            r is Ok ==> old(self).cur() < final(self).cur(),
            r matches Ok(e) ==> consumed(old(self).toks(), old(self).cur(), final(self).cur())
                == expr_yield(e),
            expr_outcome(
                r,
                p_expression(old(self).toks(), old(self).cur(), old(self).next_id()),
                final(self).cur(),
                final(self).next_id(),
            ),
        decreases old(self).remaining(), 3nat,
    {
        self.expr_bp(0)
    }

    /// The node for `l op r`: every infix operator, `=`, `&&` and `||`
    /// among them, makes a binary operation.
    fn binary_node(&mut self, l: Expr<'a>, op: Token<'a>, r: Expr<'a>) -> (e: Expr<'a>)
        requires
            old(self).wf(),
            old(self).next_id() < old(self).cur(),
        ensures
            final(self).wf(),
            final(self).toks() == old(self).toks(),
            final(self).cur() == old(self).cur(),
            final(self).next_id() == old(self).next_id() + 1,
            expr_yield(e) == expr_yield(l) + seq![op.token_type] + expr_yield(r),
            expr_m(e) == node(
                ExprKindM::BinaryOp { l: Box::new(expr_m(l)), op, r: Box::new(expr_m(r)) },
                old(self).next_id(),
            ),
    {
        let kind = ExprKind::BinaryOp { l: Box::new(l), op, r: Box::new(r) };
        self.expr(kind)
    }

    /// Parses the arguments of a call, after its `(`, up to and with its `)`.
    fn call_arguments(&mut self) -> (r: Result<Vec<Expr<'a>>, ParseError<'a>>)
        requires
            old(self).wf(),
        ensures
            old(self).moved_to(*final(self)),
            r is Ok ==> old(self).cur() < final(self).cur(),
            r matches Ok(args) ==> consumed(old(self).toks(), old(self).cur(), final(self).cur())
                == exprs_yield(args@) + seq![TokenType::Rparen],
            exprs_outcome(
                r,
                p_call_arguments(old(self).toks(), old(self).cur(), old(self).next_id()),
                final(self).cur(),
                final(self).next_id(),
            ),
        decreases old(self).remaining(), 4nat,
    {
        let mut args: Vec<Expr<'a>> = Vec::new();
        let mut err: Option<ParseError<'a>> = None;
        let ghost ts = self.toks();
        let ghost target = p_call_arguments(ts, self.cur(), self.next_id());
        assert(consumed(self.toks(), self.cur(), self.cur()) =~= Seq::<TokenType>::empty());
        assert(exprs_yield(args@) =~= Seq::<TokenType>::empty());
        assert(exprs_m(args@) =~= Seq::empty());
        loop
            invariant_except_break
                old(self).moved_to(*self),
                err.is_none(),
                consumed(old(self).toks(), old(self).cur(), self.cur()) == exprs_yield(args@),
                ts == old(self).toks(),
                target == p_call_arguments(ts, old(self).cur(), old(self).next_id()),
                target == p_arguments_from(ts, self.cur(), self.next_id(), exprs_m(args@)),
            ensures
                old(self).moved_to(*self),
                err.is_none() ==> consumed(old(self).toks(), old(self).cur(), self.cur())
                    == exprs_yield(args@),
                err matches Some(e) ==> target == Err::<(Seq<crate::parser::model::ExprM<'a>>, int, int), ParseError<'a>>(e),
                err.is_none() ==> self.cur() < ts.len() && ts[self.cur()].token_type == TokenType::Rparen
                    && target == Ok::<(Seq<crate::parser::model::ExprM<'a>>, int, int), ParseError<'a>>((exprs_m(args@), self.cur() + 1, self.next_id())),
                target == p_call_arguments(ts, old(self).cur(), old(self).next_id()),
                ts == old(self).toks(),
            decreases self.remaining(),
        {
            let ghost c0 = self.cur();
            match self.expression() {
                Ok(a) => {
                    let ghost before = args@;
                    args.push(a);
                    proof {
                        lemma_consumed_split(self.toks(), old(self).cur(), c0, self.cur());
                        assert(args@.drop_last() =~= before);
                        lemma_exprs_m_push(before, a);
                    }
                },
                Err(e) => {
                    err = Some(e);
                    break ;
                },
            }
            if self.same(&[TokenType::Rparen]) {
                break ;
            }
            let ghost c1 = self.cur();
            match self.eat(TokenType::Comma) {
                Ok(_) => {
                    proof {
                        lemma_consumed_one(self.toks(), c1);
                        lemma_consumed_split(self.toks(), old(self).cur(), c1, self.cur());
                        assert(exprs_yield(args@) + Seq::<TokenType>::empty() =~= exprs_yield(
                            args@,
                        ));
                    }
                },
                Err(e) => {
                    err = Some(e);
                    break ;
                },
            }
        }
        if let Some(e) = err {
            return Err(e);
        }
        let ghost c2 = self.cur();
        match self.eat(TokenType::Rparen) {
            Ok(_) => {},
            Err(e) => {
                return Err(e);
            },
        }
        proof {
            lemma_consumed_one(self.toks(), c2);
            lemma_consumed_split(self.toks(), old(self).cur(), c2, self.cur());
        }
        Ok(args)
    }

    fn expr_bp(&mut self, min_bp: u8) -> (r: Result<Expr<'a>, ParseError<'a>>)
        requires
            old(self).wf(),
        ensures
            old(self).moved_to(*final(self)),
            r is Ok ==> old(self).cur() < final(self).cur(),
            r matches Ok(e) ==> consumed(old(self).toks(), old(self).cur(), final(self).cur())
                == expr_yield(e),
            expr_outcome(
                r,
                p_expr_bp(old(self).toks(), old(self).cur(), old(self).next_id(), min_bp),
                final(self).cur(),
                final(self).next_id(),
            ),
        decreases old(self).remaining(), 2nat,
    {
        let ghost ts = self.toks();
        let ghost target = p_expr_bp(ts, self.cur(), self.next_id(), min_bp);
        let mut lhs = match self.unary() {
            Ok(e) => e,
            Err(e) => {
                return Err(e);
            },
        };
        let mut err: Option<ParseError<'a>> = None;
        loop
            invariant_except_break
                old(self).moved_to(*self),
                old(self).cur() < self.cur(),
                err.is_none(),
                consumed(old(self).toks(), old(self).cur(), self.cur()) == expr_yield(lhs),
                ts == old(self).toks(),
                target == p_expr_bp(ts, old(self).cur(), old(self).next_id(), min_bp),
                target == p_operators(ts, self.cur(), self.next_id(), min_bp, expr_m(lhs)),
            ensures
                old(self).moved_to(*self),
                old(self).cur() < self.cur(),
                err.is_none() ==> consumed(old(self).toks(), old(self).cur(), self.cur())
                    == expr_yield(lhs),
                ts == old(self).toks(),
                target == p_expr_bp(ts, old(self).cur(), old(self).next_id(), min_bp),
                err matches Some(e) ==> target == Err::<(crate::parser::model::ExprM<'a>, int, int), ParseError<'a>>(e),
                err.is_none() ==> target == Ok::<(crate::parser::model::ExprM<'a>, int, int), ParseError<'a>>((expr_m(lhs), self.cur(), self.next_id())),
            decreases self.remaining(),
        {
            let toktype = match self.peek() {
                None => {
                    break ;
                },
                Some(op) => op.token_type,
            };
            let ghost c0 = self.cur();
            if let Some((l_bp, ())) = self.postfix_binding_power(toktype) {
                if l_bp < min_bp {
                    break ;
                }
                if toktype == TokenType::Lparen {
                    let _ = self.eat(TokenType::Lparen);
                    let ghost c1 = self.cur();
                    match self.call_arguments() {
                        Ok(args) => {
                            proof {
                                lemma_consumed_one(self.toks(), c0);
                                lemma_consumed_split(self.toks(), old(self).cur(), c0, c1);
                                lemma_consumed_split(self.toks(), old(self).cur(), c1, self.cur());
                            }
                            let ghost y = expr_yield(lhs);
                            let node = self.expr(
                                ExprKind::Call { identifier: Box::new(lhs), arguments: args },
                            );
                            assert(expr_yield(node) =~= y + seq![TokenType::Lparen]
                                + exprs_yield(args@) + seq![TokenType::Rparen]);
                            lhs = node;
                        },
                        Err(e) => {
                            err = Some(e);
                            break ;
                        },
                    }
                } else {
                    let _ = self.eat(TokenType::Lbracket);
                    let ghost c1 = self.cur();
                    let argument = match self.expression() {
                        Ok(a) => a,
                        Err(e) => {
                            err = Some(e);
                            break ;
                        },
                    };
                    let ghost c2 = self.cur();
                    match self.eat(TokenType::Rbracket) {
                        Ok(_) => {},
                        Err(e) => {
                            err = Some(e);
                            break ;
                        },
                    }
                    proof {
                        lemma_consumed_one(self.toks(), c0);
                        lemma_consumed_one(self.toks(), c2);
                        lemma_consumed_split(self.toks(), old(self).cur(), c0, c1);
                        lemma_consumed_split(self.toks(), old(self).cur(), c1, c2);
                        lemma_consumed_split(self.toks(), old(self).cur(), c2, self.cur());
                    }
                    let ghost y = expr_yield(lhs);
                    let node = self.expr(
                        ExprKind::Index { identifier: Box::new(lhs), argument: Box::new(argument) },
                    );
                    assert(expr_yield(node) =~= y + seq![TokenType::Lbracket] + expr_yield(
                        argument,
                    ) + seq![TokenType::Rbracket]);
                    lhs = node;
                }
                continue ;
            }
            let (l_bp, r_bp) = match self.infix_binding_power(toktype) {
                None => {
                    break ;
                },
                Some(bp) => bp,
            };
            if l_bp < min_bp {
                break ;
            }
            let op = match self.advance() {
                Ok(t) => t,
                Err(e) => {
                    err = Some(e);
                    break ;
                },
            };
            let ghost c1 = self.cur();
            let rhs = match self.expr_bp(r_bp) {
                Ok(e) => e,
                Err(e) => {
                    err = Some(e);
                    break ;
                },
            };
            proof {
                lemma_consumed_one(self.toks(), c0);
                lemma_consumed_split(self.toks(), old(self).cur(), c0, c1);
                lemma_consumed_split(self.toks(), old(self).cur(), c1, self.cur());
            }
            lhs = self.binary_node(lhs, op, rhs);
        }
        match err {
            Some(e) => Err(e),
            None => Ok(lhs),
        }
    }

    fn unary(&mut self) -> (r: Result<Expr<'a>, ParseError<'a>>)
        requires
            old(self).wf(),
        ensures
            old(self).moved_to(*final(self)),
            r is Ok ==> old(self).cur() < final(self).cur(),
            r matches Ok(e) ==> consumed(old(self).toks(), old(self).cur(), final(self).cur())
                == expr_yield(e),
            expr_outcome(
                r,
                p_unary(old(self).toks(), old(self).cur(), old(self).next_id()),
                final(self).cur(),
                final(self).next_id(),
            ),
        decreases old(self).remaining(), 1nat,
    {
        let toktype = match self.peek() {
            None => {
                return Err(ParseError::NoTokensLeft);
            },
            Some(token) => token.token_type,
        };
        if toktype == TokenType::OpExclaim {
            let token = match self.advance() {
                Ok(t) => t,
                Err(e) => {
                    return Err(e);
                },
            };
            let ghost c1 = self.cur();
            let val = match self.expr_bp(15) {
                Ok(v) => v,
                Err(e) => {
                    return Err(e);
                },
            };
            proof {
                lemma_consumed_one(self.toks(), old(self).cur());
                lemma_consumed_split(self.toks(), old(self).cur(), c1, self.cur());
            }
            let node = self.expr(ExprKind::UnaryOp { op: token, val: Box::new(val) });
            Ok(node)
        } else {
            self.primary()
        }
    }

    fn primary(&mut self) -> (r: Result<Expr<'a>, ParseError<'a>>)
        requires
            old(self).wf(),
        ensures
            old(self).moved_to(*final(self)),
            r is Ok ==> old(self).cur() < final(self).cur(),
            r matches Ok(e) ==> consumed(old(self).toks(), old(self).cur(), final(self).cur())
                == expr_yield(e),
            expr_outcome(
                r,
                p_primary(old(self).toks(), old(self).cur(), old(self).next_id()),
                final(self).cur(),
                final(self).next_id(),
            ),
        decreases old(self).remaining(), 0nat,
    {
        let t = match self.advance() {
            Ok(t) => t,
            Err(e) => {
                return Err(e);
            },
        };
        proof {
            lemma_consumed_one(self.toks(), old(self).cur());
        }
        match t.token_type {
            TokenType::StringLiteral => {
                let val = trim_quotes(t.lexeme);
                Ok(self.expr(ExprKind::StringLiteral { debug: t, val }))
            },
            TokenType::IntegerLiteral => match parse_i32(t.lexeme) {
                Some(v) => Ok(self.expr(ExprKind::IntLiteral { debug: t, val: v })),
                None => Err(ParseError::BadLiteral(t)),
            },
            TokenType::FloatLiteral => Ok(self.expr(ExprKind::FloatLiteral { debug: t })),
            TokenType::KwTrue | TokenType::KwFalse => match parse_bool(t.lexeme) {
                Some(b) => Ok(self.expr(ExprKind::BoolLiteral { debug: t, val: b })),
                None => Err(ParseError::BadLiteral(t)),
            },
            TokenType::Lparen => {
                let c1 = self.current;
                let inner = match self.expression() {
                    Ok(e) => e,
                    Err(e) => {
                        return Err(e);
                    },
                };
                let ghost c2 = self.cur();
                match self.eat(TokenType::Rparen) {
                    Ok(_) => {},
                    Err(e) => {
                        return Err(e);
                    },
                }
                proof {
                    lemma_consumed_one(self.toks(), c2);
                    lemma_consumed_split(self.toks(), old(self).cur(), c1 as int, c2);
                    lemma_consumed_split(self.toks(), old(self).cur(), c2, self.cur());
                }
                Ok(self.expr(ExprKind::Group(Box::new(inner))))
            },
            TokenType::Identifier => Ok(self.expr(ExprKind::Identifier(t))),
            _ => Err(ParseError::UnexpectedPrimary(t)),
        }
    }

    fn postfix_binding_power(&self, tok: TokenType) -> (r: Option<(u8, ())>)
        ensures
            r == (match spec_postfix_bp(tok) {
                Some(b) => Some((b, ())),
                None => None,
            }),
    {
        match tok {
            TokenType::Lparen => Some((15, ())),
            TokenType::Lbracket => Some((16, ())),
            _ => None,
        }
    }

    fn infix_binding_power(&self, tok: TokenType) -> (r: Option<(u8, u8)>)
        ensures
            r == spec_infix_bp(tok),
    {
        match tok {
            TokenType::OpPlus => Some((3, 4)),
            TokenType::OpMinus => Some((3, 4)),
            TokenType::OpStar => Some((5, 6)),
            TokenType::OpSlash => Some((5, 6)),
            TokenType::OpLogAnd => Some((7, 8)),
            TokenType::OpLogOr => Some((9, 10)),
            TokenType::OpEqual => Some((21, 20)),
            _ => None,
        }
    }
}

} // verus!
