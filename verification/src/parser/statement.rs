//! Declarations and statements.
use vstd::prelude::*;

use crate::lexer::{Token, TokenType};
use crate::parser::ast::{
    decl_yield, expr_yield, init_yield, param_yield, params_yield, stmt_yield, stmts_yield,
    top_yields, tok_yield, Decl, DeclKind, Expr, Param, Stmt, StmtKind, TopLevelStmt, TopLevelStmtKind,
};
use crate::parser::grammar::{
    decl_outcome, dnode, opt_stmt_outcome, p_block_items, p_compound, p_declaration, p_declarator,
    p_direct_declarator, p_expression_statement, p_parameter, p_parameters, p_parameters_from,
    p_program, p_selection, p_statement, p_suffixes, p_top_level, p_top_parameters, p_type_keyword,
    param_outcome,
    params_outcome, program_outcome, snode, stmt_outcome, top_outcome,
};
use crate::parser::model::{
    decl_m, lemma_params_m_push, lemma_stmts_m_push, lemma_tops_m_push, param_m, params_m,
    stmts_m, tops_m, DeclKindM, DeclM, ParamM, StmtKindM, StmtM, TopM,
};
use crate::parser::{consumed, lemma_consumed_one, lemma_consumed_split, ParseError, Parser};
use crate::type_checker::annotation::is_type_keyword;

verus! {

pub proof fn lemma_consumed_empty(ts: Seq<Token>, i: int)
    ensures
        consumed(ts, i, i) == Seq::<TokenType>::empty(),
{
    assert(consumed(ts, i, i) =~= Seq::<TokenType>::empty());
}

impl<'a> Parser<'a> {
    /// Reads a type keyword, if the next token is one.
    fn declaration_specifier(&mut self) -> (r: Option<Token<'a>>)
        requires
            old(self).wf(),
        ensures
            old(self).moved_to(*final(self)),
            final(self).next_id() == old(self).next_id(),
            r is Some == (old(self).cur() < old(self).toks().len() && is_type_keyword(
                old(self).toks()[old(self).cur()].token_type,
            )),
            r matches Some(t) ==> t == old(self).toks()[old(self).cur()] && final(self).cur()
                == old(self).cur() + 1,
            r is None ==> final(self).cur() == old(self).cur(),
            r == p_type_keyword(old(self).toks(), old(self).cur()),
    {
        if self.same(
            &[
                TokenType::KwInt,
                TokenType::KwFloat,
                TokenType::KwChar,
                TokenType::KwString,
                TokenType::KwBool,
                TokenType::KwVoid,
            ],
        ) {
            match self.advance() {
                Ok(t) => Some(t),
                Err(_) => None,
            }
        } else {
            None
        }
    }

    /// Parses a declarator: a name, possibly starred, grouped, indexed or
    /// given a parameter list.
    fn declarator(&mut self) -> (r: Result<Decl<'a>, ParseError<'a>>)
        requires
            old(self).wf(),
        ensures
            old(self).moved_to(*final(self)),
            r is Ok ==> old(self).cur() < final(self).cur(),
            r matches Ok(d) ==> consumed(old(self).toks(), old(self).cur(), final(self).cur())
                == decl_yield(d),
            decl_outcome(
                r,
                p_declarator(old(self).toks(), old(self).cur(), old(self).next_id()),
                final(self).cur(),
                final(self).next_id(),
            ),
        decreases old(self).remaining(), 1nat,
    {
        self.direct_declarator(0)
    }

    fn direct_declarator(&mut self, min_bp: u8) -> (r: Result<Decl<'a>, ParseError<'a>>)
        requires
            old(self).wf(),
        ensures
            old(self).moved_to(*final(self)),
            r is Ok ==> old(self).cur() < final(self).cur(),
            r matches Ok(d) ==> consumed(old(self).toks(), old(self).cur(), final(self).cur())
                == decl_yield(d),
            decl_outcome(
                r,
                p_direct_declarator(old(self).toks(), old(self).cur(), old(self).next_id(), min_bp),
                final(self).cur(),
                final(self).next_id(),
            ),
        decreases old(self).remaining(), 0nat,
    {
        let ghost ts = self.toks();
        let ghost target = p_direct_declarator(ts, self.cur(), self.next_id(), min_bp);
        let token = match self.peek() {
            None => {
                return Err(ParseError::NoTokensLeft);
            },
            Some(t) => *t,
        };
        proof {
            lemma_consumed_one(self.toks(), old(self).cur());
        }
        let mut lhs = if token.token_type == TokenType::Identifier {
            let _ = self.advance();
            self.decl(DeclKind::Identifier(token))
        } else if token.token_type == TokenType::OpStar {
            let _ = self.eat(TokenType::OpStar);
            let c1 = self.current;
            let inner = match self.declarator() {
                Ok(d) => d,
                Err(e) => {
                    return Err(e);
                },
            };
            proof {
                lemma_consumed_split(self.toks(), old(self).cur(), c1 as int, self.cur());
            }
            self.decl(DeclKind::Pointer(Box::new(inner)))
        } else if token.token_type == TokenType::Lparen {
            let _ = self.eat(TokenType::Lparen);
            let c1 = self.current;
            let inner = match self.declarator() {
                Ok(d) => d,
                Err(e) => {
                    return Err(e);
                },
            };
            let c2 = self.current;
            match self.eat(TokenType::Rparen) {
                Ok(_) => {},
                Err(e) => {
                    return Err(e);
                },
            }
            proof {
                lemma_consumed_one(self.toks(), c2 as int);
                lemma_consumed_split(self.toks(), old(self).cur(), c1 as int, c2 as int);
                lemma_consumed_split(self.toks(), old(self).cur(), c2 as int, self.cur());
            }
            self.decl(DeclKind::Group(Box::new(inner)))
        } else {
            return Err(ParseError::NotADeclarator(token));
        };
        let mut err: Option<ParseError<'a>> = None;
        loop
            invariant_except_break
                old(self).moved_to(*self),
                old(self).cur() < self.cur(),
                err.is_none(),
                consumed(old(self).toks(), old(self).cur(), self.cur()) == decl_yield(lhs),
                ts == old(self).toks(),
                target == p_direct_declarator(ts, old(self).cur(), old(self).next_id(), min_bp),
                target == p_suffixes(ts, self.cur(), self.next_id(), min_bp, decl_m(lhs)),
            ensures
                old(self).moved_to(*self),
                old(self).cur() < self.cur(),
                err.is_none() ==> consumed(old(self).toks(), old(self).cur(), self.cur())
                    == decl_yield(lhs),
                ts == old(self).toks(),
                target == p_direct_declarator(ts, old(self).cur(), old(self).next_id(), min_bp),
                err matches Some(e) ==> target == Err::<(DeclM<'a>, int, int), ParseError<'a>>(e),
                err.is_none() ==> target == Ok::<(DeclM<'a>, int, int), ParseError<'a>>(
                    (decl_m(lhs), self.cur(), self.next_id()),
                ),
            decreases self.remaining(),
        {
            let toktype = match self.peek() {
                None => {
                    break ;
                },
                Some(symbol) => symbol.token_type,
            };
            let l_bp = match self.postfix_binding(toktype) {
                None => {
                    break ;
                },
                Some((l, ())) => l,
            };
            if l_bp < min_bp {
                break ;
            }
            let c0 = self.current;
            if toktype == TokenType::Lbracket {
                let _ = self.eat(TokenType::Lbracket);
                let c1 = self.current;
                let mut constant: Option<Token<'a>> = None;
                if !self.same(&[TokenType::Rbracket]) {
                    match self.advance() {
                        Ok(t) => {
                            constant = Some(t);
                        },
                        Err(e) => {
                            err = Some(e);
                            break ;
                        },
                    }
                }
                let c2 = self.current;
                match self.eat(TokenType::Rbracket) {
                    Ok(_) => {},
                    Err(e) => {
                        err = Some(e);
                        break ;
                    },
                }
                proof {
                    lemma_consumed_one(self.toks(), c0 as int);
                    lemma_consumed_one(self.toks(), c2 as int);
                    lemma_consumed_split(self.toks(), old(self).cur(), c0 as int, c1 as int);
                    lemma_consumed_split(self.toks(), old(self).cur(), c1 as int, c2 as int);
                    lemma_consumed_split(self.toks(), old(self).cur(), c2 as int, self.cur());
                    if c2 == c1 {
                        lemma_consumed_empty(self.toks(), c1 as int);
                    } else {
                        lemma_consumed_one(self.toks(), c1 as int);
                    }
                }
                let ghost y = decl_yield(lhs);
                let node = self.decl(DeclKind::Array { decl: Box::new(lhs), constant });
                assert(decl_yield(node) =~= y + seq![TokenType::Lbracket] + consumed(
                    self.toks(),
                    c1 as int,
                    c2 as int,
                ) + seq![TokenType::Rbracket]);
                lhs = node;
            } else {
                let _ = self.eat(TokenType::Lparen);
                let c1 = self.current;
                let mut params: Vec<Param<'a>> = Vec::new();
                if !self.same(&[TokenType::Rparen]) {
                    match self.parameters() {
                        Ok(ps) => {
                            params = ps;
                        },
                        Err(e) => {
                            err = Some(e);
                            break ;
                        },
                    }
                } else {
                    proof {
                        lemma_consumed_empty(self.toks(), c1 as int);
                        assert(params_yield(params@) =~= Seq::<TokenType>::empty());
                        assert(params_m(params@) =~= Seq::<ParamM<'a>>::empty());
                    }
                }
                let c2 = self.current;
                match self.eat(TokenType::Rparen) {
                    Ok(_) => {},
                    Err(e) => {
                        err = Some(e);
                        break ;
                    },
                }
                proof {
                    lemma_consumed_one(self.toks(), c0 as int);
                    lemma_consumed_one(self.toks(), c2 as int);
                    lemma_consumed_split(self.toks(), old(self).cur(), c0 as int, c1 as int);
                    lemma_consumed_split(self.toks(), old(self).cur(), c1 as int, c2 as int);
                    lemma_consumed_split(self.toks(), old(self).cur(), c2 as int, self.cur());
                }
                let ghost y = decl_yield(lhs);
                let node = self.decl(DeclKind::Function { decl: Box::new(lhs), params });
                assert(decl_yield(node) =~= y + seq![TokenType::Lparen] + params_yield(params@)
                    + seq![TokenType::Rparen]);
                lhs = node;
            }
        }
        match err {
            Some(e) => Err(e),
            None => Ok(lhs),
        }
    }

    fn postfix_binding(&self, symbol: TokenType) -> (r: Option<(u8, ())>)
        ensures
            r == (if symbol == TokenType::Lbracket {
                Some((15u8, ()))
            } else if symbol == TokenType::Lparen {
                Some((17u8, ()))
            } else {
                None
            }),
    {
        match symbol {
            TokenType::Lbracket => Some((15, ())),
            TokenType::Lparen => Some((17, ())),
            _ => None,
        }
    }

    /// Parses parameter declarations separated by commas; stops before the
    /// first token that cannot start one.
    fn parameters(&mut self) -> (r: Result<Vec<Param<'a>>, ParseError<'a>>)
        requires
            old(self).wf(),
        ensures
            old(self).moved_to(*final(self)),
            r matches Ok(ps) ==> consumed(old(self).toks(), old(self).cur(), final(self).cur())
                == params_yield(ps@),
            params_outcome(
                r,
                p_parameters(old(self).toks(), old(self).cur(), old(self).next_id()),
                final(self).cur(),
                final(self).next_id(),
            ),
        decreases old(self).remaining(), 3nat,
    {
        let mut params: Vec<Param<'a>> = Vec::new();
        let mut err: Option<ParseError<'a>> = None;
        let ghost ts = self.toks();
        let ghost target = p_parameters(ts, self.cur(), self.next_id());
        proof {
            lemma_consumed_empty(self.toks(), self.cur());
        }
        assert(params_yield(params@) =~= Seq::<TokenType>::empty());
        assert(params_m(params@) =~= Seq::<ParamM<'a>>::empty());
        loop
            invariant_except_break
                old(self).moved_to(*self),
                err.is_none(),
                consumed(old(self).toks(), old(self).cur(), self.cur()) == params_yield(params@),
                ts == old(self).toks(),
                target == p_parameters(ts, old(self).cur(), old(self).next_id()),
                target == p_parameters_from(ts, self.cur(), self.next_id(), params_m(params@)),
            ensures
                old(self).moved_to(*self),
                err.is_none() ==> consumed(old(self).toks(), old(self).cur(), self.cur())
                    == params_yield(params@),
                ts == old(self).toks(),
                target == p_parameters(ts, old(self).cur(), old(self).next_id()),
                err matches Some(e) ==> target == Err::<(Seq<ParamM<'a>>, int, int), ParseError<'a>>(e),
                err.is_none() ==> target == Ok::<(Seq<ParamM<'a>>, int, int), ParseError<'a>>(
                    (params_m(params@), self.cur(), self.next_id()),
                ),
            decreases self.remaining(),
        {
            let c0 = self.current;
            match self.parameter_declaration() {
                Ok(Some(p)) => {
                    let ghost before = params@;
                    params.push(p);
                    proof {
                        lemma_consumed_split(self.toks(), old(self).cur(), c0 as int, self.cur());
                        assert(params@.drop_last() =~= before);
                        lemma_params_m_push(before, p);
                    }
                },
                Ok(None) => {
                    break ;
                },
                Err(e) => {
                    err = Some(e);
                    break ;
                },
            }
            if self.same(&[TokenType::Rparen]) {
                break ;
            }
            let c1 = self.current;
            match self.eat(TokenType::Comma) {
                Ok(_) => {
                    proof {
                        lemma_consumed_one(self.toks(), c1 as int);
                        lemma_consumed_split(self.toks(), old(self).cur(), c1 as int, self.cur());
                        assert(params_yield(params@) + Seq::<TokenType>::empty() =~= params_yield(
                            params@,
                        ));
                    }
                },
                Err(e) => {
                    err = Some(e);
                    break ;
                },
            }
        }
        match err {
            Some(e) => Err(e),
            None => Ok(params),
        }
    }

    /// Parses one parameter: a type keyword, an optional declarator and an
    /// optional `= initializer`. `None` when no type keyword comes next.
    fn parameter_declaration(&mut self) -> (r: Result<Option<Param<'a>>, ParseError<'a>>)
        requires
            old(self).wf(),
        ensures
            old(self).moved_to(*final(self)),
            r matches Ok(None) ==> final(self).cur() == old(self).cur(),
            r matches Ok(Some(p)) ==> old(self).cur() < final(self).cur() && consumed(
                old(self).toks(),
                old(self).cur(),
                final(self).cur(),
            ) == param_yield(p),
            param_outcome(
                r,
                p_parameter(old(self).toks(), old(self).cur(), old(self).next_id()),
                final(self).cur(),
                final(self).next_id(),
            ),
        decreases old(self).remaining(), 2nat,
    {
        let type_spec = match self.declaration_specifier() {
            None => {
                return Ok(None);
            },
            Some(t) => t,
        };
        let c1 = self.current;
        proof {
            lemma_consumed_one(self.toks(), old(self).cur());
        }
        if self.same(&[TokenType::Comma, TokenType::Rparen]) {
            let id = self.type_id();
            let p = Param { type_spec, decl: None, init: None, id };
            proof {
                lemma_consumed_empty(self.toks(), c1 as int);
                assert(param_yield(p) =~= seq![type_spec.token_type]);
            }
            return Ok(Some(p));
        }
        let decl = match self.declarator() {
            Ok(d) => d,
            Err(e) => {
                return Err(e);
            },
        };
        let c2 = self.current;
        let mut init: Option<Expr<'a>> = None;
        if self.same(&[TokenType::OpEqual]) {
            let _ = self.eat(TokenType::OpEqual);
            let c3 = self.current;
            match self.expression() {
                Ok(e) => {
                    proof {
                        lemma_consumed_one(self.toks(), c2 as int);
                        lemma_consumed_split(self.toks(), c2 as int, c3 as int, self.cur());
                    }
                    init = Some(e);
                },
                Err(e) => {
                    return Err(e);
                },
            }
        } else {
            proof {
                lemma_consumed_empty(self.toks(), c2 as int);
            }
        }
        proof {
            lemma_consumed_split(self.toks(), old(self).cur(), c1 as int, c2 as int);
            lemma_consumed_split(self.toks(), old(self).cur(), c2 as int, self.cur());
        }
        let id = self.type_id();
        let p = Param { type_spec, decl: Some(decl), init, id };
        assert(param_yield(p) =~= seq![type_spec.token_type] + decl_yield(decl) + init_yield(init));
        Ok(Some(p))
    }
}


/// `b` cuts the tokens `ts[b[0]..b.last()]` into consecutive segments, the
/// `i`-th of which is a source of the `i`-th top-level statement.
pub open spec fn splits(ts: Seq<Token>, stmts: Seq<TopLevelStmt>, b: Seq<int>) -> bool {
    &&& b.len() == stmts.len() + 1
    &&& forall|i: int|
        0 <= i < stmts.len() ==> #[trigger] top_yields(stmts[i], consumed(ts, b[i], b[i + 1]))
}

pub proof fn lemma_splits_push(
    ts: Seq<Token>,
    stmts: Seq<TopLevelStmt>,
    b: Seq<int>,
    t: TopLevelStmt,
    c: int,
)
    requires
        splits(ts, stmts, b),
        b.last() <= c,
        top_yields(t, consumed(ts, b.last(), c)),
    ensures
        splits(ts, stmts.push(t), b.push(c)),
{
    let s2 = stmts.push(t);
    let b2 = b.push(c);
    assert forall|i: int| 0 <= i < s2.len() implies #[trigger] top_yields(
        s2[i],
        consumed(ts, b2[i], b2[i + 1]),
    ) by {
        if i < stmts.len() {
            assert(s2[i] == stmts[i]);
            assert(top_yields(stmts[i], consumed(ts, b[i], b[i + 1])));
        }
    }
}

impl<'a> Parser<'a> {
    /// Parses the whole token list as a sequence of top-level declarations.
    pub fn parse(&mut self) -> (r: Result<Vec<TopLevelStmt<'a>>, ParseError<'a>>)
        requires
            old(self).wf(),
        ensures
            old(self).moved_to(*final(self)),
            r matches Ok(stmts) ==> {
                &&& final(self).cur() == final(self).toks().len()
                &&& exists|b: Seq<int>|
                    splits(old(self).toks(), stmts@, b) && b[0] == old(self).cur() && b.last()
                        == final(self).cur()
            },
            program_outcome(
                r,
                p_program(old(self).toks(), old(self).cur(), old(self).next_id(), Seq::empty()),
                final(self).cur(),
                final(self).next_id(),
            ),
    {
        self.external_declarations()
    }

    pub(crate) fn external_declarations(&mut self) -> (r: Result<
        Vec<TopLevelStmt<'a>>,
        ParseError<'a>,
    >)
        requires
            old(self).wf(),
        ensures
            old(self).moved_to(*final(self)),
            r matches Ok(stmts) ==> {
                &&& final(self).cur() == final(self).toks().len()
                &&& exists|b: Seq<int>|
                    splits(old(self).toks(), stmts@, b) && b[0] == old(self).cur() && b.last()
                        == final(self).cur()
            },
            program_outcome(
                r,
                p_program(old(self).toks(), old(self).cur(), old(self).next_id(), Seq::empty()),
                final(self).cur(),
                final(self).next_id(),
            ),
    {
        let mut stmts: Vec<TopLevelStmt<'a>> = Vec::new();
        let ghost mut b: Seq<int> = seq![self.cur()];
        let mut err: Option<ParseError<'a>> = None;
        let ghost ts = self.toks();
        let ghost target = p_program(ts, self.cur(), self.next_id(), Seq::empty());
        assert(tops_m(stmts@) =~= Seq::<TopM<'a>>::empty());
        loop
            invariant_except_break
                old(self).moved_to(*self),
                err.is_none(),
                splits(old(self).toks(), stmts@, b),
                b[0] == old(self).cur(),
                b.last() == self.cur(),
                ts == old(self).toks(),
                target == p_program(ts, old(self).cur(), old(self).next_id(), Seq::empty()),
                target == p_program(ts, self.cur(), self.next_id(), tops_m(stmts@)),
            ensures
                old(self).moved_to(*self),
                err.is_none() ==> {
                    &&& splits(old(self).toks(), stmts@, b)
                    &&& b[0] == old(self).cur()
                    &&& b.last() == self.cur()
                    &&& self.cur() == self.toks().len()
                },
                target == p_program(ts, old(self).cur(), old(self).next_id(), Seq::empty()),
                err matches Some(e) ==> target == Err::<(Seq<TopM<'a>>, int, int), ParseError<'a>>(e),
                err.is_none() ==> target == Ok::<(Seq<TopM<'a>>, int, int), ParseError<'a>>(
                    (tops_m(stmts@), self.cur(), self.next_id()),
                ),
            decreases self.remaining(),
        {
            let ghost pre_cur = self.cur();
            match self.top_level_declaration() {
                Ok(Some(stmt)) => {
                    let ghost g = stmt;
                    let ghost before = stmts@;
                    let ghost b0 = b;
                    stmts.push(stmt);
                    proof {
                        lemma_splits_push(old(self).toks(), before, b0, g, self.cur());
                        b = b.push(self.cur());
                        assert(stmts@ =~= before.push(g));
                        lemma_tops_m_push(before, g);

                    }
                },
                Ok(None) => {
                    break ;
                },
                Err(e) => {
                    err = Some(e);
                    break ;
                },
            }
        }
        match err {
            Some(e) => Err(e),
            None => Ok(stmts),
        }
    }

    /// Parses the parameter list of a top-level function, if one comes;
    /// says whether it did.
    fn top_level_parameters(&mut self) -> (r: Result<(bool, Vec<Param<'a>>), ParseError<'a>>)
        requires
            old(self).wf(),
        ensures
            old(self).moved_to(*final(self)),
            r matches Ok((is_fun, ps)) ==> {
                &&& is_fun ==> consumed(old(self).toks(), old(self).cur(), final(self).cur())
                    == seq![TokenType::Lparen] + params_yield(ps@) + seq![TokenType::Rparen]
                &&& !is_fun ==> final(self).cur() == old(self).cur() && final(self).next_id()
                    == old(self).next_id() && ps@.len() == 0
                &&& p_top_parameters(old(self).toks(), old(self).cur(), old(self).next_id())
                    == Ok::<(bool, Seq<ParamM<'a>>, int, int), ParseError<'a>>(
                    (is_fun, params_m(ps@), final(self).cur(), final(self).next_id()),
                )
            },
            r matches Err(e) ==> p_top_parameters(old(self).toks(), old(self).cur(), old(self).next_id())
                == Err::<(bool, Seq<ParamM<'a>>, int, int), ParseError<'a>>(e),
    {
        let params: Vec<Param<'a>> = Vec::new();
        assert(params_m(params@) =~= Seq::<ParamM<'a>>::empty());
        if !self.same(&[TokenType::Lparen]) {
            return Ok((false, params));
        }
        let c2 = self.current;
        let _ = self.eat(TokenType::Lparen);
        let c3 = self.current;
        let params = match self.parameters() {
            Ok(ps) => ps,
            Err(e) => {
                return Err(e);
            },
        };
        let c4 = self.current;
        match self.eat(TokenType::Rparen) {
            Ok(_) => {},
            Err(e) => {
                return Err(e);
            },
        }
        proof {
            lemma_consumed_one(self.toks(), c2 as int);
            lemma_consumed_one(self.toks(), c4 as int);
            lemma_consumed_split(self.toks(), c2 as int, c3 as int, c4 as int);
            lemma_consumed_split(self.toks(), c2 as int, c4 as int, self.cur());
        }
        Ok((true, params))
    }

    /// Parses one top-level declaration: a type token, a name, then a
    /// parameter list, an initializer, a `;` or a body. `None` at the end
    /// of the tokens.
    #[verifier::rlimit(90)]
    fn top_level_declaration(&mut self) -> (r: Result<Option<TopLevelStmt<'a>>, ParseError<'a>>)
        requires
            old(self).wf(),
        ensures
            old(self).moved_to(*final(self)),
            r matches Ok(None) ==> final(self).cur() == old(self).cur() && old(self).cur()
                >= old(self).toks().len(),
            r matches Ok(Some(t)) ==> old(self).cur() < final(self).cur() && top_yields(
                t,
                consumed(old(self).toks(), old(self).cur(), final(self).cur()),
            ),
            top_outcome(
                r,
                p_top_level(old(self).toks(), old(self).cur(), old(self).next_id()),
                final(self).cur(),
                final(self).next_id(),
            ),
    {
        if self.peek().is_none() {
            return Ok(None);
        }
        let type_spec = match self.advance() {
            Ok(t) => t,
            Err(e) => {
                return Err(e);
            },
        };
        let c1 = self.current;
        let identifier = match self.advance() {
            Ok(t) => t,
            Err(e) => {
                return Err(e);
            },
        };
        let c2 = self.current;
        let decl = self.decl(DeclKind::Identifier(identifier));
        proof {
            lemma_consumed_one(self.toks(), old(self).cur());
            lemma_consumed_one(self.toks(), c1 as int);
            lemma_consumed_split(self.toks(), old(self).cur(), c1 as int, c2 as int);
            assert(decl_yield(decl) =~= tok_yield(identifier));
        }
        let ghost head = tok_yield(type_spec) + decl_yield(decl);
        assert(consumed(self.toks(), old(self).cur(), c2 as int) =~= head);
        let (is_fun, params) = match self.top_level_parameters() {
            Ok(p) => p,
            Err(e) => {
                return Err(e);
            },
        };
        proof {
            if is_fun {
                lemma_consumed_split(self.toks(), old(self).cur(), c2 as int, self.cur());
            }
        }
        let ghost c5 = self.cur();
        assert(is_fun ==> consumed(self.toks(), old(self).cur(), c5) == head + seq![
            TokenType::Lparen,
        ] + params_yield(params@) + seq![TokenType::Rparen]);
        assert(!is_fun ==> c5 == c2 && params@.len() == 0);
        if !is_fun && self.same(&[TokenType::OpEqual]) {
            let _ = self.eat(TokenType::OpEqual);
            let c6 = self.current;
            let expr = match self.expression() {
                Ok(e) => e,
                Err(e) => {
                    return Err(e);
                },
            };
            let c7 = self.current;
            match self.eat(TokenType::Semicolon) {
                Ok(_) => {},
                Err(e) => {
                    return Err(e);
                },
            }
            proof {
                lemma_consumed_one(self.toks(), c2 as int);
                lemma_consumed_one(self.toks(), c7 as int);
                lemma_consumed_split(self.toks(), old(self).cur(), c2 as int, c6 as int);
                lemma_consumed_split(self.toks(), old(self).cur(), c6 as int, c7 as int);
                lemma_consumed_split(self.toks(), old(self).cur(), c7 as int, self.cur());
            }
            let t = self.tlstmt(
                TopLevelStmtKind::GlobalVariable { type_spec, decl, init: Some(expr) },
            );
            assert(consumed(self.toks(), old(self).cur(), self.cur()) =~= head + init_yield(
                Some(expr),
            ) + seq![TokenType::Semicolon]);
            return Ok(Some(t));
        }
        if self.same(&[TokenType::Semicolon]) {
            let _ = self.eat(TokenType::Semicolon);
            proof {
                lemma_consumed_one(self.toks(), c5);
                lemma_consumed_split(self.toks(), old(self).cur(), c5, self.cur());
            }
            if !is_fun {
                let t = self.tlstmt(TopLevelStmtKind::GlobalVariable { type_spec, decl, init: None });
                assert(consumed(self.toks(), old(self).cur(), self.cur()) =~= head + init_yield(
                    None,
                ) + seq![TokenType::Semicolon]);
                return Ok(Some(t));
            } else {
                let t = self.tlstmt(
                    TopLevelStmtKind::FunctionDefinition { type_spec, decl, params, body: None },
                );
                return Ok(Some(t));
            }
        }
        let body = match self.compound_statement() {
            Ok(s) => s,
            Err(e) => {
                return Err(e);
            },
        };
        proof {
            lemma_consumed_split(self.toks(), old(self).cur(), c5, self.cur());
        }
        let t = self.tlstmt(
            TopLevelStmtKind::FunctionDefinition { type_spec, decl, params, body: Some(body) },
        );
        Ok(Some(t))
    }

    /// Parses a local variable declaration, if a type keyword comes next.
    fn declaration(&mut self) -> (r: Result<Option<Stmt<'a>>, ParseError<'a>>)
        requires
            old(self).wf(),
        ensures
            old(self).moved_to(*final(self)),
            r matches Ok(None) ==> final(self).cur() == old(self).cur() && !(old(self).cur()
                < old(self).toks().len() && is_type_keyword(
                old(self).toks()[old(self).cur()].token_type,
            )),
            r matches Ok(Some(s)) ==> old(self).cur() < final(self).cur() && consumed(
                old(self).toks(),
                old(self).cur(),
                final(self).cur(),
            ) == stmt_yield(s),
            opt_stmt_outcome(
                r,
                p_declaration(old(self).toks(), old(self).cur(), old(self).next_id()),
                final(self).cur(),
                final(self).next_id(),
            ),
    {
        let type_spec = match self.declaration_specifier() {
            None => {
                return Ok(None);
            },
            Some(t) => t,
        };
        let c1 = self.current;
        let decl = match self.declarator() {
            Ok(d) => d,
            Err(e) => {
                return Err(e);
            },
        };
        let c2 = self.current;
        let mut init: Option<Expr<'a>> = None;
        if self.same(&[TokenType::OpEqual]) {
            let _ = self.eat(TokenType::OpEqual);
            let c3 = self.current;
            match self.expression() {
                Ok(e) => {
                    proof {
                        lemma_consumed_one(self.toks(), c2 as int);
                        lemma_consumed_split(self.toks(), c2 as int, c3 as int, self.cur());
                    }
                    init = Some(e);
                },
                Err(e) => {
                    return Err(e);
                },
            }
        } else {
            proof {
                lemma_consumed_empty(self.toks(), c2 as int);
            }
        }
        let c4 = self.current;
        match self.eat(TokenType::Semicolon) {
            Ok(_) => {},
            Err(e) => {
                return Err(e);
            },
        }
        proof {
            lemma_consumed_one(self.toks(), old(self).cur());
            lemma_consumed_one(self.toks(), c4 as int);
            lemma_consumed_split(self.toks(), old(self).cur(), c1 as int, c2 as int);
            lemma_consumed_split(self.toks(), old(self).cur(), c2 as int, c4 as int);
            lemma_consumed_split(self.toks(), old(self).cur(), c4 as int, self.cur());
        }
        let s = self.stmt(StmtKind::VarDecl { type_spec, decl, init });
        assert(consumed(self.toks(), old(self).cur(), self.cur()) =~= seq![type_spec.token_type]
            + decl_yield(decl) + init_yield(init) + seq![TokenType::Semicolon]);
        Ok(Some(s))
    }

    /// Parses a statement: `if`, a block, `return`, or an expression
    /// followed by `;`.
    fn statement(&mut self) -> (r: Result<Stmt<'a>, ParseError<'a>>)
        requires
            old(self).wf(),
        ensures
            old(self).moved_to(*final(self)),
            r is Ok ==> old(self).cur() < final(self).cur(),
            r matches Ok(s) ==> consumed(old(self).toks(), old(self).cur(), final(self).cur())
                == stmt_yield(s),
            stmt_outcome(
                r,
                p_statement(old(self).toks(), old(self).cur(), old(self).next_id()),
                final(self).cur(),
                final(self).next_id(),
            ),
        decreases old(self).remaining(), 1nat,
    {
        let toktype = match self.peek() {
            None => {
                return Err(ParseError::NoTokensLeft);
            },
            Some(token) => token.token_type,
        };
        if toktype == TokenType::KwIf {
            self.selection_statement()
        } else if toktype == TokenType::Lbrace {
            self.compound_statement()
        } else if toktype == TokenType::KwReturn {
            let debug = match self.eat(TokenType::KwReturn) {
                Ok(t) => t,
                Err(e) => {
                    return Err(e);
                },
            };
            let c1 = self.current;
            proof {
                lemma_consumed_one(self.toks(), old(self).cur());
            }
            if self.same(&[TokenType::Semicolon]) {
                let _ = self.eat(TokenType::Semicolon);
                proof {
                    lemma_consumed_one(self.toks(), c1 as int);
                    lemma_consumed_split(self.toks(), old(self).cur(), c1 as int, self.cur());
                }
                let s = self.stmt(StmtKind::Return { debug, expr: None });
                assert(consumed(self.toks(), old(self).cur(), self.cur()) =~= seq![
                    TokenType::KwReturn,
                    TokenType::Semicolon,
                ]);
                return Ok(s);
            }
            let expr = match self.expression() {
                Ok(e) => e,
                Err(e) => {
                    return Err(e);
                },
            };
            let c2 = self.current;
            match self.eat(TokenType::Semicolon) {
                Ok(_) => {},
                Err(e) => {
                    return Err(e);
                },
            }
            proof {
                lemma_consumed_one(self.toks(), c2 as int);
                lemma_consumed_split(self.toks(), old(self).cur(), c1 as int, c2 as int);
                lemma_consumed_split(self.toks(), old(self).cur(), c2 as int, self.cur());
            }
            let s = self.stmt(StmtKind::Return { debug, expr: Some(expr) });
            assert(consumed(self.toks(), old(self).cur(), self.cur()) =~= seq![TokenType::KwReturn]
                + expr_yield(expr) + seq![TokenType::Semicolon]);
            Ok(s)
        } else {
            self.expression_statement()
        }
    }

    fn expression_statement(&mut self) -> (r: Result<Stmt<'a>, ParseError<'a>>)
        requires
            old(self).wf(),
        ensures
            old(self).moved_to(*final(self)),
            r is Ok ==> old(self).cur() < final(self).cur(),
            r matches Ok(s) ==> consumed(old(self).toks(), old(self).cur(), final(self).cur())
                == stmt_yield(s),
            stmt_outcome(
                r,
                p_expression_statement(old(self).toks(), old(self).cur(), old(self).next_id()),
                final(self).cur(),
                final(self).next_id(),
            ),
    {
        let expr = match self.expression() {
            Ok(e) => e,
            Err(e) => {
                return Err(e);
            },
        };
        let c1 = self.current;
        match self.eat(TokenType::Semicolon) {
            Ok(_) => {},
            Err(e) => {
                return Err(e);
            },
        }
        proof {
            lemma_consumed_one(self.toks(), c1 as int);
            lemma_consumed_split(self.toks(), old(self).cur(), c1 as int, self.cur());
        }
        Ok(self.stmt(StmtKind::Expression(expr)))
    }

    /// Parses `{`, declarations and statements, `}`.
    fn compound_statement(&mut self) -> (r: Result<Stmt<'a>, ParseError<'a>>)
        requires
            old(self).wf(),
        ensures
            old(self).moved_to(*final(self)),
            r is Ok ==> old(self).cur() < final(self).cur(),
            r matches Ok(s) ==> consumed(old(self).toks(), old(self).cur(), final(self).cur())
                == stmt_yield(s),
            stmt_outcome(
                r,
                p_compound(old(self).toks(), old(self).cur(), old(self).next_id()),
                final(self).cur(),
                final(self).next_id(),
            ),
        decreases old(self).remaining(), 0nat,
    {
        let ghost ts = self.toks();
        let ghost target = p_compound(ts, self.cur(), self.next_id());
        match self.eat(TokenType::Lbrace) {
            Ok(_) => {},
            Err(e) => {
                return Err(e);
            },
        }
        let c1 = self.current;
        proof {
            lemma_consumed_one(self.toks(), old(self).cur());
            lemma_consumed_empty(self.toks(), c1 as int);
        }
        let mut stmts: Vec<Stmt<'a>> = Vec::new();
        let mut err: Option<ParseError<'a>> = None;
        assert(stmts_yield(stmts@) =~= Seq::<TokenType>::empty());
        assert(stmts_m(stmts@) =~= Seq::<StmtM<'a>>::empty());
        let ghost n0 = self.next_id();
        loop
            invariant_except_break
                old(self).moved_to(*self),
                old(self).cur() < c1 <= self.cur(),
                c1 == old(self).cur() + 1,
                self.next_id() - old(self).next_id() < self.cur() - old(self).cur(),
                err.is_none(),
                consumed(old(self).toks(), c1 as int, self.cur()) == stmts_yield(stmts@),
                ts == old(self).toks(),
                n0 == old(self).next_id(),
                target == p_compound(ts, old(self).cur(), old(self).next_id()),
                p_block_items(ts, c1 as int, n0, Seq::empty()) == p_block_items(
                    ts,
                    self.cur(),
                    self.next_id(),
                    stmts_m(stmts@),
                ),
            ensures
                old(self).moved_to(*self),
                old(self).cur() < c1 <= self.cur(),
                self.next_id() - old(self).next_id() < self.cur() - old(self).cur(),
                err.is_none() ==> consumed(old(self).toks(), c1 as int, self.cur()) == stmts_yield(
                    stmts@,
                ),
                ts == old(self).toks(),
                n0 == old(self).next_id(),
                target == p_compound(ts, old(self).cur(), old(self).next_id()),
                err matches Some(e) ==> p_block_items(ts, c1 as int, n0, Seq::empty()) == Err::<
                    (Seq<StmtM<'a>>, int, int),
                    ParseError<'a>,
                >(e),
                err.is_none() ==> p_block_items(ts, c1 as int, n0, Seq::empty()) == Ok::<
                    (Seq<StmtM<'a>>, int, int),
                    ParseError<'a>,
                >((stmts_m(stmts@), self.cur(), self.next_id())),
            decreases self.remaining(),
        {
            let toktype = match self.peek() {
                None => {
                    break ;
                },
                Some(token) => token.token_type,
            };
            if toktype == TokenType::Rbrace {
                break ;
            }
            let c2 = self.current;
            let s = match self.declaration() {
                Ok(Some(s)) => s,
                Ok(None) => match self.statement() {
                    Ok(s) => s,
                    Err(e) => {
                        err = Some(e);
                        break ;
                    },
                },
                Err(e) => {
                    err = Some(e);
                    break ;
                },
            };
            let ghost before = stmts@;
            stmts.push(s);
            proof {
                lemma_consumed_split(self.toks(), c1 as int, c2 as int, self.cur());
                assert(stmts@.drop_last() =~= before);
                lemma_stmts_m_push(before, s);
            }
        }
        if let Some(e) = err {
            return Err(e);
        }
        let c3 = self.current;
        match self.eat(TokenType::Rbrace) {
            Ok(_) => {},
            Err(e) => {
                return Err(e);
            },
        }
        proof {
            lemma_consumed_one(self.toks(), c3 as int);
            lemma_consumed_split(self.toks(), old(self).cur(), c1 as int, c3 as int);
            lemma_consumed_split(self.toks(), old(self).cur(), c3 as int, self.cur());
        }
        let s = self.stmt(StmtKind::Compound(stmts));
        assert(consumed(self.toks(), old(self).cur(), self.cur()) =~= seq![TokenType::Lbrace]
            + stmts_yield(stmts@) + seq![TokenType::Rbrace]);
        Ok(s)
    }

    /// Parses `if ( cond ) stmt` with an optional `else stmt`.
    fn selection_statement(&mut self) -> (r: Result<Stmt<'a>, ParseError<'a>>)
        requires
            old(self).wf(),
        ensures
            old(self).moved_to(*final(self)),
            r is Ok ==> old(self).cur() < final(self).cur(),
            r matches Ok(s) ==> consumed(old(self).toks(), old(self).cur(), final(self).cur())
                == stmt_yield(s),
            stmt_outcome(
                r,
                p_selection(old(self).toks(), old(self).cur(), old(self).next_id()),
                final(self).cur(),
                final(self).next_id(),
            ),
        decreases old(self).remaining(), 0nat,
    {
        let debug = match self.eat(TokenType::KwIf) {
            Ok(t) => t,
            Err(e) => {
                return Err(e);
            },
        };
        let c1 = self.current;
        match self.eat(TokenType::Lparen) {
            Ok(_) => {},
            Err(e) => {
                return Err(e);
            },
        }
        let c2 = self.current;
        let cond = match self.expression() {
            Ok(e) => e,
            Err(e) => {
                return Err(e);
            },
        };
        let c3 = self.current;
        match self.eat(TokenType::Rparen) {
            Ok(_) => {},
            Err(e) => {
                return Err(e);
            },
        }
        let c4 = self.current;
        let stmt = match self.statement() {
            Ok(s) => s,
            Err(e) => {
                return Err(e);
            },
        };
        let c5 = self.current;
        let mut otherwise: Option<Box<Stmt<'a>>> = None;
        if self.eat_if(TokenType::KwElse) {
            let c6 = self.current;
            match self.statement() {
                Ok(o) => {
                    proof {
                        lemma_consumed_one(self.toks(), c5 as int);
                        lemma_consumed_split(self.toks(), c5 as int, c6 as int, self.cur());
                    }
                    otherwise = Some(Box::new(o));
                },
                Err(e) => {
                    return Err(e);
                },
            }
        } else {
            proof {
                lemma_consumed_empty(self.toks(), c5 as int);
            }
        }
        proof {
            lemma_consumed_one(self.toks(), old(self).cur());
            lemma_consumed_one(self.toks(), c1 as int);
            lemma_consumed_one(self.toks(), c3 as int);
            lemma_consumed_split(self.toks(), old(self).cur(), c1 as int, c2 as int);
            lemma_consumed_split(self.toks(), old(self).cur(), c2 as int, c3 as int);
            lemma_consumed_split(self.toks(), old(self).cur(), c3 as int, c4 as int);
            lemma_consumed_split(self.toks(), old(self).cur(), c4 as int, c5 as int);
            lemma_consumed_split(self.toks(), old(self).cur(), c5 as int, self.cur());
        }
        let s = self.stmt(StmtKind::If { debug, cond, stmt: Box::new(stmt), otherwise });
        assert(consumed(self.toks(), old(self).cur(), self.cur()) =~= seq![
            TokenType::KwIf,
            TokenType::Lparen,
        ] + expr_yield(cond) + seq![TokenType::Rparen] + stmt_yield(stmt) + (match otherwise {
            Some(o) => seq![TokenType::KwElse] + stmt_yield(*o),
            None => seq![],
        }));
        Ok(s)
    }
}

} // verus!
