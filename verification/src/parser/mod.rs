//! A recursive-descent parser with binding powers for operators.
use vstd::prelude::*;

use crate::lexer::{Token, TokenType};
use crate::parser::ast::{Decl, DeclKind, Expr, ExprKind, Stmt, StmtKind, TopLevelStmt, TopLevelStmtKind};
use crate::type_checker::annotation::TypeID;

pub mod ast;
pub mod grammar;
pub mod laws;
pub mod literal;
pub mod model;
mod expression;
mod statement;

verus! {

/// Why parsing stopped.
#[derive(Debug)]
pub enum ParseError<'a> {
    /// A token was needed but the input had ended.
    PastEnd,
    /// The input ended where the given token type was expected.
    ExpectedAtEnd(TokenType),
    /// Another token stood where the given token type was expected.
    Expected { expected: TokenType, found: Token<'a> },
    /// The input ended where an expression, statement or declarator was to start.
    NoTokensLeft,
    /// The token cannot start an expression.
    UnexpectedPrimary(Token<'a>),
    /// The token cannot start a declarator.
    NotADeclarator(Token<'a>),
    /// The text of a literal token does not denote a value of its type.
    BadLiteral(Token<'a>),
}

/// The types of the tokens `ts[i..j]`, commas left out.
pub open spec fn consumed(ts: Seq<Token>, i: int, j: int) -> Seq<TokenType>
    decreases j - i,
{
    if i >= j {
        seq![]
    } else {
        consumed(ts, i, j - 1) + (if ts[j - 1].token_type == TokenType::Comma {
            seq![]
        } else {
            seq![ts[j - 1].token_type]
        })
    }
}

pub proof fn lemma_consumed_split(ts: Seq<Token>, i: int, j: int, k: int)
    requires
        i <= j <= k,
    ensures
        consumed(ts, i, k) == consumed(ts, i, j) + consumed(ts, j, k),
    decreases k - j,
{
    if j == k {
        assert(consumed(ts, i, j) + consumed(ts, j, k) =~= consumed(ts, i, j));
    } else {
        lemma_consumed_split(ts, i, j, k - 1);
        assert(consumed(ts, i, k) =~= consumed(ts, i, j) + consumed(ts, j, k));
    }
}

pub proof fn lemma_consumed_one(ts: Seq<Token>, i: int)
    ensures
        consumed(ts, i, i + 1) == (if ts[i].token_type == TokenType::Comma {
            seq![]
        } else {
            seq![ts[i].token_type]
        }),
{
    assert(consumed(ts, i, i) =~= Seq::<TokenType>::empty());
    assert(consumed(ts, i, i + 1) =~= consumed(ts, i, i) + (if ts[i].token_type
        == TokenType::Comma {
        seq![]
    } else {
        seq![ts[i].token_type]
    }));
}

/// Builds a syntax tree from a list of tokens; numbers the nodes in the
/// order it finishes them.
pub struct Parser<'a> {
    tokens: Vec<Token<'a>>,
    current: usize,
    offset: usize,
}

impl<'a> Parser<'a> {
    /// The tokens being parsed.
    pub closed spec fn toks(&self) -> Seq<Token<'a>> {
        self.tokens@
    }

    /// Index of the next token to read.
    pub closed spec fn cur(&self) -> int {
        self.current as int
    }

    /// The number the next node will get.
    pub closed spec fn next_id(&self) -> int {
        self.offset as int
    }

    /// Every node owns a token: no more nodes than tokens read.
    pub open spec fn wf(&self) -> bool {
        &&& self.cur() <= self.toks().len()
        &&& self.next_id() <= self.cur()
    }

    /// `next` is this parser after reading further, with no more new
    /// nodes than tokens read on the way.
    pub open spec fn moved_to(&self, next: Self) -> bool {
        &&& next.wf()
        &&& next.toks() == self.toks()
        &&& self.cur() <= next.cur()
        &&& self.next_id() <= next.next_id()
        &&& next.next_id() - self.next_id() <= next.cur() - self.cur()
    }

    pub open spec fn remaining(&self) -> int {
        self.toks().len() - self.cur()
    }

    /// Parses the given tokens from the first one.
    pub fn new(tokens: Vec<Token<'a>>) -> (r: Self)
        ensures
            r.wf(),
            r.toks() == tokens@,
            r.cur() == 0,
            r.next_id() == 0,
    {
        Self { tokens, current: 0, offset: 0 }
    }

    /// Reads the next token.
    fn advance(&mut self) -> (r: Result<Token<'a>, ParseError<'a>>)
        requires
            old(self).wf(),
        ensures
            final(self).toks() == old(self).toks(),
            final(self).next_id() == old(self).next_id(),
            final(self).wf(),
            old(self).cur() < old(self).toks().len() ==> r == Ok::<Token<'a>, ParseError<'a>>(
                old(self).toks()[old(self).cur()],
            ) && final(self).cur() == old(self).cur() + 1,
            old(self).cur() >= old(self).toks().len() ==> r == Err::<Token<'a>, ParseError<'a>>(
                ParseError::PastEnd,
            ) && final(self).cur() == old(self).cur(),
    {
        if self.current < self.tokens.len() {
            let t = self.tokens[self.current];
            self.current += 1;
            Ok(t)
        } else {
            Err(ParseError::PastEnd)
        }
    }

    /// The next token, without reading it.
    fn peek(&self) -> (r: Option<&Token<'a>>)
        requires
            self.wf(),
        ensures
            self.cur() < self.toks().len() ==> r == Some(&self.toks()[self.cur()]),
            self.cur() >= self.toks().len() ==> r.is_none(),
    {
        if self.current < self.tokens.len() {
            Some(&self.tokens[self.current])
        } else {
            None
        }
    }

    /// Whether the next token has one of the given types.
    fn same(&self, t: &[TokenType]) -> (r: bool)
        requires
            self.wf(),
        ensures
            r == (self.cur() < self.toks().len() && t@.contains(
                self.toks()[self.cur()].token_type,
            )),
    {
        if self.current >= self.tokens.len() {
            return false;
        }
        let tt = self.tokens[self.current].token_type;
        let mut i: usize = 0;
        let mut found = false;
        while i < t.len()
            invariant
                i <= t@.len(),
                found == (exists|j: int| 0 <= j < i && t@[j] == tt),
            decreases t.len() - i,
        {
            if t[i] == tt {
                found = true;
            }
            i += 1;
        }
        proof {
            if found {
                let j = choose|j: int| 0 <= j < i && t@[j] == tt;
                assert(t@.contains(tt));
            }
        }
        found
    }

    /// Reads the next token if it has type `t`.
    fn eat(&mut self, t: TokenType) -> (r: Result<Token<'a>, ParseError<'a>>)
        requires
            old(self).wf(),
        ensures
            final(self).toks() == old(self).toks(),
            final(self).next_id() == old(self).next_id(),
            final(self).wf(),
            r is Ok == (old(self).cur() < old(self).toks().len() && old(self).toks()[old(
                self,
            ).cur()].token_type == t),
            r is Ok ==> r == Ok::<Token<'a>, ParseError<'a>>(old(self).toks()[old(self).cur()])
                && final(self).cur() == old(self).cur() + 1,
            r is Err ==> final(self).cur() == old(self).cur(),
            old(self).cur() >= old(self).toks().len() ==> r == Err::<Token<'a>, ParseError<'a>>(
                ParseError::ExpectedAtEnd(t),
            ),
            old(self).cur() < old(self).toks().len() && old(self).toks()[old(self).cur()].token_type
                != t ==> r == Err::<Token<'a>, ParseError<'a>>(
                ParseError::Expected { expected: t, found: old(self).toks()[old(self).cur()] },
            ),
    {
        if self.current >= self.tokens.len() {
            return Err(ParseError::ExpectedAtEnd(t));
        }
        let token = self.tokens[self.current];
        if token.token_type == t {
            self.current += 1;
            return Ok(token);
        }
        Err(ParseError::Expected { expected: t, found: token })
    }

    /// Reads the next token if it has type `t`; says whether it did.
    fn eat_if(&mut self, t: TokenType) -> (r: bool)
        requires
            old(self).wf(),
        ensures
            final(self).toks() == old(self).toks(),
            final(self).next_id() == old(self).next_id(),
            final(self).wf(),
            r == (old(self).cur() < old(self).toks().len() && old(self).toks()[old(
                self,
            ).cur()].token_type == t),
            r ==> final(self).cur() == old(self).cur() + 1,
            !r ==> final(self).cur() == old(self).cur(),
    {
        if self.current < self.tokens.len() && self.tokens[self.current].token_type == t {
            self.current += 1;
            return true;
        }
        false
    }

    /// A fresh node number.
    fn type_id(&mut self) -> (r: TypeID)
        requires
            old(self).wf(),
            old(self).next_id() < old(self).cur(),
        ensures
            final(self).wf(),
            final(self).toks() == old(self).toks(),
            final(self).cur() == old(self).cur(),
            final(self).next_id() == old(self).next_id() + 1,
            r.0 == old(self).next_id(),
    {
        let id = TypeID(self.offset);
        self.offset += 1;
        id
    }

    fn tlstmt(&mut self, kind: TopLevelStmtKind<'a>) -> (r: TopLevelStmt<'a>)
        requires
            old(self).wf(),
            old(self).next_id() < old(self).cur(),
        ensures
            final(self).wf(),
            final(self).toks() == old(self).toks(),
            final(self).cur() == old(self).cur(),
            final(self).next_id() == old(self).next_id() + 1,
            r.kind == kind,
            r.id.0 == old(self).next_id(),
    {
        TopLevelStmt { kind, id: self.type_id() }
    }

    fn stmt(&mut self, kind: StmtKind<'a>) -> (r: Stmt<'a>)
        requires
            old(self).wf(),
            old(self).next_id() < old(self).cur(),
        ensures
            final(self).wf(),
            final(self).toks() == old(self).toks(),
            final(self).cur() == old(self).cur(),
            final(self).next_id() == old(self).next_id() + 1,
            r.kind == kind,
            r.id.0 == old(self).next_id(),
    {
        Stmt { kind, id: self.type_id() }
    }

    fn expr(&mut self, kind: ExprKind<'a>) -> (r: Expr<'a>)
        requires
            old(self).wf(),
            old(self).next_id() < old(self).cur(),
        ensures
            final(self).wf(),
            final(self).toks() == old(self).toks(),
            final(self).cur() == old(self).cur(),
            final(self).next_id() == old(self).next_id() + 1,
            r.kind == kind,
            r.id.0 == old(self).next_id(),
    {
        Expr { kind, id: self.type_id() }
    }

    fn decl(&mut self, kind: DeclKind<'a>) -> (r: Decl<'a>)
        requires
            old(self).wf(),
            old(self).next_id() < old(self).cur(),
        ensures
            final(self).wf(),
            final(self).toks() == old(self).toks(),
            final(self).cur() == old(self).cur(),
            final(self).next_id() == old(self).next_id() + 1,
            r.kind == kind,
            r.id.0 == old(self).next_id(),
    {
        Decl { kind, id: self.type_id() }
    }
}

} // verus!
