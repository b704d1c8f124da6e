//! The grammar the parser accepts, as functions from the tokens, the
//! position of the next token and the number of the next node to the tree
//! read there, the position after it and the next node number, or the
//! error the parser stops with.
//!
//! Nodes are numbered in the order they are finished. A guard that a
//! nested read moved forward stands where a loop goes round again; it
//! always holds, and makes the recursion visibly finite.
use vstd::prelude::*;

use crate::lexer::{Token, TokenType};
use crate::parser::literal::{spec_parse_bool, spec_parse_i32, spec_trim_quotes};
use crate::parser::ast::{Decl, Expr, Param, Stmt, TopLevelStmt};
use crate::parser::model::{
    decl_m, expr_m, exprs_m, param_m, params_m, stmt_m, tops_m, top_m, DeclKindM, DeclM, ExprKindM, ExprM, ParamM, StmtKindM, StmtM, TopKindM, TopM,
};
use crate::parser::ParseError;
use crate::type_checker::annotation::{is_type_keyword, TypeID};

verus! {

/// Reading a token of type `t` at `c`: the position after it.
pub open spec fn p_eat<'a>(ts: Seq<Token<'a>>, c: int, t: TokenType) -> Result<int, ParseError<'a>> {
    if c >= ts.len() {
        Err(ParseError::ExpectedAtEnd(t))
    } else if ts[c].token_type == t {
        Ok(c + 1)
    } else {
        Err(ParseError::Expected { expected: t, found: ts[c] })
    }
}

/// Whether the token at `c` has type `t`.
pub open spec fn p_at<'a>(ts: Seq<Token<'a>>, c: int, t: TokenType) -> bool {
    0 <= c < ts.len() && ts[c].token_type == t
}

pub open spec fn node<'a>(kind: ExprKindM<'a>, n: int) -> ExprM<'a> {
    ExprM { kind, id: TypeID(n as usize) }
}

/// Binding power of a postfix operator: calls and indexing.
pub open spec fn spec_postfix_bp(tok: TokenType) -> Option<u8> {
    if tok == TokenType::Lparen {
        Some(15)
    } else if tok == TokenType::Lbracket {
        Some(16)
    } else {
        None
    }
}

/// Left and right binding powers of an infix operator.
pub open spec fn spec_infix_bp(tok: TokenType) -> Option<(u8, u8)> {
    if tok == TokenType::OpPlus || tok == TokenType::OpMinus {
        Some((3, 4))
    } else if tok == TokenType::OpStar || tok == TokenType::OpSlash {
        Some((5, 6))
    } else if tok == TokenType::OpLogAnd {
        Some((7, 8))
    } else if tok == TokenType::OpLogOr {
        Some((9, 10))
    } else if tok == TokenType::OpEqual {
        Some((21, 20))
    } else {
        None
    }
}

/// A literal, a name, or a parenthesized expression.
pub open spec fn p_primary<'a>(ts: Seq<Token<'a>>, c: int, n: int) -> Result<(ExprM<'a>, int, int), ParseError<'a>>
    decreases ts.len() - c, 0int,
{
    if c < 0 || c >= ts.len() {
        Err(ParseError::PastEnd)
    } else {
        let t = ts[c];
        let tt = t.token_type;
        if tt == TokenType::StringLiteral {
            Ok((node(ExprKindM::StringLiteral { debug: t, val: spec_trim_quotes(t.lexeme@) }, n), c + 1, n + 1))
        } else if tt == TokenType::IntegerLiteral {
            match spec_parse_i32(t.lexeme@) {
                Some(v) => Ok((node(ExprKindM::IntLiteral { debug: t, val: v }, n), c + 1, n + 1)),
                None => Err(ParseError::BadLiteral(t)),
            }
        } else if tt == TokenType::FloatLiteral {
            Ok((node(ExprKindM::FloatLiteral { debug: t }, n), c + 1, n + 1))
        } else if tt == TokenType::KwTrue || tt == TokenType::KwFalse {
            match spec_parse_bool(t.lexeme@) {
                Some(b) => Ok((node(ExprKindM::BoolLiteral { debug: t, val: b }, n), c + 1, n + 1)),
                None => Err(ParseError::BadLiteral(t)),
            }
        } else if tt == TokenType::Lparen {
            match p_expression(ts, c + 1, n) {
                Err(e) => Err(e),
                Ok((inner, c2, n2)) => match p_eat(ts, c2, TokenType::Rparen) {
                    Err(e) => Err(e),
                    Ok(c3) => Ok((node(ExprKindM::Group(Box::new(inner)), n2), c3, n2 + 1)),
                },
            }
        } else if tt == TokenType::Identifier {
            Ok((node(ExprKindM::Identifier(t), n), c + 1, n + 1))
        } else {
            Err(ParseError::UnexpectedPrimary(t))
        }
    }
}

/// `!` followed by an operand, or a primary expression.
pub open spec fn p_unary<'a>(ts: Seq<Token<'a>>, c: int, n: int) -> Result<(ExprM<'a>, int, int), ParseError<'a>>
    decreases ts.len() - c, 1int,
{
    if c < 0 || c >= ts.len() {
        Err(ParseError::NoTokensLeft)
    } else if ts[c].token_type == TokenType::OpExclaim {
        match p_expr_bp(ts, c + 1, n, 15) {
            Err(e) => Err(e),
            Ok((val, c2, n2)) => Ok((node(ExprKindM::UnaryOp { op: ts[c], val: Box::new(val) }, n2), c2, n2 + 1)),
        }
    } else {
        p_primary(ts, c, n)
    }
}

/// An expression whose operators bind at least as tightly as `min_bp`.
pub open spec fn p_expr_bp<'a>(ts: Seq<Token<'a>>, c: int, n: int, min_bp: u8) -> Result<(ExprM<'a>, int, int), ParseError<'a>>
    decreases ts.len() - c, 2int,
{
    match p_unary(ts, c, n) {
        Err(e) => Err(e),
        Ok((lhs, c1, n1)) => if c1 <= c || c1 > ts.len() {
            Err(ParseError::NoTokensLeft)
        } else {
            p_operators(ts, c1, n1, min_bp, lhs)
        },
    }
}

/// The postfix and infix operators after `lhs`, read while they bind at
/// least as tightly as `min_bp`.
pub open spec fn p_operators<'a>(ts: Seq<Token<'a>>, c: int, n: int, min_bp: u8, lhs: ExprM<'a>) -> Result<(ExprM<'a>, int, int), ParseError<'a>>
    decreases ts.len() - c, 6int,
{
    if c < 0 || c >= ts.len() {
        Ok((lhs, c, n))
    } else {
        let tt = ts[c].token_type;
        match spec_postfix_bp(tt) {
            Some(l_bp) => if l_bp < min_bp {
                Ok((lhs, c, n))
            } else if tt == TokenType::Lparen {
                match p_call_arguments(ts, c + 1, n) {
                    Err(e) => Err(e),
                    Ok((args, c2, n2)) => if c2 <= c || c2 > ts.len() {
                        Err(ParseError::NoTokensLeft)
                    } else {
                        p_operators(ts, c2, n2 + 1, min_bp, node(ExprKindM::Call { identifier: Box::new(lhs), arguments: args }, n2))
                    },
                }
            } else {
                match p_expression(ts, c + 1, n) {
                    Err(e) => Err(e),
                    Ok((arg, c2, n2)) => match p_eat(ts, c2, TokenType::Rbracket) {
                        Err(e) => Err(e),
                        Ok(c3) => if c3 <= c {
                            Err(ParseError::NoTokensLeft)
                        } else {
                            p_operators(ts, c3, n2 + 1, min_bp, node(ExprKindM::Index { identifier: Box::new(lhs), argument: Box::new(arg) }, n2))
                        },
                    },
                }
            },
            None => match spec_infix_bp(tt) {
                None => Ok((lhs, c, n)),
                Some((l_bp, r_bp)) => if l_bp < min_bp {
                    Ok((lhs, c, n))
                } else {
                    match p_expr_bp(ts, c + 1, n, r_bp) {
                        Err(e) => Err(e),
                        Ok((rhs, c2, n2)) => if c2 <= c || c2 > ts.len() {
                            Err(ParseError::NoTokensLeft)
                        } else {
                            p_operators(ts, c2, n2 + 1, min_bp, node(ExprKindM::BinaryOp { l: Box::new(lhs), op: ts[c], r: Box::new(rhs) }, n2))
                        },
                    }
                },
            },
        }
    }
}

/// A whole expression.
pub open spec fn p_expression<'a>(ts: Seq<Token<'a>>, c: int, n: int) -> Result<(ExprM<'a>, int, int), ParseError<'a>>
    decreases ts.len() - c, 3int,
{
    p_expr_bp(ts, c, n, 0)
}

/// The arguments of a call after its `(`, up to and with its `)`.
pub open spec fn p_call_arguments<'a>(ts: Seq<Token<'a>>, c: int, n: int) -> Result<(Seq<ExprM<'a>>, int, int), ParseError<'a>>
    decreases ts.len() - c, 5int,
{
    p_arguments_from(ts, c, n, Seq::empty())
}

/// More arguments after `args`, each followed by `,` or the closing `)`.
pub open spec fn p_arguments_from<'a>(ts: Seq<Token<'a>>, c: int, n: int, args: Seq<ExprM<'a>>) -> Result<(Seq<ExprM<'a>>, int, int), ParseError<'a>>
    decreases ts.len() - c, 4int,
{
    match p_expression(ts, c, n) {
        Err(e) => Err(e),
        Ok((a, c1, n1)) => {
            let args2 = args.push(a);
            if p_at(ts, c1, TokenType::Rparen) {
                Ok((args2, c1 + 1, n1))
            } else {
                match p_eat(ts, c1, TokenType::Comma) {
                    Err(e) => Err(e),
                    Ok(c2) => if c2 <= c {
                        Err(ParseError::NoTokensLeft)
                    } else {
                        p_arguments_from(ts, c2, n1, args2)
                    },
                }
            }
        },
    }
}

pub open spec fn dnode<'a>(kind: DeclKindM<'a>, n: int) -> DeclM<'a> {
    DeclM { kind, id: TypeID(n as usize) }
}

pub open spec fn snode<'a>(kind: StmtKindM<'a>, n: int) -> StmtM<'a> {
    StmtM { kind, id: TypeID(n as usize) }
}

/// A type keyword at `c`, if there is one.
pub open spec fn p_type_keyword<'a>(ts: Seq<Token<'a>>, c: int) -> Option<Token<'a>> {
    if 0 <= c < ts.len() && is_type_keyword(ts[c].token_type) {
        Some(ts[c])
    } else {
        None
    }
}

/// Binding power of the declarator suffixes: `[..]` and `(..)`.
pub open spec fn spec_suffix_bp(tok: TokenType) -> Option<u8> {
    if tok == TokenType::Lbracket {
        Some(15)
    } else if tok == TokenType::Lparen {
        Some(17)
    } else {
        None
    }
}

pub open spec fn p_declarator<'a>(ts: Seq<Token<'a>>, c: int, n: int) -> Result<(DeclM<'a>, int, int), ParseError<'a>>
    decreases ts.len() - c, 1int,
{
    p_direct_declarator(ts, c, n, 0)
}

/// A name, `*` and a declarator, or a parenthesized declarator, then its
/// suffixes.
pub open spec fn p_direct_declarator<'a>(ts: Seq<Token<'a>>, c: int, n: int, min_bp: u8) -> Result<(DeclM<'a>, int, int), ParseError<'a>>
    decreases ts.len() - c, 0int,
{
    if c < 0 || c >= ts.len() {
        Err(ParseError::NoTokensLeft)
    } else {
        let t = ts[c];
        let first: Result<(DeclM<'a>, int, int), ParseError<'a>> = if t.token_type == TokenType::Identifier {
            Ok((dnode(DeclKindM::Identifier(t), n), c + 1, n + 1))
        } else if t.token_type == TokenType::OpStar {
            match p_declarator(ts, c + 1, n) {
                Err(e) => Err(e),
                Ok((inner, c1, n1)) => Ok((dnode(DeclKindM::Pointer(Box::new(inner)), n1), c1, n1 + 1)),
            }
        } else if t.token_type == TokenType::Lparen {
            match p_declarator(ts, c + 1, n) {
                Err(e) => Err(e),
                Ok((inner, c1, n1)) => match p_eat(ts, c1, TokenType::Rparen) {
                    Err(e) => Err(e),
                    Ok(c2) => Ok((dnode(DeclKindM::Group(Box::new(inner)), n1), c2, n1 + 1)),
                },
            }
        } else {
            Err(ParseError::NotADeclarator(t))
        };
        match first {
            Err(e) => Err(e),
            Ok((lhs, c1, n1)) => if c1 <= c || c1 > ts.len() {
                Err(ParseError::NoTokensLeft)
            } else {
                p_suffixes(ts, c1, n1, min_bp, lhs)
            },
        }
    }
}

/// The `[size]` and `(parameters)` suffixes after `lhs`.
pub open spec fn p_suffixes<'a>(ts: Seq<Token<'a>>, c: int, n: int, min_bp: u8, lhs: DeclM<'a>) -> Result<(DeclM<'a>, int, int), ParseError<'a>>
    decreases ts.len() - c, 5int,
{
    if c < 0 || c >= ts.len() {
        Ok((lhs, c, n))
    } else {
        let tt = ts[c].token_type;
        match spec_suffix_bp(tt) {
            None => Ok((lhs, c, n)),
            Some(l_bp) => if l_bp < min_bp {
                Ok((lhs, c, n))
            } else if tt == TokenType::Lbracket {
                let c1 = c + 1;
                let size: Result<(Option<Token<'a>>, int), ParseError<'a>> = if c1 >= ts.len() {
                    Err(ParseError::PastEnd)
                } else if ts[c1].token_type == TokenType::Rbracket {
                    Ok((None, c1))
                } else {
                    Ok((Some(ts[c1]), c1 + 1))
                };
                match size {
                    Err(e) => Err(e),
                    Ok((constant, c2)) => match p_eat(ts, c2, TokenType::Rbracket) {
                        Err(e) => Err(e),
                        Ok(c3) => p_suffixes(ts, c3, n + 1, min_bp, dnode(DeclKindM::Array { decl: Box::new(lhs), constant }, n)),
                    },
                }
            } else {
                let c1 = c + 1;
                let ps: Result<(Seq<ParamM<'a>>, int, int), ParseError<'a>> = if p_at(ts, c1, TokenType::Rparen) {
                    Ok((Seq::empty(), c1, n))
                } else {
                    p_parameters(ts, c1, n)
                };
                match ps {
                    Err(e) => Err(e),
                    Ok((params, c2, n2)) => match p_eat(ts, c2, TokenType::Rparen) {
                        Err(e) => Err(e),
                        Ok(c3) => if c3 <= c {
                            Err(ParseError::NoTokensLeft)
                        } else {
                            p_suffixes(ts, c3, n2 + 1, min_bp, dnode(DeclKindM::Function { decl: Box::new(lhs), params }, n2))
                        },
                    },
                }
            },
        }
    }
}

/// Parameter declarations separated by `,`, up to the first token that
/// cannot start one or a `)`.
pub open spec fn p_parameters<'a>(ts: Seq<Token<'a>>, c: int, n: int) -> Result<(Seq<ParamM<'a>>, int, int), ParseError<'a>>
    decreases ts.len() - c, 2int,
{
    p_parameters_from(ts, c, n, Seq::empty())
}

pub open spec fn p_parameters_from<'a>(ts: Seq<Token<'a>>, c: int, n: int, ps: Seq<ParamM<'a>>) -> Result<(Seq<ParamM<'a>>, int, int), ParseError<'a>>
    decreases ts.len() - c, 1int,
{
    match p_parameter(ts, c, n) {
        Err(e) => Err(e),
        Ok((None, _, _)) => Ok((ps, c, n)),
        Ok((Some(p), c1, n1)) => {
            let ps2 = ps.push(p);
            if p_at(ts, c1, TokenType::Rparen) {
                Ok((ps2, c1, n1))
            } else {
                match p_eat(ts, c1, TokenType::Comma) {
                    Err(e) => Err(e),
                    Ok(c2) => if c2 <= c {
                        Err(ParseError::NoTokensLeft)
                    } else {
                        p_parameters_from(ts, c2, n1, ps2)
                    },
                }
            }
        },
    }
}

/// A type keyword, then an optional declarator with an optional
/// `= initializer`; nothing when no type keyword comes.
pub open spec fn p_parameter<'a>(ts: Seq<Token<'a>>, c: int, n: int) -> Result<(Option<ParamM<'a>>, int, int), ParseError<'a>>
    decreases ts.len() - c, 0int,
{
    match p_type_keyword(ts, c) {
        None => Ok((None, c, n)),
        Some(type_spec) => {
            let c1 = c + 1;
            if p_at(ts, c1, TokenType::Comma) || p_at(ts, c1, TokenType::Rparen) {
                Ok((Some(ParamM { type_spec, decl: None, init: None, id: TypeID(n as usize) }), c1, n + 1))
            } else {
                match p_declarator(ts, c1, n) {
                    Err(e) => Err(e),
                    Ok((d, c2, n2)) => if p_at(ts, c2, TokenType::OpEqual) {
                        match p_expression(ts, c2 + 1, n2) {
                            Err(e) => Err(e),
                            Ok((init, c3, n3)) => Ok((Some(ParamM { type_spec, decl: Some(d), init: Some(init), id: TypeID(n3 as usize) }), c3, n3 + 1)),
                        }
                    } else {
                        Ok((Some(ParamM { type_spec, decl: Some(d), init: None, id: TypeID(n2 as usize) }), c2, n2 + 1))
                    },
                }
            }
        },
    }
}

/// A local variable declaration, when a type keyword comes next.
pub open spec fn p_declaration<'a>(ts: Seq<Token<'a>>, c: int, n: int) -> Result<(Option<StmtM<'a>>, int, int), ParseError<'a>> {
    match p_type_keyword(ts, c) {
        None => Ok((None, c, n)),
        Some(type_spec) => match p_declarator(ts, c + 1, n) {
            Err(e) => Err(e),
            Ok((d, c2, n2)) => {
                let init: Result<(Option<ExprM<'a>>, int, int), ParseError<'a>> = if p_at(ts, c2, TokenType::OpEqual) {
                    match p_expression(ts, c2 + 1, n2) {
                        Err(e) => Err(e),
                        Ok((e, c3, n3)) => Ok((Some(e), c3, n3)),
                    }
                } else {
                    Ok((None, c2, n2))
                };
                match init {
                    Err(e) => Err(e),
                    Ok((init, c3, n3)) => match p_eat(ts, c3, TokenType::Semicolon) {
                        Err(e) => Err(e),
                        Ok(c4) => Ok((Some(snode(StmtKindM::VarDecl { type_spec, decl: d, init }, n3)), c4, n3 + 1)),
                    },
                }
            },
        },
    }
}

/// An expression followed by `;`.
pub open spec fn p_expression_statement<'a>(ts: Seq<Token<'a>>, c: int, n: int) -> Result<(StmtM<'a>, int, int), ParseError<'a>> {
    match p_expression(ts, c, n) {
        Err(e) => Err(e),
        Ok((e, c1, n1)) => match p_eat(ts, c1, TokenType::Semicolon) {
            Err(err) => Err(err),
            Ok(c2) => Ok((snode(StmtKindM::Expression(e), n1), c2, n1 + 1)),
        },
    }
}

/// `if`, a block, `return`, or an expression statement.
pub open spec fn p_statement<'a>(ts: Seq<Token<'a>>, c: int, n: int) -> Result<(StmtM<'a>, int, int), ParseError<'a>>
    decreases ts.len() - c, 1int,
{
    if c < 0 || c >= ts.len() {
        Err(ParseError::NoTokensLeft)
    } else {
        let tt = ts[c].token_type;
        if tt == TokenType::KwIf {
            p_selection(ts, c, n)
        } else if tt == TokenType::Lbrace {
            p_compound(ts, c, n)
        } else if tt == TokenType::KwReturn {
            let debug = ts[c];
            let c1 = c + 1;
            if p_at(ts, c1, TokenType::Semicolon) {
                Ok((snode(StmtKindM::Return { debug, expr: None }, n), c1 + 1, n + 1))
            } else {
                match p_expression(ts, c1, n) {
                    Err(e) => Err(e),
                    Ok((e, c2, n2)) => match p_eat(ts, c2, TokenType::Semicolon) {
                        Err(err) => Err(err),
                        Ok(c3) => Ok((snode(StmtKindM::Return { debug, expr: Some(e) }, n2), c3, n2 + 1)),
                    },
                }
            }
        } else {
            p_expression_statement(ts, c, n)
        }
    }
}

/// `{`, declarations and statements, `}`.
pub open spec fn p_compound<'a>(ts: Seq<Token<'a>>, c: int, n: int) -> Result<(StmtM<'a>, int, int), ParseError<'a>>
    decreases ts.len() - c, 0int,
{
    match p_eat(ts, c, TokenType::Lbrace) {
        Err(e) => Err(e),
        Ok(c1) => match p_block_items(ts, c1, n, Seq::empty()) {
            Err(e) => Err(e),
            Ok((ss, c2, n2)) => match p_eat(ts, c2, TokenType::Rbrace) {
                Err(e) => Err(e),
                Ok(c3) => Ok((snode(StmtKindM::Compound(ss), n2), c3, n2 + 1)),
            },
        },
    }
}

/// The declarations and statements of a block after `ss`, up to its `}`
/// or the end of the tokens.
pub open spec fn p_block_items<'a>(ts: Seq<Token<'a>>, c: int, n: int, ss: Seq<StmtM<'a>>) -> Result<(Seq<StmtM<'a>>, int, int), ParseError<'a>>
    decreases ts.len() - c, 2int,
{
    if c < 0 || c >= ts.len() || ts[c].token_type == TokenType::Rbrace {
        Ok((ss, c, n))
    } else {
        let item: Result<(StmtM<'a>, int, int), ParseError<'a>> = match p_declaration(ts, c, n) {
            Err(e) => Err(e),
            Ok((Some(s), c1, n1)) => Ok((s, c1, n1)),
            Ok((None, _, _)) => p_statement(ts, c, n),
        };
        match item {
            Err(e) => Err(e),
            Ok((s, c1, n1)) => if c1 <= c || c1 > ts.len() {
                Err(ParseError::NoTokensLeft)
            } else {
                p_block_items(ts, c1, n1, ss.push(s))
            },
        }
    }
}

/// `if ( cond ) stmt`, with an optional `else stmt`.
pub open spec fn p_selection<'a>(ts: Seq<Token<'a>>, c: int, n: int) -> Result<(StmtM<'a>, int, int), ParseError<'a>>
    decreases ts.len() - c, 0int,
{
    match p_eat(ts, c, TokenType::KwIf) {
        Err(e) => Err(e),
        Ok(c1) => match p_eat(ts, c1, TokenType::Lparen) {
            Err(e) => Err(e),
            Ok(c2) => match p_expression(ts, c2, n) {
                Err(e) => Err(e),
                Ok((cond, c3, n3)) => match p_eat(ts, c3, TokenType::Rparen) {
                    Err(e) => Err(e),
                    Ok(c4) => if c4 <= c {
                        Err(ParseError::NoTokensLeft)
                    } else {
                        match p_statement(ts, c4, n3) {
                            Err(e) => Err(e),
                            Ok((st, c5, n5)) => if p_at(ts, c5, TokenType::KwElse) {
                                if c5 + 1 <= c {
                                    Err(ParseError::NoTokensLeft)
                                } else {
                                    match p_statement(ts, c5 + 1, n5) {
                                        Err(e) => Err(e),
                                        Ok((o, c6, n6)) => Ok((snode(StmtKindM::If { debug: ts[c], cond, stmt: Box::new(st), otherwise: Some(Box::new(o)) }, n6), c6, n6 + 1)),
                                    }
                                }
                            } else {
                                Ok((snode(StmtKindM::If { debug: ts[c], cond, stmt: Box::new(st), otherwise: None }, n5), c5, n5 + 1))
                            },
                        }
                    },
                },
            },
        },
    }
}

/// The parameter list of a top-level function, if one comes: whether it
/// did, and the parameters.
pub open spec fn p_top_parameters<'a>(ts: Seq<Token<'a>>, c: int, n: int) -> Result<(bool, Seq<ParamM<'a>>, int, int), ParseError<'a>> {
    if p_at(ts, c, TokenType::Lparen) {
        match p_parameters(ts, c + 1, n) {
            Err(e) => Err(e),
            Ok((ps, c3, n3)) => match p_eat(ts, c3, TokenType::Rparen) {
                Err(e) => Err(e),
                Ok(c4) => Ok((true, ps, c4, n3)),
            },
        }
    } else {
        Ok((false, Seq::empty(), c, n))
    }
}

/// One top-level declaration: a type token and a name, then a parameter
/// list, an initializer, a `;` or a body; nothing at the end of the tokens.
pub open spec fn p_top_level<'a>(ts: Seq<Token<'a>>, c: int, n: int) -> Result<(Option<TopM<'a>>, int, int), ParseError<'a>> {
    if c < 0 || c >= ts.len() {
        Ok((None, c, n))
    } else if c + 1 >= ts.len() {
        Err(ParseError::PastEnd)
    } else {
        let type_spec = ts[c];
        let decl = dnode(DeclKindM::Identifier(ts[c + 1]), n);
        let c2 = c + 2;
        let n1 = n + 1;
        match p_top_parameters(ts, c2, n1) {
            Err(e) => Err(e),
            Ok((is_fun, params, c5, n5)) => if !is_fun && p_at(ts, c5, TokenType::OpEqual) {
                match p_expression(ts, c5 + 1, n5) {
                    Err(e) => Err(e),
                    Ok((init, c6, n6)) => match p_eat(ts, c6, TokenType::Semicolon) {
                        Err(e) => Err(e),
                        Ok(c7) => Ok((Some(TopM { kind: TopKindM::GlobalVariable { type_spec, decl, init: Some(init) }, id: TypeID(n6 as usize) }), c7, n6 + 1)),
                    },
                }
            } else if p_at(ts, c5, TokenType::Semicolon) {
                if !is_fun {
                    Ok((Some(TopM { kind: TopKindM::GlobalVariable { type_spec, decl, init: None }, id: TypeID(n5 as usize) }), c5 + 1, n5 + 1))
                } else {
                    Ok((Some(TopM { kind: TopKindM::FunctionDefinition { type_spec, decl, params, body: None }, id: TypeID(n5 as usize) }), c5 + 1, n5 + 1))
                }
            } else {
                match p_compound(ts, c5, n5) {
                    Err(e) => Err(e),
                    Ok((body, c8, n8)) => Ok((Some(TopM { kind: TopKindM::FunctionDefinition { type_spec, decl, params, body: Some(body) }, id: TypeID(n8 as usize) }), c8, n8 + 1)),
                }
            },
        }
    }
}

/// Top-level declarations after `stmts`, to the end of the tokens.
pub open spec fn p_program<'a>(ts: Seq<Token<'a>>, c: int, n: int, stmts: Seq<TopM<'a>>) -> Result<(Seq<TopM<'a>>, int, int), ParseError<'a>>
    decreases ts.len() - c,
{
    match p_top_level(ts, c, n) {
        Err(e) => Err(e),
        Ok((None, c1, n1)) => Ok((stmts, c1, n1)),
        Ok((Some(t), c1, n1)) => if c1 <= c || c1 > ts.len() {
            Err(ParseError::NoTokensLeft)
        } else {
            p_program(ts, c1, n1, stmts.push(t))
        },
    }
}

/// `r` is what the grammar `g` reads, the parser then standing at `cur`
/// with `nid` the next node number.
pub open spec fn expr_outcome<'a>(r: Result<Expr<'a>, ParseError<'a>>, g: Result<(ExprM<'a>, int, int), ParseError<'a>>, cur: int, nid: int) -> bool {
    match r {
        Ok(e) => g == Ok::<(ExprM<'a>, int, int), ParseError<'a>>((expr_m(e), cur, nid)),
        Err(err) => g == Err::<(ExprM<'a>, int, int), ParseError<'a>>(err),
    }
}

pub open spec fn exprs_outcome<'a>(r: Result<Vec<Expr<'a>>, ParseError<'a>>, g: Result<(Seq<ExprM<'a>>, int, int), ParseError<'a>>, cur: int, nid: int) -> bool {
    match r {
        Ok(v) => g == Ok::<(Seq<ExprM<'a>>, int, int), ParseError<'a>>((exprs_m(v@), cur, nid)),
        Err(err) => g == Err::<(Seq<ExprM<'a>>, int, int), ParseError<'a>>(err),
    }
}

pub open spec fn decl_outcome<'a>(r: Result<Decl<'a>, ParseError<'a>>, g: Result<(DeclM<'a>, int, int), ParseError<'a>>, cur: int, nid: int) -> bool {
    match r {
        Ok(d) => g == Ok::<(DeclM<'a>, int, int), ParseError<'a>>((decl_m(d), cur, nid)),
        Err(err) => g == Err::<(DeclM<'a>, int, int), ParseError<'a>>(err),
    }
}

pub open spec fn params_outcome<'a>(r: Result<Vec<Param<'a>>, ParseError<'a>>, g: Result<(Seq<ParamM<'a>>, int, int), ParseError<'a>>, cur: int, nid: int) -> bool {
    match r {
        Ok(v) => g == Ok::<(Seq<ParamM<'a>>, int, int), ParseError<'a>>((params_m(v@), cur, nid)),
        Err(err) => g == Err::<(Seq<ParamM<'a>>, int, int), ParseError<'a>>(err),
    }
}

pub open spec fn param_outcome<'a>(r: Result<Option<Param<'a>>, ParseError<'a>>, g: Result<(Option<ParamM<'a>>, int, int), ParseError<'a>>, cur: int, nid: int) -> bool {
    match r {
        Ok(Some(p)) => g == Ok::<(Option<ParamM<'a>>, int, int), ParseError<'a>>((Some(param_m(p)), cur, nid)),
        Ok(None) => g == Ok::<(Option<ParamM<'a>>, int, int), ParseError<'a>>((None, cur, nid)),
        Err(err) => g == Err::<(Option<ParamM<'a>>, int, int), ParseError<'a>>(err),
    }
}

pub open spec fn stmt_outcome<'a>(r: Result<Stmt<'a>, ParseError<'a>>, g: Result<(StmtM<'a>, int, int), ParseError<'a>>, cur: int, nid: int) -> bool {
    match r {
        Ok(st) => g == Ok::<(StmtM<'a>, int, int), ParseError<'a>>((stmt_m(st), cur, nid)),
        Err(err) => g == Err::<(StmtM<'a>, int, int), ParseError<'a>>(err),
    }
}

pub open spec fn opt_stmt_outcome<'a>(r: Result<Option<Stmt<'a>>, ParseError<'a>>, g: Result<(Option<StmtM<'a>>, int, int), ParseError<'a>>, cur: int, nid: int) -> bool {
    match r {
        Ok(Some(st)) => g == Ok::<(Option<StmtM<'a>>, int, int), ParseError<'a>>((Some(stmt_m(st)), cur, nid)),
        Ok(None) => g == Ok::<(Option<StmtM<'a>>, int, int), ParseError<'a>>((None, cur, nid)),
        Err(err) => g == Err::<(Option<StmtM<'a>>, int, int), ParseError<'a>>(err),
    }
}

pub open spec fn top_outcome<'a>(r: Result<Option<TopLevelStmt<'a>>, ParseError<'a>>, g: Result<(Option<TopM<'a>>, int, int), ParseError<'a>>, cur: int, nid: int) -> bool {
    match r {
        Ok(Some(t)) => g == Ok::<(Option<TopM<'a>>, int, int), ParseError<'a>>((Some(top_m(t)), cur, nid)),
        Ok(None) => g == Ok::<(Option<TopM<'a>>, int, int), ParseError<'a>>((None, cur, nid)),
        Err(err) => g == Err::<(Option<TopM<'a>>, int, int), ParseError<'a>>(err),
    }
}

pub open spec fn program_outcome<'a>(r: Result<Vec<TopLevelStmt<'a>>, ParseError<'a>>, g: Result<(Seq<TopM<'a>>, int, int), ParseError<'a>>, cur: int, nid: int) -> bool {
    match r {
        Ok(v) => g == Ok::<(Seq<TopM<'a>>, int, int), ParseError<'a>>((tops_m(v@), cur, nid)),
        Err(err) => g == Err::<(Seq<TopM<'a>>, int, int), ParseError<'a>>(err),
    }
}

} // verus!
