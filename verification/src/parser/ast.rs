//! The syntax tree the parser builds. Every node carries the `TypeID` the
//! parser gave it.
use vstd::prelude::*;

use crate::lexer::{Token, TokenType};
use crate::type_checker::annotation::TypeID;

verus! {

#[derive(Debug)]
pub enum DeclKind<'a> {
    Group(Box<Decl<'a>>),
    Pointer(Box<Decl<'a>>),
    Identifier(Token<'a>),
    Function { decl: Box<Decl<'a>>, params: Vec<Param<'a>> },
    Array { decl: Box<Decl<'a>>, constant: Option<Token<'a>> },
}

/// Expressions. A float literal keeps only its token: its value is the
/// text of the token.
#[derive(Debug)]
#[allow(inconsistent_fields)]
pub enum ExprKind<'a> {
    IntLiteral { debug: Token<'a>, val: i32 },
    FloatLiteral { debug: Token<'a> },
    BoolLiteral { debug: Token<'a>, val: bool },
    StringLiteral { debug: Token<'a>, val: &'a str },
    Identifier(Token<'a>),
    Call { identifier: Box<Expr<'a>>, arguments: Vec<Expr<'a>> },
    Index { identifier: Box<Expr<'a>>, argument: Box<Expr<'a>> },
    UnaryOp { op: Token<'a>, val: Box<Expr<'a>> },
    BinaryOp { l: Box<Expr<'a>>, op: Token<'a>, r: Box<Expr<'a>> },
    LogicalOp { l: Box<Expr<'a>>, op: Token<'a>, r: Box<Expr<'a>> },
    Assignment { l: Box<Expr<'a>>, op: Token<'a>, r: Box<Expr<'a>> },
    Group(Box<Expr<'a>>),
}

#[derive(Debug)]
#[allow(inconsistent_fields)]
pub enum StmtKind<'a> {
    If { debug: Token<'a>, cond: Expr<'a>, stmt: Box<Stmt<'a>>, otherwise: Option<Box<Stmt<'a>>> },
    While { debug: Token<'a>, cond: Expr<'a>, body: Box<Stmt<'a>> },
    For {
        debug: Token<'a>,
        decl: Box<Stmt<'a>>,
        cond: Expr<'a>,
        incr: Expr<'a>,
        body: Box<Stmt<'a>>,
    },
    Compound(Vec<Stmt<'a>>),
    Return { debug: Token<'a>, expr: Option<Expr<'a>> },
    Expression(Expr<'a>),
    VarDecl { type_spec: Token<'a>, decl: Decl<'a>, init: Option<Expr<'a>> },
}

#[derive(Debug)]
pub enum TopLevelStmtKind<'a> {
    FunctionDefinition {
        type_spec: Token<'a>,
        decl: Decl<'a>,
        params: Vec<Param<'a>>,
        body: Option<Stmt<'a>>,
    },
    GlobalVariable { type_spec: Token<'a>, decl: Decl<'a>, init: Option<Expr<'a>> },
}

#[derive(Debug)]
pub struct TopLevelStmt<'a> {
    pub kind: TopLevelStmtKind<'a>,
    pub id: TypeID,
}

#[derive(Debug)]
pub struct Stmt<'a> {
    pub kind: StmtKind<'a>,
    pub id: TypeID,
}

#[derive(Debug)]
pub struct Expr<'a> {
    pub kind: ExprKind<'a>,
    pub id: TypeID,
}

#[derive(Debug)]
pub struct Decl<'a> {
    pub kind: DeclKind<'a>,
    pub id: TypeID,
}

#[derive(Debug)]
pub struct Param<'a> {
    pub type_spec: Token<'a>,
    pub decl: Option<Decl<'a>>,
    pub init: Option<Expr<'a>>,
    pub id: TypeID,
}

} // verus!

verus! {

/// The token types a parsed expression stands for, in source order, with
/// the commas that separate call arguments left out.
pub open spec fn expr_yield(e: Expr) -> Seq<TokenType>
    decreases e,
{
    match e.kind {
        ExprKind::IntLiteral { debug, .. } => seq![debug.token_type],
        ExprKind::FloatLiteral { debug } => seq![debug.token_type],
        ExprKind::BoolLiteral { debug, .. } => seq![debug.token_type],
        ExprKind::StringLiteral { debug, .. } => seq![debug.token_type],
        ExprKind::Identifier(t) => seq![t.token_type],
        ExprKind::Call { identifier, arguments } => {
            proof {
                vstd::std_specs::vec::axiom_vec_decreases_to_view(arguments);
            }
            expr_yield(*identifier) + seq![TokenType::Lparen] + exprs_yield(arguments@) + seq![
                TokenType::Rparen,
            ]
        },
        ExprKind::Index { identifier, argument } => expr_yield(*identifier) + seq![
            TokenType::Lbracket,
        ] + expr_yield(*argument) + seq![TokenType::Rbracket],
        ExprKind::UnaryOp { op, val } => seq![op.token_type] + expr_yield(*val),
        ExprKind::BinaryOp { l, op, r } => expr_yield(*l) + seq![op.token_type] + expr_yield(*r),
        ExprKind::LogicalOp { l, op, r } => expr_yield(*l) + seq![op.token_type] + expr_yield(*r),
        ExprKind::Assignment { l, op, r } => expr_yield(*l) + seq![op.token_type] + expr_yield(*r),
        ExprKind::Group(g) => seq![TokenType::Lparen] + expr_yield(*g) + seq![TokenType::Rparen],
    }
}

/// The yields of a list of expressions, one after the other.
pub open spec fn exprs_yield(s: Seq<Expr>) -> Seq<TokenType>
    decreases s,
{
    if s.len() == 0 {
        seq![]
    } else {
        exprs_yield(s.drop_last()) + expr_yield(s.last())
    }
}

} // verus!

verus! {

/// The token type of a single token, or nothing for a comma.
pub open spec fn tok_yield(t: Token) -> Seq<TokenType> {
    if t.token_type == TokenType::Comma {
        seq![]
    } else {
        seq![t.token_type]
    }
}

/// `= init` of a declaration, if there is one.
pub open spec fn init_yield(init: Option<Expr>) -> Seq<TokenType> {
    match init {
        Some(e) => seq![TokenType::OpEqual] + expr_yield(e),
        None => seq![],
    }
}

/// The token types a declarator stands for, commas left out.
pub open spec fn decl_yield(d: Decl) -> Seq<TokenType>
    decreases d,
{
    match d.kind {
        DeclKind::Group(g) => seq![TokenType::Lparen] + decl_yield(*g) + seq![TokenType::Rparen],
        DeclKind::Pointer(p) => seq![TokenType::OpStar] + decl_yield(*p),
        DeclKind::Identifier(t) => tok_yield(t),
        DeclKind::Function { decl, params } => {
            proof {
                vstd::std_specs::vec::axiom_vec_decreases_to_view(params);
            }
            decl_yield(*decl) + seq![TokenType::Lparen] + params_yield(params@) + seq![
                TokenType::Rparen,
            ]
        },
        DeclKind::Array { decl, constant } => decl_yield(*decl) + seq![TokenType::Lbracket] + (
        match constant {
            Some(c) => tok_yield(c),
            None => seq![],
        }) + seq![TokenType::Rbracket],
    }
}

/// The token types a parameter stands for.
pub open spec fn param_yield(p: Param) -> Seq<TokenType>
    decreases p,
{
    seq![p.type_spec.token_type] + (match p.decl {
        Some(d) => decl_yield(d),
        None => seq![],
    }) + init_yield(p.init)
}

/// The yields of a parameter list, commas left out.
pub open spec fn params_yield(s: Seq<Param>) -> Seq<TokenType>
    decreases s,
{
    if s.len() == 0 {
        seq![]
    } else {
        params_yield(s.drop_last()) + param_yield(s.last())
    }
}

/// The token types a statement stands for, commas left out.
pub open spec fn stmt_yield(s: Stmt) -> Seq<TokenType>
    decreases s,
{
    match s.kind {
        StmtKind::If { cond, stmt, otherwise, .. } => seq![TokenType::KwIf, TokenType::Lparen]
            + expr_yield(cond) + seq![TokenType::Rparen] + stmt_yield(*stmt) + (match otherwise {
            Some(o) => seq![TokenType::KwElse] + stmt_yield(*o),
            None => seq![],
        }),
        StmtKind::While { cond, body, .. } => seq![TokenType::KwWhile, TokenType::Lparen]
            + expr_yield(cond) + seq![TokenType::Rparen] + stmt_yield(*body),
        StmtKind::For { decl, cond, incr, body, .. } => seq![TokenType::KwFor, TokenType::Lparen]
            + stmt_yield(*decl) + expr_yield(cond) + seq![TokenType::Semicolon] + expr_yield(incr)
            + seq![TokenType::Rparen] + stmt_yield(*body),
        StmtKind::Compound(ss) => {
            proof {
                vstd::std_specs::vec::axiom_vec_decreases_to_view(ss);
            }
            seq![TokenType::Lbrace] + stmts_yield(ss@) + seq![TokenType::Rbrace]
        },
        StmtKind::Return { expr, .. } => seq![TokenType::KwReturn] + (match expr {
            Some(e) => expr_yield(e),
            None => seq![],
        }) + seq![TokenType::Semicolon],
        StmtKind::Expression(e) => expr_yield(e) + seq![TokenType::Semicolon],
        StmtKind::VarDecl { type_spec, decl, init } => seq![type_spec.token_type] + decl_yield(decl)
            + init_yield(init) + seq![TokenType::Semicolon],
    }
}

/// The yields of a statement list, one after the other.
pub open spec fn stmts_yield(s: Seq<Stmt>) -> Seq<TokenType>
    decreases s,
{
    if s.len() == 0 {
        seq![]
    } else {
        stmts_yield(s.drop_last()) + stmt_yield(s.last())
    }
}

/// Whether `toks` (commas left out) is a source of the top-level statement
/// `t`. A function definition with no parameters may be written without
/// its parentheses.
pub open spec fn top_yields(t: TopLevelStmt, toks: Seq<TokenType>) -> bool {
    match t.kind {
        TopLevelStmtKind::FunctionDefinition { type_spec, decl, params, body } => {
            let head = tok_yield(type_spec) + decl_yield(decl);
            let tail = match body {
                Some(b) => stmt_yield(b),
                None => seq![TokenType::Semicolon],
            };
            ||| toks == head + seq![TokenType::Lparen] + params_yield(params@) + seq![
                TokenType::Rparen,
            ] + tail
            ||| params@.len() == 0 && body is Some && toks == head + tail
        },
        TopLevelStmtKind::GlobalVariable { type_spec, decl, init } => toks == tok_yield(type_spec)
            + decl_yield(decl) + init_yield(init) + seq![TokenType::Semicolon],
    }
}

} // verus!
