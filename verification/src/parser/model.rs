//! The syntax tree as a mathematical value: the same tree with sequences in
//! place of vectors. The parser's contracts speak of it.
use vstd::prelude::*;

use crate::lexer::Token;
use crate::parser::ast::{
    Decl, DeclKind, Expr, ExprKind, Param, Stmt, StmtKind, TopLevelStmt, TopLevelStmtKind,
};
use crate::type_checker::annotation::TypeID;

verus! {

#[allow(inconsistent_fields)]
pub enum ExprKindM<'a> {
    IntLiteral { debug: Token<'a>, val: i32 },
    FloatLiteral { debug: Token<'a> },
    BoolLiteral { debug: Token<'a>, val: bool },
    StringLiteral { debug: Token<'a>, val: Seq<char> },
    Identifier(Token<'a>),
    Call { identifier: Box<ExprM<'a>>, arguments: Seq<ExprM<'a>> },
    Index { identifier: Box<ExprM<'a>>, argument: Box<ExprM<'a>> },
    UnaryOp { op: Token<'a>, val: Box<ExprM<'a>> },
    BinaryOp { l: Box<ExprM<'a>>, op: Token<'a>, r: Box<ExprM<'a>> },
    LogicalOp { l: Box<ExprM<'a>>, op: Token<'a>, r: Box<ExprM<'a>> },
    Assignment { l: Box<ExprM<'a>>, op: Token<'a>, r: Box<ExprM<'a>> },
    Group(Box<ExprM<'a>>),
}

pub struct ExprM<'a> {
    pub kind: ExprKindM<'a>,
    pub id: TypeID,
}

pub enum DeclKindM<'a> {
    Group(Box<DeclM<'a>>),
    Pointer(Box<DeclM<'a>>),
    Identifier(Token<'a>),
    Function { decl: Box<DeclM<'a>>, params: Seq<ParamM<'a>> },
    Array { decl: Box<DeclM<'a>>, constant: Option<Token<'a>> },
}

pub struct DeclM<'a> {
    pub kind: DeclKindM<'a>,
    pub id: TypeID,
}

pub struct ParamM<'a> {
    pub type_spec: Token<'a>,
    pub decl: Option<DeclM<'a>>,
    pub init: Option<ExprM<'a>>,
    pub id: TypeID,
}

#[allow(inconsistent_fields)]
pub enum StmtKindM<'a> {
    If {
        debug: Token<'a>,
        cond: ExprM<'a>,
        stmt: Box<StmtM<'a>>,
        otherwise: Option<Box<StmtM<'a>>>,
    },
    While { debug: Token<'a>, cond: ExprM<'a>, body: Box<StmtM<'a>> },
    For {
        debug: Token<'a>,
        decl: Box<StmtM<'a>>,
        cond: ExprM<'a>,
        incr: ExprM<'a>,
        body: Box<StmtM<'a>>,
    },
    Compound(Seq<StmtM<'a>>),
    Return { debug: Token<'a>, expr: Option<ExprM<'a>> },
    Expression(ExprM<'a>),
    VarDecl { type_spec: Token<'a>, decl: DeclM<'a>, init: Option<ExprM<'a>> },
}

pub struct StmtM<'a> {
    pub kind: StmtKindM<'a>,
    pub id: TypeID,
}

pub enum TopKindM<'a> {
    FunctionDefinition {
        type_spec: Token<'a>,
        decl: DeclM<'a>,
        params: Seq<ParamM<'a>>,
        body: Option<StmtM<'a>>,
    },
    GlobalVariable { type_spec: Token<'a>, decl: DeclM<'a>, init: Option<ExprM<'a>> },
}

pub struct TopM<'a> {
    pub kind: TopKindM<'a>,
    pub id: TypeID,
}

pub open spec fn expr_m<'a>(e: Expr<'a>) -> ExprM<'a>
    decreases e,
{
    let kind = match e.kind {
        ExprKind::IntLiteral { debug, val } => ExprKindM::IntLiteral { debug, val },
        ExprKind::FloatLiteral { debug } => ExprKindM::FloatLiteral { debug },
        ExprKind::BoolLiteral { debug, val } => ExprKindM::BoolLiteral { debug, val },
        ExprKind::StringLiteral { debug, val } => ExprKindM::StringLiteral { debug, val: val@ },
        ExprKind::Identifier(t) => ExprKindM::Identifier(t),
        ExprKind::Call { identifier, arguments } => {
            proof {
                vstd::std_specs::vec::axiom_vec_decreases_to_view(arguments);
            }
            ExprKindM::Call {
                identifier: Box::new(expr_m(*identifier)),
                arguments: exprs_m(arguments@),
            }
        },
        ExprKind::Index { identifier, argument } => ExprKindM::Index {
            identifier: Box::new(expr_m(*identifier)),
            argument: Box::new(expr_m(*argument)),
        },
        ExprKind::UnaryOp { op, val } => ExprKindM::UnaryOp { op, val: Box::new(expr_m(*val)) },
        ExprKind::BinaryOp { l, op, r } => ExprKindM::BinaryOp {
            l: Box::new(expr_m(*l)),
            op,
            r: Box::new(expr_m(*r)),
        },
        ExprKind::LogicalOp { l, op, r } => ExprKindM::LogicalOp {
            l: Box::new(expr_m(*l)),
            op,
            r: Box::new(expr_m(*r)),
        },
        ExprKind::Assignment { l, op, r } => ExprKindM::Assignment {
            l: Box::new(expr_m(*l)),
            op,
            r: Box::new(expr_m(*r)),
        },
        ExprKind::Group(g) => ExprKindM::Group(Box::new(expr_m(*g))),
    };
    ExprM { kind, id: e.id }
}

pub open spec fn exprs_m<'a>(s: Seq<Expr<'a>>) -> Seq<ExprM<'a>>
    decreases s,
{
    if s.len() == 0 {
        Seq::empty()
    } else {
        exprs_m(s.drop_last()).push(expr_m(s.last()))
    }
}

pub open spec fn opt_expr_m<'a>(e: Option<Expr<'a>>) -> Option<ExprM<'a>> {
    match e {
        Some(x) => Some(expr_m(x)),
        None => None,
    }
}

pub open spec fn decl_m<'a>(d: Decl<'a>) -> DeclM<'a>
    decreases d,
{
    let kind = match d.kind {
        DeclKind::Group(g) => DeclKindM::Group(Box::new(decl_m(*g))),
        DeclKind::Pointer(g) => DeclKindM::Pointer(Box::new(decl_m(*g))),
        DeclKind::Identifier(t) => DeclKindM::Identifier(t),
        DeclKind::Function { decl, params } => {
            proof {
                vstd::std_specs::vec::axiom_vec_decreases_to_view(params);
            }
            DeclKindM::Function { decl: Box::new(decl_m(*decl)), params: params_m(params@) }
        },
        DeclKind::Array { decl, constant } => DeclKindM::Array {
            decl: Box::new(decl_m(*decl)),
            constant,
        },
    };
    DeclM { kind, id: d.id }
}

pub open spec fn param_m<'a>(p: Param<'a>) -> ParamM<'a>
    decreases p,
{
    ParamM {
        type_spec: p.type_spec,
        decl: match p.decl {
            Some(d) => Some(decl_m(d)),
            None => None,
        },
        init: opt_expr_m(p.init),
        id: p.id,
    }
}

pub open spec fn params_m<'a>(s: Seq<Param<'a>>) -> Seq<ParamM<'a>>
    decreases s,
{
    if s.len() == 0 {
        Seq::empty()
    } else {
        params_m(s.drop_last()).push(param_m(s.last()))
    }
}

pub open spec fn stmt_m<'a>(st: Stmt<'a>) -> StmtM<'a>
    decreases st,
{
    let kind = match st.kind {
        StmtKind::If { debug, cond, stmt, otherwise } => StmtKindM::If {
            debug,
            cond: expr_m(cond),
            stmt: Box::new(stmt_m(*stmt)),
            otherwise: match otherwise {
                Some(o) => Some(Box::new(stmt_m(*o))),
                None => None,
            },
        },
        StmtKind::While { debug, cond, body } => StmtKindM::While {
            debug,
            cond: expr_m(cond),
            body: Box::new(stmt_m(*body)),
        },
        StmtKind::For { debug, decl, cond, incr, body } => StmtKindM::For {
            debug,
            decl: Box::new(stmt_m(*decl)),
            cond: expr_m(cond),
            incr: expr_m(incr),
            body: Box::new(stmt_m(*body)),
        },
        StmtKind::Compound(ss) => {
            proof {
                vstd::std_specs::vec::axiom_vec_decreases_to_view(ss);
            }
            StmtKindM::Compound(stmts_m(ss@))
        },
        StmtKind::Return { debug, expr } => StmtKindM::Return { debug, expr: opt_expr_m(expr) },
        StmtKind::Expression(e) => StmtKindM::Expression(expr_m(e)),
        StmtKind::VarDecl { type_spec, decl, init } => StmtKindM::VarDecl {
            type_spec,
            decl: decl_m(decl),
            init: opt_expr_m(init),
        },
    };
    StmtM { kind, id: st.id }
}

pub open spec fn stmts_m<'a>(s: Seq<Stmt<'a>>) -> Seq<StmtM<'a>>
    decreases s,
{
    if s.len() == 0 {
        Seq::empty()
    } else {
        stmts_m(s.drop_last()).push(stmt_m(s.last()))
    }
}

pub open spec fn top_m<'a>(t: TopLevelStmt<'a>) -> TopM<'a> {
    let kind = match t.kind {
        TopLevelStmtKind::FunctionDefinition { type_spec, decl, params, body } =>
            TopKindM::FunctionDefinition {
            type_spec,
            decl: decl_m(decl),
            params: params_m(params@),
            body: match body {
                Some(b) => Some(stmt_m(b)),
                None => None,
            },
        },
        TopLevelStmtKind::GlobalVariable { type_spec, decl, init } => TopKindM::GlobalVariable {
            type_spec,
            decl: decl_m(decl),
            init: opt_expr_m(init),
        },
    };
    TopM { kind, id: t.id }
}

pub open spec fn tops_m<'a>(s: Seq<TopLevelStmt<'a>>) -> Seq<TopM<'a>>
    decreases s.len(),
{
    if s.len() == 0 {
        Seq::empty()
    } else {
        tops_m(s.drop_last()).push(top_m(s.last()))
    }
}

pub proof fn lemma_exprs_m_push<'a>(s: Seq<Expr<'a>>, e: Expr<'a>)
    ensures
        exprs_m(s.push(e)) == exprs_m(s).push(expr_m(e)),
{
    assert(s.push(e).drop_last() =~= s);
}

pub proof fn lemma_params_m_push<'a>(s: Seq<Param<'a>>, p: Param<'a>)
    ensures
        params_m(s.push(p)) == params_m(s).push(param_m(p)),
{
    assert(s.push(p).drop_last() =~= s);
}

pub proof fn lemma_stmts_m_push<'a>(s: Seq<Stmt<'a>>, st: Stmt<'a>)
    ensures
        stmts_m(s.push(st)) == stmts_m(s).push(stmt_m(st)),
{
    assert(s.push(st).drop_last() =~= s);
}

pub proof fn lemma_tops_m_push<'a>(s: Seq<TopLevelStmt<'a>>, t: TopLevelStmt<'a>)
    ensures
        tops_m(s.push(t)) == tops_m(s).push(top_m(t)),
{
    assert(s.push(t).drop_last() =~= s);
}

} // verus!
