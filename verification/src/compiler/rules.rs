//! What compiling each part of the syntax tree appends to the chunk.
use vstd::prelude::*;

use crate::compiler::chunk::{
    name_index, ChunkModel, FunctionModel, Instruction, OpCode, ValueModel, VariableModel,
    MAX_INSTRUCTIONS,
};
use crate::lexer::{Token, TokenType};
use crate::parser::ast::{Decl, DeclKind, Expr, ExprKind, Param, Stmt, StmtKind, TopLevelStmt, TopLevelStmtKind};
use crate::type_checker::annotation::{PrimaryEnum, TypeID, TypeModel};

verus! {

/// Why compiling stopped.
#[derive(Debug, Clone, Copy, PartialEq, Eq, Structural)]
pub enum CompileError {
    /// No type is recorded for this binary operation node.
    MissingType(TypeID),
    /// The type recorded for this binary operation node is not primary.
    NotPrimary(TypeID),
    /// A binary operator the instruction set has no instruction for, at
    /// this operand type.
    UnsupportedBinary(TokenType, PrimaryEnum),
    /// A unary operator other than `!`.
    UnsupportedUnary(TokenType),
    /// A logical operator other than `&&` and `||`.
    UnsupportedLogical(TokenType),
    /// An assignment operator other than `=`.
    UnsupportedAssignment(TokenType),
    /// The target of an assignment is not a name.
    InvalidTarget,
    /// The target of an assignment is a name nothing declares.
    UnknownName,
    /// The target of an assignment was declared deeper than a name table
    /// entry can record.
    DepthTooLarge,
    /// A name table index past the end of the table.
    BadName(u16),
    /// A function definition without a body.
    MissingBody,
    /// Scopes nested deeper than the depth counter can count.
    TooDeep,
}

/// What the compiler knows: the chunk being filled, the scope depth, and
/// the checker's results it reads.
pub struct CompileState {
    pub chunk: ChunkModel,
    pub depth: u16,
    pub types: Map<usize, TypeModel>,
    pub vars: Map<Seq<char>, (TypeID, usize)>,
}

impl CompileState {
    pub open spec fn with_chunk(self, chunk: ChunkModel) -> Self {
        CompileState { chunk, ..self }
    }

    pub open spec fn with_depth(self, depth: u16) -> Self {
        CompileState { depth, ..self }
    }
}

pub open spec fn c_emit(c: ChunkModel, opcode: OpCode, operand: u16) -> ChunkModel {
    if c.instructions.len() > MAX_INSTRUCTIONS {
        ChunkModel { overflow: true, ..c }
    } else {
        ChunkModel { instructions: c.instructions.push(Instruction { opcode, operand }), ..c }
    }
}

pub open spec fn c_push_constant(c: ChunkModel, v: ValueModel) -> (ChunkModel, u16) {
    if c.constants.len() >= u16::MAX {
        (c, 0)
    } else {
        (ChunkModel { constants: c.constants.push(v), ..c }, c.constants.len() as u16)
    }
}

pub open spec fn c_push_name(c: ChunkModel, name: Seq<char>, depth: u16) -> (ChunkModel, u16) {
    match name_index(c.names, name) {
        Some(i) => (c, i as u16),
        None => (
            ChunkModel { names: c.names.push(VariableModel { name, depth }), ..c },
            c.names.len() as u16,
        ),
    }
}

/// A constant loaded by `op`.
pub open spec fn load_constant(s: CompileState, v: ValueModel, op: OpCode) -> CompileState {
    let (c1, k) = c_push_constant(s.chunk, v);
    s.with_chunk(c_emit(c1, op, k))
}

/// The instruction for a binary operator at an operand type.
pub open spec fn binary_opcode(op: TokenType, ty: PrimaryEnum) -> Option<OpCode> {
    match (op, ty) {
        (TokenType::OpPlus, PrimaryEnum::Int) => Some(OpCode::AddInt),
        (TokenType::OpPlus, PrimaryEnum::Float) => Some(OpCode::AddFloat),
        (TokenType::OpPlus, PrimaryEnum::String) => Some(OpCode::AddString),
        (TokenType::OpMinus, PrimaryEnum::Int) => Some(OpCode::SubInt),
        (TokenType::OpMinus, PrimaryEnum::Float) => Some(OpCode::SubFloat),
        (TokenType::OpStar, PrimaryEnum::Int) => Some(OpCode::MulInt),
        (TokenType::OpStar, PrimaryEnum::Float) => Some(OpCode::MulFloat),
        (TokenType::OpSlash, PrimaryEnum::Int) => Some(OpCode::DivInt),
        (TokenType::OpSlash, PrimaryEnum::Float) => Some(OpCode::DivFloat),
        _ => None,
    }
}

/// The name table index an assignment target stores to.
pub open spec fn rule_lvalue(s: CompileState, e: Expr) -> Result<(CompileState, u16), CompileError> {
    match e.kind {
        ExprKind::Identifier(tok) => if !s.vars.contains_key(tok.lexeme@) {
            Err(CompileError::UnknownName)
        } else if s.vars[tok.lexeme@].1 > u16::MAX {
            Err(CompileError::DepthTooLarge)
        } else {
            let (c1, k) = c_push_name(s.chunk, tok.lexeme@, s.vars[tok.lexeme@].1 as u16);
            Ok((s.with_chunk(c1), k))
        },
        _ => Err(CompileError::InvalidTarget),
    }
}

pub open spec fn rule_c_expression(s: CompileState, e: Expr) -> Result<CompileState, CompileError>
    decreases e,
{
    match e.kind {
        ExprKind::IntLiteral { val, .. } => Ok(load_constant(s, ValueModel::Int(val), OpCode::LoadInt)),
        ExprKind::FloatLiteral { debug } => Ok(
            load_constant(s, ValueModel::Float(debug.lexeme@), OpCode::LoadFloat),
        ),
        ExprKind::BoolLiteral { val, .. } => Ok(load_constant(s, ValueModel::Bool(val), OpCode::LoadBool)),
        ExprKind::StringLiteral { val, .. } => Ok(
            load_constant(s, ValueModel::Str(val@), OpCode::LoadString),
        ),
        ExprKind::Identifier(tok) => {
            let (c1, k) = c_push_name(s.chunk, tok.lexeme@, s.depth);
            let c2 = if (k as int) < c1.names.len() && c1.names[k as int].depth == 0 {
                c_emit(c1, OpCode::LoadGlobal, k)
            } else {
                c1
            };
            Ok(s.with_chunk(c_emit(c2, OpCode::LoadName, k)))
        },
        ExprKind::Call { identifier, arguments } => {
            proof {
                vstd::std_specs::vec::axiom_vec_decreases_to_view(arguments);
            }
            match rule_c_arguments(s, arguments@) {
                Err(err) => Err(err),
                Ok(s1) => match rule_c_expression(s1, *identifier) {
                    Err(err) => Err(err),
                    Ok(s2) => Ok(
                        s2.with_chunk(c_emit(s2.chunk, OpCode::Call, arguments@.len() as u16)),
                    ),
                },
            }
        },
        ExprKind::Index { .. } => Ok(s),
        ExprKind::UnaryOp { op, val } => match rule_c_expression(s, *val) {
            Err(err) => Err(err),
            Ok(s1) => if op.token_type == TokenType::OpExclaim {
                Ok(s1.with_chunk(c_emit(s1.chunk, OpCode::NotBool, 0)))
            } else {
                Err(CompileError::UnsupportedUnary(op.token_type))
            },
        },
        ExprKind::BinaryOp { l, op, r } => match rule_c_expression(s, *l) {
            Err(err) => Err(err),
            Ok(s1) => match rule_c_expression(s1, *r) {
                Err(err) => Err(err),
                Ok(s2) => if !s2.types.contains_key(e.id.0) {
                    Err(CompileError::MissingType(e.id))
                } else {
                    match s2.types[e.id.0] {
                        TypeModel::Primary(p) => match binary_opcode(op.token_type, p) {
                            Some(code) => Ok(s2.with_chunk(c_emit(s2.chunk, code, 0))),
                            None => Err(CompileError::UnsupportedBinary(op.token_type, p)),
                        },
                        _ => Err(CompileError::NotPrimary(e.id)),
                    }
                },
            },
        },
        ExprKind::LogicalOp { l, op, r } => match rule_c_expression(s, *l) {
            Err(err) => Err(err),
            Ok(s1) => match rule_c_expression(s1, *r) {
                Err(err) => Err(err),
                Ok(s2) => if op.token_type == TokenType::OpLogAnd {
                    Ok(s2.with_chunk(c_emit(s2.chunk, OpCode::AndBool, 0)))
                } else if op.token_type == TokenType::OpLogOr {
                    Ok(s2.with_chunk(c_emit(s2.chunk, OpCode::OrBool, 0)))
                } else {
                    Err(CompileError::UnsupportedLogical(op.token_type))
                },
            },
        },
        ExprKind::Assignment { l, op, r } => match rule_lvalue(s, *l) {
            Err(err) => Err(err),
            Ok((s1, k)) => match rule_c_expression(s1, *r) {
                Err(err) => Err(err),
                Ok(s2) => if op.token_type != TokenType::OpEqual {
                    Err(CompileError::UnsupportedAssignment(op.token_type))
                } else if k as int >= s2.chunk.names.len() {
                    Err(CompileError::BadName(k))
                } else if s2.chunk.names[k as int].depth == 0 {
                    Ok(s2.with_chunk(c_emit(s2.chunk, OpCode::StoreGlobal, k)))
                } else {
                    Ok(s2.with_chunk(c_emit(s2.chunk, OpCode::StoreName, k)))
                },
            },
        },
        ExprKind::Group(g) => rule_c_expression(s, *g),
    }
}

/// Call arguments, compiled left to right.
pub open spec fn rule_c_arguments(s: CompileState, args: Seq<Expr>) -> Result<CompileState, CompileError>
    decreases args,
{
    if args.len() == 0 {
        Ok(s)
    } else {
        match rule_c_arguments(s, args.drop_last()) {
            Err(err) => Err(err),
            Ok(s1) => rule_c_expression(s1, args.last()),
        }
    }
}

pub open spec fn rule_c_statement(s: CompileState, st: Stmt) -> Result<CompileState, CompileError>
    decreases st,
{
    match st.kind {
        StmtKind::Compound(body) => if s.depth == u16::MAX {
            Err(CompileError::TooDeep)
        } else {
            proof {
                vstd::std_specs::vec::axiom_vec_decreases_to_view(body);
            }
            match rule_c_statements(s.with_depth((s.depth + 1) as u16), body@) {
                Err(err) => Err(err),
                Ok(s1) => Ok(s1.with_depth(s.depth)),
            }
        },
        StmtKind::Expression(e) => rule_c_expression(s, e),
        _ => Ok(s),
    }
}

pub open spec fn rule_c_statements(s: CompileState, body: Seq<Stmt>) -> Result<CompileState, CompileError>
    decreases body,
{
    if body.len() == 0 {
        Ok(s)
    } else {
        match rule_c_statements(s, body.drop_last()) {
            Err(err) => Err(err),
            Ok(s1) => rule_c_statement(s1, body.last()),
        }
    }
}

/// The name token a declarator declares, and whether a pointer declarator
/// is on the way to it.
pub open spec fn declared_name<'a>(d: Decl<'a>) -> (Token<'a>, bool)
    decreases d,
{
    match d.kind {
        DeclKind::Group(g) => declared_name(*g),
        DeclKind::Pointer(g) => (declared_name(*g).0, true),
        DeclKind::Identifier(t) => (t, false),
        DeclKind::Function { decl, .. } => declared_name(*decl),
        DeclKind::Array { decl, .. } => declared_name(*decl),
    }
}

/// The parameter names of a function enter its name table at depth 1.
pub open spec fn param_names(c: ChunkModel, params: Seq<Param>) -> ChunkModel
    decreases params.len(),
{
    if params.len() == 0 {
        c
    } else {
        let c1 = param_names(c, params.drop_last());
        match params.last().decl {
            Some(d) => c_push_name(c1, declared_name(d).0.lexeme@, 1).0,
            None => c1,
        }
    }
}

pub open spec fn empty_chunk() -> ChunkModel {
    ChunkModel {
        instructions: Seq::empty(),
        constants: Seq::empty(),
        names: Seq::empty(),
        overflow: false,
    }
}

/// A function's own code: parameters at depth 1, then the body, then a
/// `Return`.
pub open spec fn rule_function_body(s: CompileState, params: Seq<Param>, body: Option<Stmt>) -> Result<ChunkModel, CompileError> {
    let start = CompileState { chunk: param_names(empty_chunk(), params), depth: 1, ..s };
    match body {
        None => Err(CompileError::MissingBody),
        Some(b) => match rule_c_statement(start, b) {
            Err(err) => Err(err),
            Ok(s1) => Ok(c_emit(s1.chunk, OpCode::Return, 0)),
        },
    }
}

/// A top-level statement: functions become constants stored in a global
/// of their name; global variables are defined and initialized.
pub open spec fn rule_walk(s: CompileState, t: TopLevelStmt) -> Result<CompileState, CompileError> {
    match t.kind {
        TopLevelStmtKind::FunctionDefinition { decl, params, body, .. } => {
            let name = declared_name(decl).0.lexeme@;
            match rule_function_body(s, params@, body) {
                Err(err) => Err(err),
                Ok(code) => {
                    let func = FunctionModel { name, arity: params@.len() as u16, chunk: code };
                    let (c1, k) = c_push_name(s.chunk, name, 0);
                    let c2 = c_emit(c1, OpCode::DefineGlobal, k);
                    let (c3, f) = c_push_constant(c2, ValueModel::Func(func));
                    let c4 = c_emit(c3, OpCode::AllocPtr, f);
                    Ok(s.with_chunk(c_emit(c4, OpCode::StoreGlobal, k)))
                },
            }
        },
        TopLevelStmtKind::GlobalVariable { decl, init, .. } => {
            let (c1, k) = c_push_name(s.chunk, declared_name(decl).0.lexeme@, 0);
            let s1 = s.with_chunk(c_emit(c1, OpCode::DefineGlobal, k));
            match init {
                None => Ok(s1),
                Some(e) => match rule_c_expression(s1, e) {
                    Err(err) => Err(err),
                    Ok(s2) => Ok(s2.with_chunk(c_emit(s2.chunk, OpCode::StoreGlobal, k))),
                },
            }
        },
    }
}

pub open spec fn rule_walk_all(s: CompileState, stmts: Seq<TopLevelStmt>) -> Result<CompileState, CompileError>
    decreases stmts.len(),
{
    if stmts.len() == 0 {
        Ok(s)
    } else {
        match rule_walk_all(s, stmts.drop_last()) {
            Err(err) => Err(err),
            Ok(s1) => rule_walk(s1, stmts.last()),
        }
    }
}

/// After the program: a call of `main`, then `Stop`.
pub open spec fn rule_main_execution(c: ChunkModel) -> ChunkModel {
    let (c1, k) = c_push_name(c, seq!['m', 'a', 'i', 'n'], 0);
    c_emit(c_emit(c1, OpCode::LoadGlobal, k), OpCode::Call, 0)
}

pub open spec fn rule_compile(s: CompileState, stmts: Seq<TopLevelStmt>) -> Result<CompileState, CompileError> {
    match rule_walk_all(s, stmts) {
        Err(err) => Err(err),
        Ok(s1) => Ok(s1.with_chunk(c_emit(rule_main_execution(s1.chunk), OpCode::Stop, 0))),
    }
}

} // verus!
