//! The bytecode compiler: turns the checked syntax tree into one chunk for
//! the top level, with each function compiled into a chunk of its own.
use std::collections::HashMap;

use vstd::prelude::*;

use crate::lexer::{Token, TokenType};
use crate::parser::ast::{Decl, DeclKind, Expr, ExprKind, Stmt, StmtKind, TopLevelStmt, TopLevelStmtKind};
use crate::type_checker::annotation::{PrimaryEnum, Type, TypeModel};
use crate::type_checker::scope::VarMap;
use chunk::{chunk_model, Chunk, ChunkModel, CompiledFunction, OpCode, Value, ValueModel};
use rules::{
    binary_opcode, c_emit, c_push_name, declared_name, empty_chunk, param_names,
    rule_c_arguments, rule_c_expression, rule_c_statement, rule_c_statements, rule_compile,
    rule_function_body, rule_lvalue, rule_main_execution, rule_walk, rule_walk_all, CompileError,
    CompileState,
};

pub mod chunk;
pub mod laws;
pub mod rules;

verus! {

broadcast use vstd::std_specs::hash::group_hash_axioms;

pub struct Compiler {
    pub chunk: Chunk,
    depth: u16,
    type_map: HashMap<usize, Type>,
    var_map: VarMap,
}

impl View for Compiler {
    type V = CompileState;

    closed spec fn view(&self) -> CompileState {
        CompileState {
            chunk: chunk_model(self.chunk),
            depth: self.depth,
            types: self.type_map@.map_values(|t: Type| t@),
            vars: self.var_map@,
        }
    }
}

/// Compiling reads the checker's tables and never changes them.
pub open spec fn same_tables(a: CompileState, b: CompileState) -> bool {
    a.types == b.types && a.vars == b.vars
}

/// The result of a compiling step, as its rule states it.
pub open spec fn outcome(r: Result<(), CompileError>, after: CompileState, rule: Result<CompileState, CompileError>) -> bool {
    match r {
        Ok(()) => rule == Ok::<CompileState, CompileError>(after),
        Err(e) => rule == Err::<CompileState, CompileError>(e),
    }
}

impl Compiler {
    /// The code compiled so far: the view's `chunk`.
    pub fn chunk(&self) -> (r: &Chunk)
        ensures
            chunk_model(*r) == self@.chunk,
    {
        &self.chunk
    }

    /// A compiler that reads the checker's node types and names.
    pub fn new(type_map: HashMap<usize, Type>, var_map: VarMap) -> (r: Self)
        ensures
            r@.chunk == empty_chunk(),
            r@.depth == 0,
            r@.types == type_map@.map_values(|t: Type| t@),
            r@.vars == var_map@,
    {
        Compiler { chunk: Chunk::new(), depth: 0, type_map, var_map }
    }

    /// Compiles the program, then a call of `main` and a final `Stop`.
    /// What the instruction set cannot express (a node with no recorded
    /// type, an operator with no instruction at its operand type, an
    /// assignment whose target is not a declared name, a table too full) is
    /// returned as an `Err` naming it, as `rule_compile` states; nothing
    /// aborts.
    pub fn compile(&mut self, stmts: Vec<TopLevelStmt>) -> (r: Result<(), CompileError>)
        ensures
            outcome(r, final(self)@, rule_compile(old(self)@, stmts@)),
    {
        let ghost s0 = self@;
        let mut i: usize = 0;
        while i < stmts.len()
            invariant
                i <= stmts.len(),
                rule_walk_all(s0, stmts@.take(i as int)) == Ok::<CompileState, CompileError>(self@),
                s0 == old(self)@,
            decreases stmts.len() - i,
        {
            proof {
                assert(stmts@.take(i + 1).drop_last() =~= stmts@.take(i as int));
            }
            let r = self.walk(&stmts[i]);
            if let Err(e) = r {
                proof {
                    assert(stmts@.take(i + 1).drop_last() =~= stmts@.take(i as int));
                    lemma_walk_all_stops(s0, stmts@, i as int, e);
                }
                return Err(e);
            }
            i += 1;
        }
        proof {
            assert(stmts@.take(stmts.len() as int) =~= stmts@);
        }
        self.emit_main_execution();
        self.emit(OpCode::Stop, 0);
        Ok(())
    }

    fn emit(&mut self, opcode: OpCode, operand: u16)
        ensures
            final(self)@ == old(self)@.with_chunk(c_emit(old(self)@.chunk, opcode, operand)),
    {
        self.chunk.emit(opcode, operand);
    }

    fn push_name(&mut self, name: String, depth: u16) -> (r: u16)
        ensures
            (final(self)@.chunk, r) == c_push_name(old(self)@.chunk, name@, depth),
            final(self)@ == old(self)@.with_chunk(final(self)@.chunk),
    {
        self.chunk.push_name(name, depth)
    }

    fn load_constant(&mut self, v: Value, op: OpCode)
        ensures
            final(self)@ == rules::load_constant(old(self)@, v@, op),
    {
        proof {
            chunk::lemma_values_model_len(self.chunk.constants@);
        }
        let k = self.chunk.push_constant(v);
        self.chunk.emit(op, k);
    }

    fn walk(&mut self, stmt: &TopLevelStmt) -> (r: Result<(), CompileError>)
        ensures
            outcome(r, final(self)@, rule_walk(old(self)@, *stmt)),
            same_tables(old(self)@, final(self)@),
    {
        match &stmt.kind {
            TopLevelStmtKind::FunctionDefinition { decl, params, body, .. } => {
                let (tok, _) = declaration(decl);
                let mut code = Chunk::new();
                std::mem::swap(&mut self.chunk, &mut code);
                let saved_depth = self.depth;
                self.depth = 1;
                let ghost s_outer = old(self)@;
                let mut i: usize = 0;
                while i < params.len()
                    invariant
                        i <= params.len(),
                        self@ == (CompileState {
                            chunk: param_names(empty_chunk(), params@.take(i as int)),
                            depth: 1,
                            ..s_outer
                        }),
                        chunk_model(code) == s_outer.chunk,
                        s_outer == old(self)@,
                    decreases params.len() - i,
                {
                    proof {
                        assert(params@.take(i + 1).drop_last() =~= params@.take(i as int));
                    }
                    if let Some(d) = &params[i].decl {
                        let (ptok, _) = declaration(d);
                        self.push_name(ptok.lexeme.to_owned(), 1);
                    }
                    i += 1;
                }
                proof {
                    assert(params@.take(params.len() as int) =~= params@);
                }
                let body = match body {
                    Some(b) => b,
                    None => {
                        return Err(CompileError::MissingBody);
                    },
                };
                let r = self.statement(body);
                if let Err(e) = r {
                    return Err(e);
                }
                self.emit(OpCode::Return, 0);
                std::mem::swap(&mut self.chunk, &mut code);
                self.depth = saved_depth;
                let func = CompiledFunction {
                    name: tok.lexeme.to_owned(),
                    arity: #[verifier::truncate] (params.len() as u16),
                    chunk: code,
                };
                let oper = self.push_name(tok.lexeme.to_owned(), 0);
                self.emit(OpCode::DefineGlobal, oper);
                proof {
                    chunk::lemma_values_model_len(self.chunk.constants@);
                }
                let oper_const = self.chunk.push_constant(Value::Func(func));
                self.emit(OpCode::AllocPtr, oper_const);
                self.emit(OpCode::StoreGlobal, oper);
                Ok(())
            },
            TopLevelStmtKind::GlobalVariable { decl, init, .. } => {
                let (tok, _) = declaration(decl);
                let oper = self.push_name(tok.lexeme.to_owned(), 0);
                self.emit(OpCode::DefineGlobal, oper);
                if let Some(init) = init {
                    let r = self.expression(init);
                    if let Err(e) = r {
                        return Err(e);
                    }
                    self.emit(OpCode::StoreGlobal, oper);
                }
                Ok(())
            },
        }
    }

    fn statement(&mut self, stmt: &Stmt) -> (r: Result<(), CompileError>)
        ensures
            outcome(r, final(self)@, rule_c_statement(old(self)@, *stmt)),
            same_tables(old(self)@, final(self)@),
        decreases stmt,
    {
        match &stmt.kind {
            StmtKind::Compound(body) => {
                if self.depth == 65535 {
                    return Err(CompileError::TooDeep);
                }
                let saved = self.depth;
                self.depth = saved + 1;
                let ghost s1 = self@;
                let mut i: usize = 0;
                proof {
                    vstd::std_specs::vec::axiom_vec_decreases_to_view(*body);
                }
                while i < body.len()
                    invariant
                        i <= body.len(),
                        rule_c_statements(s1, body@.take(i as int)) == Ok::<
                            CompileState,
                            CompileError,
                        >(self@),
                        decreases_to!(*stmt => body@),
                        stmt.kind == StmtKind::Compound(*body),
                        old(self)@.depth != u16::MAX,
                        s1 == old(self)@.with_depth((old(self)@.depth + 1) as u16),
                        saved == old(self)@.depth,
                        same_tables(old(self)@, self@),
                    decreases body.len() - i,
                {
                    proof {
                        assert(body@.take(i + 1).drop_last() =~= body@.take(i as int));
                        vstd::seq::axiom_seq_index_decreases(body@, i as int);
                    }
                    let r = self.statement(&body[i]);
                    if let Err(e) = r {
                        proof {
                            lemma_statements_stop(s1, body@, i as int, e);
                        }
                        return Err(e);
                    }
                    i += 1;
                }
                proof {
                    assert(body@.take(body.len() as int) =~= body@);
                }
                self.depth = saved;
                Ok(())
            },
            StmtKind::Expression(expr) => self.expression(expr),
            _ => Ok(()),
        }
    }

    fn lvalue_expression(&mut self, expr: &Expr) -> (r: Result<u16, CompileError>)
        ensures
            match r {
                Ok(k) => rule_lvalue(old(self)@, *expr) == Ok::<(CompileState, u16), CompileError>(
                    (final(self)@, k),
                ),
                Err(e) => rule_lvalue(old(self)@, *expr) == Err::<(CompileState, u16), CompileError>(
                    e,
                ),
            },
            same_tables(old(self)@, final(self)@),
    {
        match &expr.kind {
            ExprKind::Identifier(tok) => match self.var_map.get(tok.lexeme) {
                None => Err(CompileError::UnknownName),
                Some((_, depth)) => {
                    if depth > 65535 {
                        return Err(CompileError::DepthTooLarge);
                    }
                    Ok(self.push_name(tok.lexeme.to_owned(), depth as u16))
                },
            },
            _ => Err(CompileError::InvalidTarget),
        }
    }

    /// Whether the name table entry `idx` was declared at depth 0.
    fn is_global(&self, idx: u16) -> (r: Result<bool, CompileError>)
        ensures
            (idx as int) < self@.chunk.names.len() ==> r == Ok::<bool, CompileError>(
                self@.chunk.names[idx as int].depth == 0,
            ),
            (idx as int) >= self@.chunk.names.len() ==> r == Err::<bool, CompileError>(
                CompileError::BadName(idx),
            ),
    {
        if (idx as usize) < self.chunk.names.len() {
            Ok(self.chunk.names[idx as usize].depth == 0)
        } else {
            Err(CompileError::BadName(idx))
        }
    }

    /// Pushes the type-directed instruction of a binary operation.
    fn binary_instruction(&mut self, expr: &Expr, op: &Token) -> (r: Result<(), CompileError>)
        ensures
            outcome(
                r,
                final(self)@,
                if !old(self)@.types.contains_key(expr.id.0) {
                    Err(CompileError::MissingType(expr.id))
                } else {
                    match old(self)@.types[expr.id.0] {
                        TypeModel::Primary(p) => match binary_opcode(op.token_type, p) {
                            Some(code) => Ok(old(self)@.with_chunk(c_emit(old(self)@.chunk, code, 0))),
                            None => Err(CompileError::UnsupportedBinary(op.token_type, p)),
                        },
                        _ => Err(CompileError::NotPrimary(expr.id)),
                    }
                },
            ),
            same_tables(old(self)@, final(self)@),
    {
        let p: PrimaryEnum = match self.type_map.get(&expr.id.0) {
            None => {
                return Err(CompileError::MissingType(expr.id));
            },
            Some(spec) => {
                if !spec.is_primary() {
                    return Err(CompileError::NotPrimary(expr.id));
                }
                *spec.as_primary()
            },
        };
        let code = match (op.token_type, p) {
            (TokenType::OpPlus, PrimaryEnum::Int) => OpCode::AddInt,
            (TokenType::OpPlus, PrimaryEnum::Float) => OpCode::AddFloat,
            (TokenType::OpPlus, PrimaryEnum::String) => OpCode::AddString,
            (TokenType::OpMinus, PrimaryEnum::Int) => OpCode::SubInt,
            (TokenType::OpMinus, PrimaryEnum::Float) => OpCode::SubFloat,
            (TokenType::OpStar, PrimaryEnum::Int) => OpCode::MulInt,
            (TokenType::OpStar, PrimaryEnum::Float) => OpCode::MulFloat,
            (TokenType::OpSlash, PrimaryEnum::Int) => OpCode::DivInt,
            (TokenType::OpSlash, PrimaryEnum::Float) => OpCode::DivFloat,
            _ => {
                return Err(CompileError::UnsupportedBinary(op.token_type, p));
            },
        };
        self.emit(code, 0);
        Ok(())
    }

    /// Compiles an expression: its operands first, then its own
    /// instruction. An operator with no instruction at its operand type, a
    /// node with no recorded type, or an assignment to something other than
    /// a declared name gives an `Err` naming it rather than aborting.
    fn expression(&mut self, expr: &Expr) -> (r: Result<(), CompileError>)
        ensures
            outcome(r, final(self)@, rule_c_expression(old(self)@, *expr)),
            same_tables(old(self)@, final(self)@),
        decreases expr,
    {
        match &expr.kind {
            ExprKind::IntLiteral { val, .. } => {
                self.load_constant(Value::Int(*val), OpCode::LoadInt);
                Ok(())
            },
            ExprKind::FloatLiteral { debug } => {
                self.load_constant(Value::Float(debug.lexeme.to_owned()), OpCode::LoadFloat);
                Ok(())
            },
            ExprKind::BoolLiteral { val, .. } => {
                self.load_constant(Value::Bool(*val), OpCode::LoadBool);
                Ok(())
            },
            ExprKind::StringLiteral { val, .. } => {
                self.load_constant(Value::Str((*val).to_owned()), OpCode::LoadString);
                Ok(())
            },
            ExprKind::Identifier(tok) => {
                let oper = self.push_name(tok.lexeme.to_owned(), self.depth);
                if (oper as usize) < self.chunk.names.len() {
                    if self.chunk.names[oper as usize].depth == 0 {
                        self.emit(OpCode::LoadGlobal, oper);
                    }
                }
                self.emit(OpCode::LoadName, oper);
                Ok(())
            },
            ExprKind::Call { identifier, arguments } => {
                let args_len = #[verifier::truncate] (arguments.len() as u16);
                let ghost s0 = self@;
                let mut i: usize = 0;
                proof {
                    vstd::std_specs::vec::axiom_vec_decreases_to_view(*arguments);
                }
                while i < arguments.len()
                    invariant
                        i <= arguments.len(),
                        rule_c_arguments(s0, arguments@.take(i as int)) == Ok::<
                            CompileState,
                            CompileError,
                        >(self@),
                        decreases_to!(*expr => arguments@),
                        expr.kind == (ExprKind::Call { identifier: *identifier, arguments: *arguments }),
                        s0 == old(self)@,
                        same_tables(old(self)@, self@),
                    decreases arguments.len() - i,
                {
                    proof {
                        assert(arguments@.take(i + 1).drop_last() =~= arguments@.take(i as int));
                        vstd::seq::axiom_seq_index_decreases(arguments@, i as int);
                    }
                    let r = self.expression(&arguments[i]);
                    if let Err(e) = r {
                        proof {
                            lemma_arguments_stop(s0, arguments@, i as int, e);
                        }
                        return Err(e);
                    }
                    i += 1;
                }
                proof {
                    assert(arguments@.take(arguments.len() as int) =~= arguments@);
                }
                let r = self.expression(identifier);
                if let Err(e) = r {
                    return Err(e);
                }
                self.emit(OpCode::Call, args_len);
                Ok(())
            },
            ExprKind::Index { .. } => Ok(()),
            ExprKind::UnaryOp { op, val } => {
                let r = self.expression(val);
                if let Err(e) = r {
                    return Err(e);
                }
                match op.token_type {
                    TokenType::OpExclaim => {
                        self.emit(OpCode::NotBool, 0);
                        Ok(())
                    },
                    t => Err(CompileError::UnsupportedUnary(t)),
                }
            },
            ExprKind::BinaryOp { l, op, r } => {
                let a = self.expression(l);
                if let Err(e) = a {
                    return Err(e);
                }
                let b = self.expression(r);
                if let Err(e) = b {
                    return Err(e);
                }
                self.binary_instruction(expr, op)
            },
            ExprKind::LogicalOp { l, op, r } => {
                let a = self.expression(l);
                if let Err(e) = a {
                    return Err(e);
                }
                let b = self.expression(r);
                if let Err(e) = b {
                    return Err(e);
                }
                match op.token_type {
                    TokenType::OpLogAnd => {
                        self.emit(OpCode::AndBool, 0);
                        Ok(())
                    },
                    TokenType::OpLogOr => {
                        self.emit(OpCode::OrBool, 0);
                        Ok(())
                    },
                    t => Err(CompileError::UnsupportedLogical(t)),
                }
            },
            ExprKind::Assignment { l, op, r } => {
                let oper = match self.lvalue_expression(l) {
                    Ok(k) => k,
                    Err(e) => {
                        return Err(e);
                    },
                };
                let b = self.expression(r);
                if let Err(e) = b {
                    return Err(e);
                }
                match op.token_type {
                    TokenType::OpEqual => {
                        let global = match self.is_global(oper) {
                            Ok(g) => g,
                            Err(e) => {
                                return Err(e);
                            },
                        };
                        if global {
                            self.emit(OpCode::StoreGlobal, oper);
                        } else {
                            self.emit(OpCode::StoreName, oper);
                        }
                        Ok(())
                    },
                    t => Err(CompileError::UnsupportedAssignment(t)),
                }
            },
            ExprKind::Group(grp) => self.expression(grp),
        }
    }

    /// A call of `main`, as the program's last act before `Stop`.
    fn emit_main_execution(&mut self)
        ensures
            final(self)@ == old(self)@.with_chunk(rule_main_execution(old(self)@.chunk)),
    {
        let main = "main".to_owned();
        proof {
            reveal_strlit("main");
            assert(main@ =~= seq!['m', 'a', 'i', 'n']);
        }
        let oper = self.push_name(main, 0);
        self.emit(OpCode::LoadGlobal, oper);
        self.emit(OpCode::Call, 0);
    }
}

/// The token a declarator declares, and whether a pointer declarator is on
/// the way to it.
pub fn declaration<'a>(decl: &Decl<'a>) -> (r: (Token<'a>, bool))
    ensures
        r == declared_name(*decl),
    decreases decl,
{
    match &decl.kind {
        DeclKind::Group(d) => declaration(d),
        DeclKind::Pointer(d) => (declaration(d).0, true),
        DeclKind::Identifier(ident) => (*ident, false),
        DeclKind::Function { decl: d, .. } => declaration(d),
        DeclKind::Array { decl: d, .. } => declaration(d),
    }
}

proof fn lemma_walk_all_stops(s: CompileState, stmts: Seq<TopLevelStmt>, i: int, e: CompileError)
    requires
        0 <= i < stmts.len(),
        match rule_walk_all(s, stmts.take(i)) {
            Ok(s1) => rule_walk(s1, stmts[i]) == Err::<CompileState, CompileError>(e),
            Err(_) => false,
        },
    ensures
        rule_compile(s, stmts) == Err::<CompileState, CompileError>(e),
    decreases stmts.len() - i,
{
    let mut j = i + 1;
    assert(stmts.take(i + 1).drop_last() =~= stmts.take(i));
    assert(rule_walk_all(s, stmts.take(i + 1)) == Err::<CompileState, CompileError>(e));
    lemma_walk_all_err_persists(s, stmts, i + 1, e);
}

proof fn lemma_walk_all_err_persists(s: CompileState, stmts: Seq<TopLevelStmt>, i: int, e: CompileError)
    requires
        0 <= i <= stmts.len(),
        rule_walk_all(s, stmts.take(i)) == Err::<CompileState, CompileError>(e),
    ensures
        rule_walk_all(s, stmts) == Err::<CompileState, CompileError>(e),
    decreases stmts.len() - i,
{
    if i < stmts.len() {
        assert(stmts.take(i + 1).drop_last() =~= stmts.take(i));
        lemma_walk_all_err_persists(s, stmts, i + 1, e);
    } else {
        assert(stmts.take(i) =~= stmts);
    }
}

proof fn lemma_statements_stop(s: CompileState, body: Seq<Stmt>, i: int, e: CompileError)
    requires
        0 <= i < body.len(),
        match rule_c_statements(s, body.take(i)) {
            Ok(s1) => rule_c_statement(s1, body[i]) == Err::<CompileState, CompileError>(e),
            Err(_) => false,
        },
    ensures
        rule_c_statements(s, body) == Err::<CompileState, CompileError>(e),
    decreases body.len() - i,
{
    assert(body.take(i + 1).drop_last() =~= body.take(i));
    if i + 1 < body.len() {
        lemma_statements_err_persists(s, body, i + 1, e);
    } else {
        assert(body.take(i + 1) =~= body);
    }
}

proof fn lemma_statements_err_persists(s: CompileState, body: Seq<Stmt>, i: int, e: CompileError)
    requires
        0 <= i <= body.len(),
        rule_c_statements(s, body.take(i)) == Err::<CompileState, CompileError>(e),
    ensures
        rule_c_statements(s, body) == Err::<CompileState, CompileError>(e),
    decreases body.len() - i,
{
    if i < body.len() {
        assert(body.take(i + 1).drop_last() =~= body.take(i));
        lemma_statements_err_persists(s, body, i + 1, e);
    } else {
        assert(body.take(i) =~= body);
    }
}

proof fn lemma_arguments_stop(s: CompileState, args: Seq<Expr>, i: int, e: CompileError)
    requires
        0 <= i < args.len(),
        match rule_c_arguments(s, args.take(i)) {
            Ok(s1) => rule_c_expression(s1, args[i]) == Err::<CompileState, CompileError>(e),
            Err(_) => false,
        },
    ensures
        rule_c_arguments(s, args) == Err::<CompileState, CompileError>(e),
    decreases args.len() - i,
{
    assert(args.take(i + 1).drop_last() =~= args.take(i));
    lemma_arguments_err_persists(s, args, i + 1, e);
}

proof fn lemma_arguments_err_persists(s: CompileState, args: Seq<Expr>, i: int, e: CompileError)
    requires
        0 <= i <= args.len(),
        rule_c_arguments(s, args.take(i)) == Err::<CompileState, CompileError>(e),
    ensures
        rule_c_arguments(s, args) == Err::<CompileState, CompileError>(e),
    decreases args.len() - i,
{
    if i < args.len() {
        assert(args.take(i + 1).drop_last() =~= args.take(i));
        lemma_arguments_err_persists(s, args, i + 1, e);
    } else {
        assert(args.take(i) =~= args);
    }
}

} // verus!
