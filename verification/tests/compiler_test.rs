use dayum::compiler::chunk::{Chunk, Instruction, OpCode, Value, MAX_INSTRUCTIONS};
use dayum::compiler::rules::CompileError;
use dayum::compiler::Compiler;
use dayum::lexer::scan::Scanner;
use dayum::lexer::{Token, TokenType};
use dayum::parser::ast::{Expr, ExprKind, Stmt, StmtKind, TopLevelStmt, TopLevelStmtKind};
use dayum::parser::Parser;
use dayum::type_checker::TypeChecker;

fn scan(src: &str) -> Vec<Token<'_>> {
    let mut scanner = Scanner::new(src);
    let mut tokens = Vec::new();
    while let Some(t) = scanner.next() {
        if t.token_type == dayum::lexer::TokenType::EndOfFile {
            break;
        }
        tokens.push(t);
    }
    tokens
}

fn parse(src: &str) -> Vec<TopLevelStmt<'_>> {
    Parser::new(scan(src)).parse().unwrap()
}

fn compile(src: &str) -> (Compiler, Result<(), CompileError>) {
    let stmts = parse(src);
    let mut checker = TypeChecker::new();
    let _ = checker.check(&stmts);
    let mut compiler = Compiler::new(checker.type_map, checker.var_map);
    let r = compiler.compile(stmts);
    (compiler, r)
}

/// The parser makes a binary operation of every infix operator; the
/// compiler has its own instructions for `=`, `&&` and `||` nodes. This
/// rebuilds those operations as such nodes, keeping every node's number.
fn relabel_expr(e: Expr) -> Expr {
    let kind = match e.kind {
        ExprKind::BinaryOp { l, op, r } => {
            let l = Box::new(relabel_expr(*l));
            let r = Box::new(relabel_expr(*r));
            match op.token_type {
                TokenType::OpEqual => ExprKind::Assignment { l, op, r },
                TokenType::OpLogAnd | TokenType::OpLogOr => ExprKind::LogicalOp { l, op, r },
                _ => ExprKind::BinaryOp { l, op, r },
            }
        }
        ExprKind::UnaryOp { op, val } => ExprKind::UnaryOp { op, val: Box::new(relabel_expr(*val)) },
        ExprKind::Group(inner) => ExprKind::Group(Box::new(relabel_expr(*inner))),
        other => other,
    };
    Expr { kind, id: e.id }
}

fn relabel_stmt(s: Stmt) -> Stmt {
    let kind = match s.kind {
        StmtKind::Expression(e) => StmtKind::Expression(relabel_expr(e)),
        StmtKind::Compound(stmts) => StmtKind::Compound(stmts.into_iter().map(relabel_stmt).collect()),
        other => other,
    };
    Stmt { kind, id: s.id }
}

fn relabel(stmts: Vec<TopLevelStmt>) -> Vec<TopLevelStmt> {
    stmts
        .into_iter()
        .map(|t| {
            let kind = match t.kind {
                TopLevelStmtKind::GlobalVariable { type_spec, decl, init } => {
                    TopLevelStmtKind::GlobalVariable { type_spec, decl, init: init.map(relabel_expr) }
                }
                TopLevelStmtKind::FunctionDefinition { type_spec, decl, params, body } => {
                    TopLevelStmtKind::FunctionDefinition {
                        type_spec,
                        decl,
                        params,
                        body: body.map(relabel_stmt),
                    }
                }
            };
            TopLevelStmt { kind, id: t.id }
        })
        .collect()
}

fn compile_relabelled(src: &str) -> (Compiler, Result<(), CompileError>) {
    let stmts = relabel(parse(src));
    let mut checker = TypeChecker::new();
    let _ = checker.check(&stmts);
    let mut compiler = Compiler::new(checker.type_map, checker.var_map);
    let r = compiler.compile(stmts);
    (compiler, r)
}

fn ops(chunk: &Chunk) -> Vec<(OpCode, u16)> {
    chunk.instructions.iter().map(|i| (i.opcode, i.operand)).collect()
}

#[test]
fn compiler_global_variable() {
    let (c, r) = compile("int g = 5;");
    assert_eq!(r, Ok(()));
    assert_eq!(
        ops(&c.chunk),
        vec![
            (OpCode::DefineGlobal, 0),
            (OpCode::LoadInt, 0),
            (OpCode::StoreGlobal, 0),
            (OpCode::LoadGlobal, 1),
            (OpCode::Call, 0),
            (OpCode::Stop, 0),
        ]
    );
    assert!(matches!(c.chunk.constants[0], Value::Int(5)));
    assert_eq!(c.chunk.names[0].name, "g");
    assert_eq!(c.chunk.names[1].name, "main");
}

#[test]
fn compiler_function_becomes_heap_constant() {
    let (c, r) = compile("void main() { }");
    assert_eq!(r, Ok(()));
    assert_eq!(
        ops(&c.chunk),
        vec![
            (OpCode::DefineGlobal, 0),
            (OpCode::AllocPtr, 0),
            (OpCode::StoreGlobal, 0),
            (OpCode::LoadGlobal, 0),
            (OpCode::Call, 0),
            (OpCode::Stop, 0),
        ]
    );
    match &c.chunk.constants[0] {
        Value::Func(f) => {
            assert_eq!(f.name, "main");
            assert_eq!(f.arity, 0);
            assert_eq!(ops(&f.chunk), vec![(OpCode::Return, 0)]);
        }
        other => panic!("unexpected constant {:?}", other),
    }
}

#[test]
fn compiler_parameters_are_locals() {
    let (c, r) = compile("void f(int a) { a; }");
    assert_eq!(r, Ok(()));
    match &c.chunk.constants[0] {
        Value::Func(f) => {
            assert_eq!(f.arity, 1);
            assert_eq!(f.chunk.names[0].name, "a");
            assert_eq!(f.chunk.names[0].depth, 1);
            assert_eq!(ops(&f.chunk), vec![(OpCode::LoadName, 0), (OpCode::Return, 0)]);
        }
        other => panic!("unexpected constant {:?}", other),
    }
}

#[test]
fn compiler_binary_operation_needs_its_type() {
    let (_, r) = compile("int x = 1 + 2;");
    assert!(matches!(r, Err(CompileError::MissingType(_))));
}

#[test]
fn compiler_function_without_body_is_refused() {
    let (_, r) = compile("int f();");
    assert_eq!(r, Err(CompileError::MissingBody));
}

#[test]
fn compiler_logical_and_not() {
    let (c, r) = compile_relabelled("bool b = !true || false;");
    assert_eq!(r, Ok(()));
    assert_eq!(
        ops(&c.chunk)[..5].to_vec(),
        vec![
            (OpCode::DefineGlobal, 0),
            (OpCode::LoadBool, 0),
            (OpCode::NotBool, 0),
            (OpCode::LoadBool, 1),
            (OpCode::OrBool, 0),
        ]
    );
}

#[test]
fn compiler_assignment_to_global() {
    let (c, r) = compile_relabelled("int g;\nvoid main() { g = 3; }");
    assert_eq!(r, Ok(()));
    let f = c.chunk.constants.iter().find_map(|v| match v {
        Value::Func(f) => Some(f),
        _ => None,
    });
    let f = f.unwrap();
    assert_eq!(
        ops(&f.chunk),
        vec![(OpCode::LoadInt, 0), (OpCode::StoreGlobal, 0), (OpCode::Return, 0)]
    );
}

#[test]
fn compiler_assignment_to_unknown_name() {
    let (_, r) = compile_relabelled("void main() { h = 3; }");
    assert_eq!(r, Err(CompileError::UnknownName));
}

#[test]
fn chunk_push_name_is_stable() {
    let mut chunk = Chunk::new();
    let a = chunk.push_name("a".to_string(), 0);
    let b = chunk.push_name("b".to_string(), 1);
    let a2 = chunk.push_name("a".to_string(), 5);
    assert_eq!((a, b, a2), (0, 1, 0));
    assert_eq!(chunk.names.len(), 2);
    assert_eq!(chunk.names[0].depth, 0);
}

#[test]
fn chunk_push_constant_gives_its_index() {
    let mut chunk = Chunk::new();
    assert_eq!(chunk.push_constant(Value::Int(7)), 0);
    assert_eq!(chunk.push_constant(Value::Bool(true)), 1);
    assert!(matches!(chunk.constants[1], Value::Bool(true)));
}

#[test]
fn chunk_emit_overflows_past_the_limit() {
    let mut chunk = Chunk::new();
    for _ in 0..(MAX_INSTRUCTIONS + 1) {
        chunk.emit(OpCode::LoadNull, 0);
    }
    assert!(!chunk.overflow);
    assert_eq!(chunk.instructions.len(), MAX_INSTRUCTIONS + 1);
    chunk.emit(OpCode::Stop, 0);
    assert!(chunk.overflow);
    assert_eq!(chunk.instructions.len(), MAX_INSTRUCTIONS + 1);
    assert_eq!(chunk.instructions[0], Instruction { opcode: OpCode::LoadNull, operand: 0 });
}

#[test]
fn value_operations() {
    assert!(matches!(Value::Int(2).add_numeric(Value::Int(3)), Value::Int(5)));
    assert!(matches!(Value::Int(2).sub_numeric(Value::Int(3)), Value::Int(-1)));
    assert!(matches!(Value::Int(4).mul_numeric(Value::Int(-3)), Value::Int(-12)));
    assert!(matches!(Value::Int(-7).div_numeric(Value::Int(2)), Value::Int(-3)));
    assert!(matches!(Value::Int(7).div_numeric(Value::Int(-2)), Value::Int(-3)));
    assert!(matches!(Value::Bool(true).and_logical(Value::Bool(false)), Value::Bool(false)));
    assert!(matches!(Value::Bool(true).or_logical(Value::Bool(false)), Value::Bool(true)));
    assert!(matches!(Value::Bool(true).not(), Value::Bool(false)));
    match Value::Str("ab".to_string()).concatenate(Value::Str("cd".to_string())) {
        Value::Str(s) => assert_eq!(s, "abcd"),
        other => panic!("unexpected {:?}", other),
    }
    assert!(matches!(Value::Bool(false).lt(&Value::Bool(true)), Value::Bool(true)));
    assert!(matches!(Value::Bool(true).ge(&Value::Bool(true)), Value::Bool(true)));
    assert!(matches!(Value::Bool(true).eq(&Value::Bool(false)), Value::Bool(false)));
    assert!(matches!(Value::Bool(true).neq(&Value::Bool(false)), Value::Bool(true)));
    assert!(matches!(Value::Bool(true).gt(&Value::Bool(false)), Value::Bool(true)));
    assert!(matches!(Value::Bool(true).le(&Value::Bool(false)), Value::Bool(false)));
    assert_eq!(Value::Ptr(4).as_ptr(), 4);
}

#[test]
fn compiler_assignment_target_must_be_a_name() {
    let (_, r) = compile_relabelled("void main() { 1 = 2; }");
    assert_eq!(r, Err(CompileError::InvalidTarget));
}

#[test]
fn compiler_parsed_logical_and_assignment_have_no_node_type() {
    let (_, r) = compile("bool b = !true || false;");
    assert!(matches!(r, Err(CompileError::MissingType(_))));
    let (_, r) = compile("int g;\nvoid main() { g = 3; }");
    assert!(matches!(r, Err(CompileError::MissingType(_))));
}
