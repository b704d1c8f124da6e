use dayum::lexer::scan::Scanner;
use dayum::lexer::{Token, TokenType};
use dayum::parser::ast::{DeclKind, ExprKind, StmtKind, TopLevelStmtKind};
use dayum::parser::{ParseError, Parser};

fn scan(src: &str) -> Vec<Token<'_>> {
    let mut scanner = Scanner::new(src);
    let mut tokens = Vec::new();
    while let Some(t) = scanner.next() {
        if t.token_type == dayum::lexer::TokenType::EndOfFile {
            break;
        }
        tokens.push(t);
    }
    tokens
}

const CASES: &[&str] = &[
    "void function(float w, char *r, int) {\n    int hello[3];\n    hello[1] = 2.0;\n    return;\n}\n",
    "int global = 3;\nbool flag;\nchar name = \"dayum\";\n",
    "int main() {\n    if (true) { return 1; } else { return 2; }\n}\n",
];

#[test]
fn parser_test_it_works() {
    for (idx, src) in CASES.iter().enumerate() {
        let mut parser = Parser::new(scan(src));
        match parser.parse() {
            Ok(_) => println!("Test {} succeeded", idx + 1),
            Err(err) => panic!("Test {} failed with error: {:?}", idx + 1, err),
        }
    }
}

#[test]
fn parser_global_variable_with_initializer() {
    let mut parser = Parser::new(scan("int x = 1 + 2 * 3;"));
    let stmts = parser.parse().unwrap();
    assert_eq!(stmts.len(), 1);
    match &stmts[0].kind {
        TopLevelStmtKind::GlobalVariable { type_spec, decl, init } => {
            assert_eq!(type_spec.token_type, TokenType::KwInt);
            assert!(matches!(&decl.kind, DeclKind::Identifier(t) if t.lexeme == "x"));
            let init = init.as_ref().unwrap();
            match &init.kind {
                ExprKind::BinaryOp { l, op, r } => {
                    assert_eq!(op.token_type, TokenType::OpPlus);
                    assert!(matches!(l.kind, ExprKind::IntLiteral { val: 1, .. }));
                    assert!(matches!(&r.kind, ExprKind::BinaryOp { op, .. } if op.token_type == TokenType::OpStar));
                }
                other => panic!("unexpected initializer {:?}", other),
            }
        }
        other => panic!("unexpected statement {:?}", other),
    }
}

#[test]
fn parser_function_definition_with_body() {
    let mut parser = Parser::new(scan("int f(int a) { return a; }"));
    let stmts = parser.parse().unwrap();
    assert_eq!(stmts.len(), 1);
    match &stmts[0].kind {
        TopLevelStmtKind::FunctionDefinition { params, body, .. } => {
            assert_eq!(params.len(), 1);
            let body = body.as_ref().unwrap();
            match &body.kind {
                StmtKind::Compound(stmts) => {
                    assert_eq!(stmts.len(), 1);
                    assert!(matches!(stmts[0].kind, StmtKind::Return { expr: Some(_), .. }));
                }
                other => panic!("unexpected body {:?}", other),
            }
        }
        other => panic!("unexpected statement {:?}", other),
    }
}

#[test]
fn parser_logical_and_assignment_nodes() {
    let mut parser = Parser::new(scan("void f() { a = b && c; }"));
    let stmts = parser.parse().unwrap();
    match &stmts[0].kind {
        TopLevelStmtKind::FunctionDefinition { body: Some(body), .. } => match &body.kind {
            StmtKind::Compound(stmts) => match &stmts[0].kind {
                StmtKind::Expression(e) => match &e.kind {
                    ExprKind::BinaryOp { l, op, r } => {
                        assert_eq!(op.token_type, TokenType::OpLogAnd);
                        assert!(matches!(&r.kind, ExprKind::Identifier(t) if t.lexeme == "c"));
                        match &l.kind {
                            ExprKind::BinaryOp { l, op, r } => {
                                assert_eq!(op.token_type, TokenType::OpEqual);
                                assert!(matches!(&l.kind, ExprKind::Identifier(t) if t.lexeme == "a"));
                                assert!(matches!(&r.kind, ExprKind::Identifier(t) if t.lexeme == "b"));
                            }
                            other => panic!("unexpected expression {:?}", other),
                        }
                    }
                    other => panic!("unexpected expression {:?}", other),
                },
                other => panic!("unexpected statement {:?}", other),
            },
            other => panic!("unexpected body {:?}", other),
        },
        other => panic!("unexpected statement {:?}", other),
    }
}

#[test]
fn parser_assignment_is_right_associative() {
    let mut parser = Parser::new(scan("void f() { a = b = c; }"));
    let stmts = parser.parse().unwrap();
    match &stmts[0].kind {
        TopLevelStmtKind::FunctionDefinition { body: Some(body), .. } => match &body.kind {
            StmtKind::Compound(stmts) => match &stmts[0].kind {
                StmtKind::Expression(e) => match &e.kind {
                    ExprKind::BinaryOp { l, op, r } => {
                        assert_eq!(op.token_type, TokenType::OpEqual);
                        assert!(matches!(&l.kind, ExprKind::Identifier(t) if t.lexeme == "a"));
                        assert!(matches!(&r.kind, ExprKind::BinaryOp { op, .. } if op.token_type == TokenType::OpEqual));
                    }
                    other => panic!("unexpected expression {:?}", other),
                },
                other => panic!("unexpected statement {:?}", other),
            },
            other => panic!("unexpected body {:?}", other),
        },
        other => panic!("unexpected statement {:?}", other),
    }
}

#[test]
fn parser_empty_input_is_empty_program() {
    let mut parser = Parser::new(Vec::new());
    assert_eq!(parser.parse().unwrap().len(), 0);
}

#[test]
fn parser_missing_semicolon_is_reported() {
    let mut parser = Parser::new(scan("int x = 1"));
    assert!(parser.parse().is_err());
}

#[test]
fn parser_expected_token_is_reported() {
    let mut parser = Parser::new(scan("int x = 1 2;"));
    match parser.parse() {
        Err(ParseError::Expected { expected, found }) => {
            assert_eq!(expected, TokenType::Semicolon);
            assert_eq!(found.lexeme, "2");
        }
        other => panic!("unexpected result {:?}", other),
    }
}

#[test]
fn parser_oversized_integer_is_a_bad_literal() {
    let mut parser = Parser::new(scan("int x = 99999999999;"));
    assert!(matches!(parser.parse(), Err(ParseError::BadLiteral(t)) if t.lexeme == "99999999999"));
}

#[test]
fn parser_numbers_nodes_in_order() {
    let mut parser = Parser::new(scan("int x = 1; int y = 2;"));
    let stmts = parser.parse().unwrap();
    assert_eq!(stmts.len(), 2);
    assert!(stmts[0].id.0 < stmts[1].id.0);
}
