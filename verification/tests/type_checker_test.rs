use dayum::lexer::scan::Scanner;
use dayum::lexer::Token;
use dayum::parser::ast::TopLevelStmt;
use dayum::parser::literal::IntErrorKind;
use dayum::parser::Parser;
use dayum::type_checker::annotation::{PrimaryEnum, Type};
use dayum::type_checker::error::{NodeError, TokenError, TypeError};
use dayum::type_checker::{program_specs_are_types, ErrorsPresent, TypeChecker};

fn scan(src: &str) -> Vec<Token<'_>> {
    let mut scanner = Scanner::new(src);
    let mut tokens = Vec::new();
    while let Some(t) = scanner.next() {
        if t.token_type == dayum::lexer::TokenType::EndOfFile {
            break;
        }
        tokens.push(t);
    }
    tokens
}

fn parse(src: &str) -> Vec<TopLevelStmt<'_>> {
    let mut parser = Parser::new(scan(src));
    parser.parse().unwrap()
}

fn type_check(stmts: Vec<TopLevelStmt>) -> () {
    let mut checker = TypeChecker::new();
    assert!(program_specs_are_types(&stmts));
    if checker.check(&stmts).is_err() {}
}

const CASES: &[&str] = &[
    "void function(float w, char *r, int) {\n    int hello[3];\n    hello[1] = 2.0;\n    return;\n}\n",
    "int global = 3;\nbool flag;\nchar name = \"dayum\";\n",
    "int main() {\n    if (true) { return 1; } else { return 2; }\n}\n",
];

#[test]
fn type_checker_test_it_works() {
    for src in CASES.iter() {
        type_check(parse(src));
    }
}

#[test]
fn checker_accepts_well_typed_program() {
    let stmts = parse("int g = 1;\nint main(int a) { int b = a; return b; }\n");
    let mut checker = TypeChecker::new();
    assert_eq!(checker.check(&stmts), Ok(()));
    assert!(checker.errors().is_empty());
}

#[test]
fn checker_accepts_empty_program() {
    let stmts = parse("");
    let mut checker = TypeChecker::new();
    assert_eq!(checker.check(&stmts), Ok(()));
}

#[test]
fn checker_reports_initializer_type() {
    let stmts = parse("int x = true;");
    let mut checker = TypeChecker::new();
    assert_eq!(checker.check(&stmts), Err(ErrorsPresent));
    let errors = checker.errors();
    assert_eq!(errors.len(), 1);
    match &errors[0] {
        TypeError::AtToken { kind: TokenError::InitType { expected, got }, line, pos } => {
            assert!(matches!(expected, Type::Primary(PrimaryEnum::Int)));
            assert!(matches!(got, Type::Primary(PrimaryEnum::Bool)));
            assert_eq!((*line, *pos), (0, 1));
        }
        other => panic!("unexpected error {:?}", other),
    }
}

#[test]
fn checker_reports_unknown_variable() {
    let stmts = parse("int x = y;");
    let mut checker = TypeChecker::new();
    assert!(checker.check(&stmts).is_err());
    assert!(matches!(
        &checker.errors()[0],
        TypeError::AtToken { kind: TokenError::UnknownVariable { name: "y" }, line: 0, pos: 9 }
    ));
}

#[test]
fn checker_reports_shadowing() {
    let stmts = parse("int x;\nint x;\n");
    let mut checker = TypeChecker::new();
    assert!(checker.check(&stmts).is_err());
    assert!(matches!(
        &checker.errors()[0],
        TypeError::AtNode { kind: NodeError::VariableShadowing, line: 1, pos: 5 }
    ));
}

#[test]
fn checker_reports_inaccessible_variable() {
    let stmts = parse("void f() { { int x; } x; }");
    let mut checker = TypeChecker::new();
    assert!(checker.check(&stmts).is_err());
    assert!(matches!(
        &checker.errors()[0],
        TypeError::AtToken { kind: TokenError::InaccessibleVariable { name: "x" }, .. }
    ));
}

#[test]
fn checker_reports_condition_type() {
    let stmts = parse("void f() { if (1) { } }");
    let mut checker = TypeChecker::new();
    assert!(checker.check(&stmts).is_err());
    assert!(matches!(
        &checker.errors()[0],
        TypeError::AtNode { kind: NodeError::ExpectedBool, line: 0, pos: 16 }
    ));
}

#[test]
fn checker_reports_binary_mismatch() {
    let stmts = parse("int x = 1 + true;");
    let mut checker = TypeChecker::new();
    assert!(checker.check(&stmts).is_err());
    match &checker.errors()[0] {
        TypeError::Binary { l, op, r, .. } => {
            assert!(matches!(l, Type::Primary(PrimaryEnum::Int)));
            assert_eq!(*op, "+");
            assert!(matches!(r, Type::Primary(PrimaryEnum::Bool)));
        }
        other => panic!("unexpected error {:?}", other),
    }
}

#[test]
fn checker_reports_unary_on_non_bool() {
    let stmts = parse("bool b = !1;");
    let mut checker = TypeChecker::new();
    assert!(checker.check(&stmts).is_err());
    assert!(matches!(
        &checker.errors()[0],
        TypeError::Unary { op: "!", val: Type::Primary(PrimaryEnum::Int), .. }
    ));
}

#[test]
fn checker_reports_return_types() {
    let stmts = parse("int f() { return; }\nvoid g() { return 1; }\n");
    let mut checker = TypeChecker::new();
    assert!(checker.check(&stmts).is_err());
    let errors = checker.errors();
    assert_eq!(errors.len(), 2);
    assert!(matches!(&errors[0], TypeError::AtToken { kind: TokenError::ReturnVoid { .. }, .. }));
    assert!(matches!(&errors[1], TypeError::AtToken { kind: TokenError::ReturnType { .. }, .. }));
}

#[test]
fn checker_reports_argument_count_and_type() {
    let stmts = parse("void f(int a) { }\nvoid g() { f(true, 2); }\n");
    let mut checker = TypeChecker::new();
    assert!(checker.check(&stmts).is_err());
    let errors = checker.errors();
    assert!(errors.iter().any(|e| matches!(e, TypeError::ArgumentType { .. })));
    assert!(errors.len() + checker.unlocated().len() >= 2);
}

#[test]
fn checker_reports_bad_array_size() {
    let stmts = parse("void f() { int a[1.5]; }");
    let mut checker = TypeChecker::new();
    assert!(checker.check(&stmts).is_err());
    assert!(matches!(
        &checker.errors()[0],
        TypeError::AtToken { kind: TokenError::ArrayConstant { reason: IntErrorKind::InvalidDigit }, .. }
    ));
}

#[test]
fn checker_keeps_every_error_in_order() {
    let stmts = parse("int a = true;\nint b = c;\nbool d = 1;\n");
    let mut checker = TypeChecker::new();
    assert!(checker.check(&stmts).is_err());
    let errors = checker.errors();
    assert_eq!(errors.len(), 3);
    assert!(matches!(&errors[0], TypeError::AtToken { kind: TokenError::InitType { .. }, line: 0, .. }));
    assert!(matches!(&errors[1], TypeError::AtToken { kind: TokenError::UnknownVariable { .. }, line: 1, .. }));
    assert!(matches!(&errors[2], TypeError::AtToken { kind: TokenError::InitType { .. }, line: 2, .. }));
}

#[test]
fn checker_records_literal_types() {
    let stmts = parse("float f = 1.5;");
    let mut checker = TypeChecker::new();
    assert_eq!(checker.check(&stmts), Ok(()));
    assert!(checker.type_map.values().any(|t| matches!(t, Type::Primary(PrimaryEnum::Float))));
}

#[test]
fn checker_flags_non_type_specifiers() {
    let stmts = parse("x y;");
    assert!(!program_specs_are_types(&stmts));
    assert!(program_specs_are_types(&parse("int y;")));
}

#[test]
fn type_equality_is_structural() {
    let a = Type::Array(Box::new(Type::Primary(PrimaryEnum::Int)), Some(3));
    let b = Type::Array(Box::new(Type::Primary(PrimaryEnum::Int)), Some(3));
    let c = Type::Array(Box::new(Type::Primary(PrimaryEnum::Int)), None);
    assert!(a.equal(&b));
    assert!(!a.equal(&c));
    let f = Type::Function(Box::new(Type::Primary(PrimaryEnum::Void)), vec![a.duplicate()]);
    assert!(f.equal(&f.duplicate()));
    assert!(!f.equal(&a));
}

#[test]
fn checker_reports_call_of_non_function() {
    let stmts = parse("int x;\nvoid f() { x(1); }\n");
    let mut checker = TypeChecker::new();
    assert!(checker.check(&stmts).is_err());
    assert!(matches!(&checker.errors()[0], TypeError::NotCallable { at: Some((0, 5)) }));
}

#[test]
fn checker_reports_untyped_argument_and_return() {
    let stmts = parse("void f(int a) { }\nvoid g() { f(y); }\nint h() { return z; }\n");
    let mut checker = TypeChecker::new();
    assert!(checker.check(&stmts).is_err());
    let errors = checker.errors();
    assert!(errors.iter().any(|e| matches!(e, TypeError::UntypedArgument { .. })));
    assert!(errors.iter().any(|e| matches!(e, TypeError::AtToken { kind: TokenError::UntypedReturn, .. })));
}

#[test]
fn checker_reports_function_redefinition() {
    let stmts = parse("void f() { }\nvoid f() { }\n");
    let mut checker = TypeChecker::new();
    assert!(checker.check(&stmts).is_err());
    assert!(matches!(
        &checker.errors()[0],
        TypeError::AtNode { kind: NodeError::FunctionRedefinition, line: 1, pos: 6 }
    ));
}

#[test]
fn checker_reports_non_int_index() {
    let stmts = parse("void f() {\n  int a[3];\n  a[true];\n}\n");
    let mut checker = TypeChecker::new();
    assert!(checker.check(&stmts).is_err());
    assert!(matches!(&checker.errors()[0], TypeError::AtNode { kind: NodeError::ExpectedInt, line: 2, .. }));
}

#[test]
fn checker_reports_wrong_number_of_arguments() {
    let stmts = parse("void f(int a) { }\nvoid g() { f(1, 2); }\n");
    let mut checker = TypeChecker::new();
    assert!(checker.check(&stmts).is_err());
    assert!(matches!(&checker.errors()[0], TypeError::AtNode { kind: NodeError::WrongNumberOfArgs, .. }));
}
