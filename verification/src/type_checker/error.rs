//! What the type checker reports. The reports are generic over how a type
//! is held: the checker stores `Type`s, its contracts speak of `TypeModel`s.
use vstd::prelude::*;

use crate::parser::literal::IntErrorKind;
use crate::type_checker::annotation::{Type, TypeModel};

verus! {

/// Errors reported at the position of a declaration or expression node.
#[derive(Debug, Clone, Copy, PartialEq, Eq, Structural)]
pub enum NodeError {
    /// "Function redefinition is not allowed"
    FunctionRedefinition,
    /// "Wrong number of arguments!"
    WrongNumberOfArgs,
    /// "Variable shadowing are not allowed"
    VariableShadowing,
    /// "Expected bool type"
    ExpectedBool,
    /// "Wrong type used, expected int"
    ExpectedInt,
}

/// Errors reported at the position of a token.
#[derive(Debug)]
pub enum TokenError<'a, T> {
    /// A variable's initializer has another type than the variable.
    InitType { expected: T, got: T },
    /// An array size that is not a `usize` literal.
    ArrayConstant { reason: IntErrorKind },
    /// `return;` in a function that does not return `void`.
    ReturnVoid { expected: T },
    /// A returned value of another type than the function's.
    ReturnType { expected: T, got: T },
    /// A name that nothing declares.
    UnknownVariable { name: &'a str },
    /// A name declared in a deeper scope.
    InaccessibleVariable { name: &'a str },
    /// `return` outside any function.
    ReturnOutsideFunction,
    /// A returned expression that has no type.
    UntypedReturn,
}

/// One type error, with the line and column it is reported at.
#[allow(inconsistent_fields)]
#[derive(Debug)]
pub enum TypeError<'a, T> {
    AtNode { kind: NodeError, line: u16, pos: usize },
    AtToken { kind: TokenError<'a, T>, line: u16, pos: usize },
    /// An argument whose type is not the parameter's; `ctx_*` is the
    /// position of the called name.
    ArgumentType { expected: T, got: T, line: u16, pos: usize, ctx_line: u16, ctx_pos: usize },
    /// `!` applied to a value that is not a `bool`.
    Unary { op: &'a str, val: T, line: u16, pos: usize },
    /// A binary operation on two values of different types.
    Binary { l: T, op: &'a str, r: T, line: u16, pos: usize },
    /// A call of something that is not a function; the position of the
    /// called name, when known.
    NotCallable { at: Option<(u16, usize)> },
    /// A call argument that has no type; the position of the argument,
    /// when known.
    UntypedArgument { at: Option<(u16, usize)> },
    /// Scopes nested deeper than the depth counter can count.
    TooDeep,
}

pub open spec fn token_error_model<'a>(e: TokenError<'a, Type>) -> TokenError<'a, TypeModel> {
    match e {
        TokenError::InitType { expected, got } => TokenError::InitType {
            expected: expected@,
            got: got@,
        },
        TokenError::ArrayConstant { reason } => TokenError::ArrayConstant { reason },
        TokenError::ReturnVoid { expected } => TokenError::ReturnVoid { expected: expected@ },
        TokenError::ReturnType { expected, got } => TokenError::ReturnType {
            expected: expected@,
            got: got@,
        },
        TokenError::UnknownVariable { name } => TokenError::UnknownVariable { name },
        TokenError::InaccessibleVariable { name } => TokenError::InaccessibleVariable { name },
        TokenError::ReturnOutsideFunction => TokenError::ReturnOutsideFunction,
        TokenError::UntypedReturn => TokenError::UntypedReturn,
    }
}

/// The report with each type replaced by its model.
pub open spec fn error_model<'a>(e: TypeError<'a, Type>) -> TypeError<'a, TypeModel> {
    match e {
        TypeError::AtNode { kind, line, pos } => TypeError::AtNode { kind, line, pos },
        TypeError::AtToken { kind, line, pos } => TypeError::AtToken {
            kind: token_error_model(kind),
            line,
            pos,
        },
        TypeError::ArgumentType { expected, got, line, pos, ctx_line, ctx_pos } =>
            TypeError::ArgumentType { expected: expected@, got: got@, line, pos, ctx_line, ctx_pos },
        TypeError::Unary { op, val, line, pos } => TypeError::Unary { op, val: val@, line, pos },
        TypeError::Binary { l, op, r, line, pos } => TypeError::Binary {
            l: l@,
            op,
            r: r@,
            line,
            pos,
        },
        TypeError::NotCallable { at } => TypeError::NotCallable { at },
        TypeError::UntypedArgument { at } => TypeError::UntypedArgument { at },
        TypeError::TooDeep => TypeError::TooDeep,
    }
}

} // verus!
