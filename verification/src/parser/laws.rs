//! Precedence and associativity of the binary operators, as the grammar
//! reads them.
use vstd::prelude::*;

use crate::lexer::{Token, TokenType};
use crate::parser::grammar::{snode, p_statement, p_selection, p_expression_statement, dnode, p_declarator, p_direct_declarator, p_suffixes, node, p_eat, p_expr_bp, p_expression, p_operators, p_primary, p_unary, spec_infix_bp};
use crate::parser::model::{DeclKindM, DeclM, ExprKindM, ExprM, StmtKindM, StmtM};

verus! {

/// `+` and `-`.
pub open spec fn is_additive(t: TokenType) -> bool {
    t == TokenType::OpPlus || t == TokenType::OpMinus
}

/// `*` and `/`.
pub open spec fn is_multiplicative(t: TokenType) -> bool {
    t == TokenType::OpStar || t == TokenType::OpSlash
}

/// Three names with an operator between each two, `a op1 b op2 c`, that
/// make the whole input or are followed by `;`.
pub open spec fn names_and_operators<'a>(ts: Seq<Token<'a>>) -> bool {
    &&& ts.len() >= 5
    &&& ts[0].token_type == TokenType::Identifier
    &&& ts[2].token_type == TokenType::Identifier
    &&& ts[4].token_type == TokenType::Identifier
    &&& (ts.len() == 5 || ts[5].token_type == TokenType::Semicolon)
}

/// The name read from token `t`, as node `n`.
pub open spec fn name_node<'a>(t: Token<'a>, n: int) -> ExprM<'a> {
    node(ExprKindM::Identifier(t), n)
}

/// The binary operation `l op r`, as node `n`.
pub open spec fn binary_node<'a>(l: ExprM<'a>, op: Token<'a>, r: ExprM<'a>, n: int) -> ExprM<'a> {
    node(ExprKindM::BinaryOp { l: Box::new(l), op, r: Box::new(r) }, n)
}

proof fn lemma_name_operand<'a>(ts: Seq<Token<'a>>, c: int, n: int, min_bp: u8)
    requires
        0 <= c < ts.len(),
        ts[c].token_type == TokenType::Identifier,
    ensures
        p_unary(ts, c, n) == Ok::<(ExprM<'a>, int, int), crate::parser::ParseError<'a>>(
            (name_node(ts[c], n), c + 1, n + 1),
        ),
        p_expr_bp(ts, c, n, min_bp) == p_operators(ts, c + 1, n + 1, min_bp, name_node(ts[c], n)),
{
    assert(p_primary(ts, c, n) == Ok::<(ExprM<'a>, int, int), crate::parser::ParseError<'a>>(
        (name_node(ts[c], n), c + 1, n + 1),
    ));
}

/// How tightly a binary operator binds, from loosest to tightest: `+` and
/// `-`; `*` and `/`; `&&`; `||`; `=`. Other tokens are no binary operator.
pub open spec fn precedence(t: TokenType) -> int {
    if is_additive(t) {
        1
    } else if is_multiplicative(t) {
        2
    } else if t == TokenType::OpLogAnd {
        3
    } else if t == TokenType::OpLogOr {
        4
    } else if t == TokenType::OpEqual {
        5
    } else {
        0
    }
}

/// `a op b op c` reads as `a op (b op c)` for `=`, and as `(a op b) op c`
/// for the other operators.
pub open spec fn groups_right(t: TokenType) -> bool {
    t == TokenType::OpEqual
}

/// Whether in `a op1 b op2 c` the second operator takes the middle
/// operand: it binds tighter than the first, or as tightly and groups to
/// the right.
pub open spec fn takes_middle_right(op1: TokenType, op2: TokenType) -> bool {
    precedence(op1) < precedence(op2) || (precedence(op1) == precedence(op2) && groups_right(op2))
}

/// `a op1 (b op2 c)`, with the nodes numbered from `n` in the order they
/// are finished.
pub open spec fn nested_right<'a>(ts: Seq<Token<'a>>, n: int) -> ExprM<'a> {
    binary_node(
        name_node(ts[0], n),
        ts[1],
        binary_node(name_node(ts[2], n + 1), ts[3], name_node(ts[4], n + 2), n + 3),
        n + 4,
    )
}

/// `(a op1 b) op2 c`, with the nodes numbered from `n` in the order they
/// are finished.
pub open spec fn nested_left<'a>(ts: Seq<Token<'a>>, n: int) -> ExprM<'a> {
    binary_node(
        binary_node(name_node(ts[0], n), ts[1], name_node(ts[2], n + 1), n + 2),
        ts[3],
        name_node(ts[4], n + 3),
        n + 4,
    )
}

spec fn left_bp(t: TokenType) -> u8 {
    match spec_infix_bp(t) {
        Some((l, r)) => l,
        None => 0,
    }
}

spec fn right_bp(t: TokenType) -> u8 {
    match spec_infix_bp(t) {
        Some((l, r)) => r,
        None => 0,
    }
}

proof fn lemma_nesting<'a>(ts: Seq<Token<'a>>, n: int)
    requires
        names_and_operators(ts),
        precedence(ts[1].token_type) > 0,
        precedence(ts[3].token_type) > 0,
    ensures
        ({
            let r1 = right_bp(ts[1].token_type);
            let l2 = left_bp(ts[3].token_type);
            &&& l2 >= r1 ==> p_expression(ts, 0, n) == Ok::<(ExprM<'a>, int, int), crate::parser::ParseError<'a>>(
                (nested_right(ts, n), 5, n + 5),
            )
            &&& !(l2 >= r1) ==> p_expression(ts, 0, n) == Ok::<(ExprM<'a>, int, int), crate::parser::ParseError<'a>>(
                (nested_left(ts, n), 5, n + 5),
            )
        }),
{
    let r1 = right_bp(ts[1].token_type);
    let r2 = right_bp(ts[3].token_type);
    let l2 = left_bp(ts[3].token_type);
    let a = name_node(ts[0], n);
    if l2 >= r1 {
        lemma_name_operand(ts, 4, n + 2, r2);
        let c = name_node(ts[4], n + 2);
        assert(p_operators(ts, 5, n + 3, r2, c) == Ok::<(ExprM<'a>, int, int), crate::parser::ParseError<'a>>((c, 5, n + 3)));
        let bc = binary_node(name_node(ts[2], n + 1), ts[3], c, n + 3);
        assert(p_operators(ts, 5, n + 4, r1, bc) == Ok::<(ExprM<'a>, int, int), crate::parser::ParseError<'a>>((bc, 5, n + 4)));
        lemma_name_operand(ts, 2, n + 1, r1);
        assert(p_operators(ts, 3, n + 2, r1, name_node(ts[2], n + 1)) == Ok::<(ExprM<'a>, int, int), crate::parser::ParseError<'a>>((bc, 5, n + 4)));
        let top = binary_node(a, ts[1], bc, n + 4);
        assert(p_operators(ts, 5, n + 5, 0, top) == Ok::<(ExprM<'a>, int, int), crate::parser::ParseError<'a>>((top, 5, n + 5)));
        lemma_name_operand(ts, 0, n, 0);
        assert(p_operators(ts, 1, n + 1, 0, a) == Ok::<(ExprM<'a>, int, int), crate::parser::ParseError<'a>>((top, 5, n + 5)));
    } else {
        lemma_name_operand(ts, 2, n + 1, r1);
        let b = name_node(ts[2], n + 1);
        assert(p_operators(ts, 3, n + 2, r1, b) == Ok::<(ExprM<'a>, int, int), crate::parser::ParseError<'a>>((b, 3, n + 2)));
        let ab = binary_node(a, ts[1], b, n + 2);
        lemma_name_operand(ts, 4, n + 3, r2);
        let c = name_node(ts[4], n + 3);
        assert(p_operators(ts, 5, n + 4, r2, c) == Ok::<(ExprM<'a>, int, int), crate::parser::ParseError<'a>>((c, 5, n + 4)));
        let top = binary_node(ab, ts[3], c, n + 4);
        assert(p_operators(ts, 5, n + 5, 0, top) == Ok::<(ExprM<'a>, int, int), crate::parser::ParseError<'a>>((top, 5, n + 5)));
        assert(p_operators(ts, 3, n + 3, 0, ab) == Ok::<(ExprM<'a>, int, int), crate::parser::ParseError<'a>>((top, 5, n + 5)));
        lemma_name_operand(ts, 0, n, 0);
        assert(p_operators(ts, 1, n + 1, 0, a) == Ok::<(ExprM<'a>, int, int), crate::parser::ParseError<'a>>((top, 5, n + 5)));
    }
}

/// Precedence and associativity: in `a op1 b op2 c` the operator that
/// binds tighter takes the middle operand (`a + b / c` reads as
/// `a + (b / c)`, `a / b + c` as `(a / b) + c`); between two operators of
/// one level `=` groups to the right (`a = b = c` is `a = (b = c)`) and the
/// others to the left (`a / b * c` is `(a / b) * c`). Every infix operator
/// makes a binary operation node.
pub proof fn lemma_operator_precedence<'a>(ts: Seq<Token<'a>>, n: int)
    requires
        names_and_operators(ts),
        precedence(ts[1].token_type) > 0,
        precedence(ts[3].token_type) > 0,
    ensures
        ({
            &&& takes_middle_right(ts[1].token_type, ts[3].token_type) ==> p_expression(ts, 0, n)
                == Ok::<(ExprM<'a>, int, int), crate::parser::ParseError<'a>>(
                (nested_right(ts, n), 5, n + 5),
            )
            &&& !takes_middle_right(ts[1].token_type, ts[3].token_type) ==> p_expression(ts, 0, n)
                == Ok::<(ExprM<'a>, int, int), crate::parser::ParseError<'a>>(
                (nested_left(ts, n), 5, n + 5),
            )
        }),
{
    lemma_nesting(ts, n);
}

/// `!` followed by a name, a binary operator and a name, followed by `;`
/// or nothing.
pub open spec fn negated_operand<'a>(ts: Seq<Token<'a>>) -> bool {
    &&& ts.len() >= 4
    &&& ts[0].token_type == TokenType::OpExclaim
    &&& ts[1].token_type == TokenType::Identifier
    &&& precedence(ts[2].token_type) > 0
    &&& ts[3].token_type == TokenType::Identifier
    &&& (ts.len() == 4 || ts[4].token_type == TokenType::Semicolon)
}

/// `!` binds tighter than every binary operator but `=`: `!a op b` reads
/// as `(!a) op b`, and `!a = b` as `!(a = b)`.
pub proof fn lemma_not_binds_tight<'a>(ts: Seq<Token<'a>>, n: int)
    requires
        negated_operand(ts),
    ensures
        ({
            let not_a = |x: ExprM<'a>, m: int| node(ExprKindM::UnaryOp { op: ts[0], val: Box::new(x) }, m);
            &&& !groups_right(ts[2].token_type) ==> p_expression(ts, 0, n) == Ok::<
                (ExprM<'a>, int, int),
                crate::parser::ParseError<'a>,
            >(
                (
                    binary_node(not_a(name_node(ts[1], n), n + 1), ts[2], name_node(ts[3], n + 2), n + 3),
                    4,
                    n + 4,
                ),
            )
            &&& groups_right(ts[2].token_type) ==> p_expression(ts, 0, n) == Ok::<
                (ExprM<'a>, int, int),
                crate::parser::ParseError<'a>,
            >(
                (
                    not_a(binary_node(name_node(ts[1], n), ts[2], name_node(ts[3], n + 1), n + 2), n + 3),
                    4,
                    n + 4,
                ),
            )
        }),
{
    let r2 = right_bp(ts[2].token_type);
    let a = name_node(ts[1], n);
    lemma_name_operand(ts, 1, n, 15);
    if !groups_right(ts[2].token_type) {
        assert(p_operators(ts, 2, n + 1, 15, a) == Ok::<(ExprM<'a>, int, int), crate::parser::ParseError<'a>>((a, 2, n + 1)));
        let u = node(ExprKindM::UnaryOp { op: ts[0], val: Box::new(a) }, n + 1);
        assert(p_unary(ts, 0, n) == Ok::<(ExprM<'a>, int, int), crate::parser::ParseError<'a>>((u, 2, n + 2)));
        lemma_name_operand(ts, 3, n + 2, r2);
        let b = name_node(ts[3], n + 2);
        assert(p_operators(ts, 4, n + 3, r2, b) == Ok::<(ExprM<'a>, int, int), crate::parser::ParseError<'a>>((b, 4, n + 3)));
        let top = binary_node(u, ts[2], b, n + 3);
        assert(p_operators(ts, 4, n + 4, 0, top) == Ok::<(ExprM<'a>, int, int), crate::parser::ParseError<'a>>((top, 4, n + 4)));
        assert(p_operators(ts, 2, n + 2, 0, u) == Ok::<(ExprM<'a>, int, int), crate::parser::ParseError<'a>>((top, 4, n + 4)));
    } else {
        lemma_name_operand(ts, 3, n + 1, r2);
        let b = name_node(ts[3], n + 1);
        assert(p_operators(ts, 4, n + 2, r2, b) == Ok::<(ExprM<'a>, int, int), crate::parser::ParseError<'a>>((b, 4, n + 2)));
        let ab = binary_node(a, ts[2], b, n + 2);
        assert(p_operators(ts, 4, n + 3, 15, ab) == Ok::<(ExprM<'a>, int, int), crate::parser::ParseError<'a>>((ab, 4, n + 3)));
        assert(p_operators(ts, 2, n + 1, 15, a) == Ok::<(ExprM<'a>, int, int), crate::parser::ParseError<'a>>((ab, 4, n + 3)));
        let u = node(ExprKindM::UnaryOp { op: ts[0], val: Box::new(ab) }, n + 3);
        assert(p_unary(ts, 0, n) == Ok::<(ExprM<'a>, int, int), crate::parser::ParseError<'a>>((u, 4, n + 4)));
        assert(p_operators(ts, 4, n + 4, 0, u) == Ok::<(ExprM<'a>, int, int), crate::parser::ParseError<'a>>((u, 4, n + 4)));
    }
}

/// `( a op1 b ) op2 c`, followed by `;` or nothing.
pub open spec fn grouped_first<'a>(ts: Seq<Token<'a>>) -> bool {
    &&& ts.len() >= 7
    &&& ts[0].token_type == TokenType::Lparen
    &&& ts[1].token_type == TokenType::Identifier
    &&& precedence(ts[2].token_type) > 0
    &&& ts[3].token_type == TokenType::Identifier
    &&& ts[4].token_type == TokenType::Rparen
    &&& precedence(ts[5].token_type) > 0
    &&& ts[6].token_type == TokenType::Identifier
    &&& (ts.len() == 7 || ts[7].token_type == TokenType::Semicolon)
}

/// Parentheses group whatever the operators: `(a op1 b) op2 c` reads as
/// the group `(a op1 b)` with `op2 c` applied to it, for every pair of
/// binary operators.
pub proof fn lemma_parentheses_group<'a>(ts: Seq<Token<'a>>, n: int)
    requires
        grouped_first(ts),
    ensures
        p_expression(ts, 0, n) == Ok::<(ExprM<'a>, int, int), crate::parser::ParseError<'a>>(
            (
                binary_node(
                    node(
                        ExprKindM::Group(
                            Box::new(
                                binary_node(name_node(ts[1], n), ts[2], name_node(ts[3], n + 1), n + 2),
                            ),
                        ),
                        n + 3,
                    ),
                    ts[5],
                    name_node(ts[6], n + 4),
                    n + 5,
                ),
                7,
                n + 6,
            ),
        ),
{
    let r1 = right_bp(ts[2].token_type);
    let r2 = right_bp(ts[5].token_type);
    let a = name_node(ts[1], n);
    lemma_name_operand(ts, 3, n + 1, r1);
    let b = name_node(ts[3], n + 1);
    assert(p_operators(ts, 4, n + 2, r1, b) == Ok::<(ExprM<'a>, int, int), crate::parser::ParseError<'a>>((b, 4, n + 2)));
    let ab = binary_node(a, ts[2], b, n + 2);
    assert(p_operators(ts, 4, n + 3, 0, ab) == Ok::<(ExprM<'a>, int, int), crate::parser::ParseError<'a>>((ab, 4, n + 3)));
    lemma_name_operand(ts, 1, n, 0);
    assert(p_operators(ts, 2, n + 1, 0, a) == Ok::<(ExprM<'a>, int, int), crate::parser::ParseError<'a>>((ab, 4, n + 3)));
    assert(p_expression(ts, 1, n) == Ok::<(ExprM<'a>, int, int), crate::parser::ParseError<'a>>((ab, 4, n + 3)));
    assert(p_eat(ts, 4, TokenType::Rparen) == Ok::<int, crate::parser::ParseError<'a>>(5));
    let g = node(ExprKindM::Group(Box::new(ab)), n + 3);
    assert(p_primary(ts, 0, n) == Ok::<(ExprM<'a>, int, int), crate::parser::ParseError<'a>>((g, 5, n + 4)));
    assert(p_unary(ts, 0, n) == Ok::<(ExprM<'a>, int, int), crate::parser::ParseError<'a>>((g, 5, n + 4)));
    lemma_name_operand(ts, 6, n + 4, r2);
    let c = name_node(ts[6], n + 4);
    assert(p_operators(ts, 7, n + 5, r2, c) == Ok::<(ExprM<'a>, int, int), crate::parser::ParseError<'a>>((c, 7, n + 5)));
    let top = binary_node(g, ts[5], c, n + 5);
    assert(p_operators(ts, 7, n + 6, 0, top) == Ok::<(ExprM<'a>, int, int), crate::parser::ParseError<'a>>((top, 7, n + 6)));
    assert(p_operators(ts, 5, n + 4, 0, g) == Ok::<(ExprM<'a>, int, int), crate::parser::ParseError<'a>>((top, 7, n + 6)));
}

/// Declarators: `name [ k ]` declares an array of size token `k` named
/// `name`, and `* name [ k ]` a pointer whose target is that whole array
/// declarator (a `*` takes in the suffixes after it). Either is followed by
/// `;` or nothing.
pub proof fn lemma_declarators<'a>(ts: Seq<Token<'a>>, c: int, n: int)
    requires
        0 <= c,
        c + 4 <= ts.len(),
        ts[c + 1].token_type == TokenType::Lbracket,
        ts[c + 2].token_type != TokenType::Rbracket,
        ts[c + 3].token_type == TokenType::Rbracket,
        c + 4 == ts.len() || ts[c + 4].token_type == TokenType::Semicolon,
    ensures
        ({
            let array = |m: int|
                dnode(
                    DeclKindM::Array {
                        decl: Box::new(dnode(DeclKindM::Identifier(ts[c]), m)),
                        constant: Some(ts[c + 2]),
                    },
                    m + 1,
                );
            &&& ts[c].token_type == TokenType::Identifier ==> p_declarator(ts, c, n) == Ok::<
                (DeclM<'a>, int, int),
                crate::parser::ParseError<'a>,
            >((array(n), c + 4, n + 2))
            &&& c >= 1 && ts[c - 1].token_type == TokenType::OpStar && ts[c].token_type
                == TokenType::Identifier ==> p_declarator(ts, c - 1, n) == Ok::<
                (DeclM<'a>, int, int),
                crate::parser::ParseError<'a>,
            >((dnode(DeclKindM::Pointer(Box::new(array(n))), n + 2), c + 4, n + 3))
        }),
{
    if ts[c].token_type == TokenType::Identifier {
        let id = dnode(DeclKindM::Identifier(ts[c]), n);
        let arr = dnode(DeclKindM::Array { decl: Box::new(id), constant: Some(ts[c + 2]) }, n + 1);
        assert(p_suffixes(ts, c + 4, n + 2, 0, arr) == Ok::<(DeclM<'a>, int, int), crate::parser::ParseError<'a>>((arr, c + 4, n + 2)));
        assert(p_eat(ts, c + 3, TokenType::Rbracket) == Ok::<int, crate::parser::ParseError<'a>>(c + 4));
        assert(p_suffixes(ts, c + 1, n + 1, 0, id) == Ok::<(DeclM<'a>, int, int), crate::parser::ParseError<'a>>((arr, c + 4, n + 2)));
        assert(p_direct_declarator(ts, c, n, 0) == Ok::<(DeclM<'a>, int, int), crate::parser::ParseError<'a>>((arr, c + 4, n + 2)));
        if c >= 1 && ts[c - 1].token_type == TokenType::OpStar {
            let ptr = dnode(DeclKindM::Pointer(Box::new(arr)), n + 2);
            assert(p_suffixes(ts, c + 4, n + 3, 0, ptr) == Ok::<(DeclM<'a>, int, int), crate::parser::ParseError<'a>>((ptr, c + 4, n + 3)));
            assert(p_direct_declarator(ts, c - 1, n, 0) == Ok::<(DeclM<'a>, int, int), crate::parser::ParseError<'a>>((ptr, c + 4, n + 3)));
        }
    }
}

/// `if ( a ) if ( b ) x ; else y ;` with names `a`, `b`, `x`, `y`, and no
/// further `else` after it.
pub open spec fn nested_if_else<'a>(ts: Seq<Token<'a>>) -> bool {
    &&& ts.len() >= 13
    &&& ts[0].token_type == TokenType::KwIf
    &&& ts[1].token_type == TokenType::Lparen
    &&& ts[2].token_type == TokenType::Identifier
    &&& ts[3].token_type == TokenType::Rparen
    &&& ts[4].token_type == TokenType::KwIf
    &&& ts[5].token_type == TokenType::Lparen
    &&& ts[6].token_type == TokenType::Identifier
    &&& ts[7].token_type == TokenType::Rparen
    &&& ts[8].token_type == TokenType::Identifier
    &&& ts[9].token_type == TokenType::Semicolon
    &&& ts[10].token_type == TokenType::KwElse
    &&& ts[11].token_type == TokenType::Identifier
    &&& ts[12].token_type == TokenType::Semicolon
    &&& (ts.len() == 13 || ts[13].token_type != TokenType::KwElse)
}

/// An `else` belongs to the nearest `if` before it: in
/// `if (a) if (b) x; else y;` the `else y;` is the inner `if`'s, and the
/// outer `if` has none.
pub proof fn lemma_else_binds_nearest<'a>(ts: Seq<Token<'a>>, n: int)
    requires
        nested_if_else(ts),
    ensures
        ({
            let expr_stmt = |t: Token<'a>, m: int|
                snode(StmtKindM::Expression(name_node(t, m)), m + 1);
            let inner = snode(
                StmtKindM::If {
                    debug: ts[4],
                    cond: name_node(ts[6], n + 1),
                    stmt: Box::new(expr_stmt(ts[8], n + 2)),
                    otherwise: Some(Box::new(expr_stmt(ts[11], n + 4))),
                },
                n + 6,
            );
            p_statement(ts, 0, n) == Ok::<(StmtM<'a>, int, int), crate::parser::ParseError<'a>>(
                (
                    snode(
                        StmtKindM::If {
                            debug: ts[0],
                            cond: name_node(ts[2], n),
                            stmt: Box::new(inner),
                            otherwise: None,
                        },
                        n + 7,
                    ),
                    13,
                    n + 8,
                ),
            )
        }),
{
    lemma_name_operand(ts, 2, n, 0);
    assert(p_expression(ts, 2, n) == Ok::<(ExprM<'a>, int, int), crate::parser::ParseError<'a>>((name_node(ts[2], n), 3, n + 1)));
    lemma_name_operand(ts, 6, n + 1, 0);
    assert(p_expression(ts, 6, n + 1) == Ok::<(ExprM<'a>, int, int), crate::parser::ParseError<'a>>((name_node(ts[6], n + 1), 7, n + 2)));
    lemma_name_operand(ts, 8, n + 2, 0);
    assert(p_expression(ts, 8, n + 2) == Ok::<(ExprM<'a>, int, int), crate::parser::ParseError<'a>>((name_node(ts[8], n + 2), 9, n + 3)));
    let x = snode(StmtKindM::Expression(name_node(ts[8], n + 2)), n + 3);
    assert(p_expression_statement(ts, 8, n + 2) == Ok::<(StmtM<'a>, int, int), crate::parser::ParseError<'a>>((x, 10, n + 4)));
    assert(p_statement(ts, 8, n + 2) == Ok::<(StmtM<'a>, int, int), crate::parser::ParseError<'a>>((x, 10, n + 4)));
    lemma_name_operand(ts, 11, n + 4, 0);
    assert(p_expression(ts, 11, n + 4) == Ok::<(ExprM<'a>, int, int), crate::parser::ParseError<'a>>((name_node(ts[11], n + 4), 12, n + 5)));
    let y = snode(StmtKindM::Expression(name_node(ts[11], n + 4)), n + 5);
    assert(p_expression_statement(ts, 11, n + 4) == Ok::<(StmtM<'a>, int, int), crate::parser::ParseError<'a>>((y, 13, n + 6)));
    assert(p_statement(ts, 11, n + 4) == Ok::<(StmtM<'a>, int, int), crate::parser::ParseError<'a>>((y, 13, n + 6)));
    let inner = snode(
        StmtKindM::If {
            debug: ts[4],
            cond: name_node(ts[6], n + 1),
            stmt: Box::new(x),
            otherwise: Some(Box::new(y)),
        },
        n + 6,
    );
    assert(p_selection(ts, 4, n + 1) == Ok::<(StmtM<'a>, int, int), crate::parser::ParseError<'a>>((inner, 13, n + 7)));
    assert(p_statement(ts, 4, n + 1) == Ok::<(StmtM<'a>, int, int), crate::parser::ParseError<'a>>((inner, 13, n + 7)));
    assert(p_selection(ts, 0, n) == p_statement(ts, 0, n));
}

} // verus!
