//! Properties of the checker's walk that hold of every program.
use vstd::prelude::*;

use crate::parser::ast::{Expr, ExprKind, Param, Stmt, StmtKind, TopLevelStmt, TopLevelStmtKind, Decl, DeclKind};
use crate::type_checker::annotation::{PrimaryEnum, TypeID, TypeModel};
use crate::type_checker::error::{NodeError, TokenError, TypeError};
use crate::lexer::{Token, TokenType};
use crate::type_checker::rules::{
    rule_arguments, rule_compare, rule_condition, rule_declaration, rule_expression,
    rule_function_definition, rule_operands, rule_parameters_compare, rule_params, rule_program,
    rule_statement, rule_statements, rule_top_level, rule_variable_definition, rule_array_definition,
    primary, CheckState,
};

verus! {

/// `a` is a prefix of `b`.
pub open spec fn extends<T>(a: Seq<T>, b: Seq<T>) -> bool {
    a.len() <= b.len() && forall|i: int| 0 <= i < a.len() ==> #[trigger] a[i] == b[i]
}

/// Nothing reported before is taken back.
pub open spec fn reports_kept(s: CheckState, t: CheckState) -> bool {
    extends(s.errors, t.errors) && extends(s.unlocated, t.unlocated)
}

/// Reports kept, and the visible names, the depth and the current
/// function's type unchanged.
pub open spec fn scope_kept(s: CheckState, t: CheckState) -> bool {
    &&& reports_kept(s, t)
    &&& t.vars == s.vars
    &&& t.depth == s.depth
    &&& t.last_func == s.last_func
}

/// Keeping the scope is transitive.
pub proof fn lemma_scope_kept_trans(a: CheckState, b: CheckState, c: CheckState)
    requires
        scope_kept(a, b),
        scope_kept(b, c),
    ensures
        scope_kept(a, c),
{
    assert forall|i: int| 0 <= i < a.errors.len() implies #[trigger] a.errors[i] == c.errors[i] by {
        assert(a.errors[i] == b.errors[i]);
    }
    assert forall|i: int| 0 <= i < a.unlocated.len() implies #[trigger] a.unlocated[i]
        == c.unlocated[i] by {
        assert(a.unlocated[i] == b.unlocated[i]);
    }
}

/// Keeping the reports is transitive.
pub proof fn lemma_reports_kept_trans(a: CheckState, b: CheckState, c: CheckState)
    requires
        reports_kept(a, b),
        reports_kept(b, c),
    ensures
        reports_kept(a, c),
{
    assert forall|i: int| 0 <= i < a.errors.len() implies #[trigger] a.errors[i] == c.errors[i] by {
        assert(a.errors[i] == b.errors[i]);
    }
    assert forall|i: int| 0 <= i < a.unlocated.len() implies #[trigger] a.unlocated[i]
        == c.unlocated[i] by {
        assert(a.unlocated[i] == b.unlocated[i]);
    }
}

/// Checking an expression declares nothing, leaves the depth and the
/// current function alone, and takes back no report.
pub proof fn lemma_expression_keeps_scope(s: CheckState, e: Expr)
    ensures
        scope_kept(s, rule_expression(s, e).0),
    decreases e, 1int,
{
    match e.kind {
        ExprKind::Call { identifier, arguments } => {
            lemma_expression_keeps_scope(s, *identifier);
            let (s1, callee) = rule_expression(s, *identifier);
            vstd::std_specs::vec::axiom_vec_decreases_to_view(arguments);
            lemma_parameters_compare_keeps_scope(s1, callee, arguments@);
            lemma_scope_kept_trans(s, s1, rule_parameters_compare(s1, callee, arguments@));
        },
        ExprKind::Index { identifier, argument } => {
            lemma_expression_keeps_scope(s, *argument);
            let (s1, a) = rule_expression(s, *argument);
            let s2 = match s1.type_of(a) {
                Some(t) => if t != TypeModel::Primary(crate::type_checker::annotation::PrimaryEnum::Int) {
                    crate::type_checker::rules::rule_error(s1, a, crate::type_checker::error::NodeError::ExpectedInt)
                } else {
                    s1
                },
                None => s1,
            };
            lemma_expression_keeps_scope(s2, *identifier);
            lemma_scope_kept_trans(s, s1, s2);
            lemma_scope_kept_trans(s, s2, rule_expression(s2, *identifier).0);
        },
        ExprKind::UnaryOp { op, val } => {
            lemma_expression_keeps_scope(s, *val);
            let (s1, v) = rule_expression(s, *val);
            lemma_scope_kept_trans(s, s1, rule_expression(s, e).0);
        },
        ExprKind::BinaryOp { l, op, r } => {
            lemma_expression_keeps_scope(s, *l);
            let (s1, lid) = rule_expression(s, *l);
            lemma_expression_keeps_scope(s1, *r);
            let (s2, rid) = rule_expression(s1, *r);
            lemma_scope_kept_trans(s, s1, s2);
            lemma_scope_kept_trans(s, s2, rule_operands(s2, lid, op, rid));
        },
        ExprKind::LogicalOp { l, op, r } => {
            lemma_expression_keeps_scope(s, *l);
            let (s1, lid) = rule_expression(s, *l);
            lemma_expression_keeps_scope(s1, *r);
            let (s2, rid) = rule_expression(s1, *r);
            lemma_scope_kept_trans(s, s1, s2);
            lemma_scope_kept_trans(s, s2, rule_operands(s2, lid, op, rid));
        },
        ExprKind::Assignment { l, op, r } => {
            lemma_expression_keeps_scope(s, *l);
            let (s1, lid) = rule_expression(s, *l);
            lemma_expression_keeps_scope(s1, *r);
            let (s2, rid) = rule_expression(s1, *r);
            lemma_scope_kept_trans(s, s1, s2);
            lemma_scope_kept_trans(s, s2, rule_operands(s2, lid, op, rid));
        },
        ExprKind::Group(g) => {
            lemma_expression_keeps_scope(s, *g);
        },
        _ => {},
    }
}

/// Checking call arguments declares nothing and takes back no report.
pub proof fn lemma_arguments_keep_scope(s: CheckState, args: Seq<Expr>)
    ensures
        scope_kept(s, rule_arguments(s, args).0),
    decreases args, 0int,
{
    if args.len() > 0 {
        lemma_arguments_keep_scope(s, args.drop_last());
        let s1 = rule_arguments(s, args.drop_last()).0;
        lemma_expression_keeps_scope(s1, args.last());
        lemma_scope_kept_trans(s, s1, rule_expression(s1, args.last()).0);
    }
}

/// Comparing a call's arguments with the callee's parameters declares
/// nothing and takes back no report.
pub proof fn lemma_parameters_compare_keeps_scope(s: CheckState, callee: TypeID, args: Seq<Expr>)
    ensures
        scope_kept(s, rule_parameters_compare(s, callee, args)),
    decreases args, 1int,
{
    lemma_arguments_keep_scope(s, args);
    let (s1, ids) = rule_arguments(s, args);
    match s1.type_of(callee) {
        Some(TypeModel::Function(_, params)) => {
            let s2 = if args.len() != params.len() {
                crate::type_checker::rules::rule_error(s1, callee, crate::type_checker::error::NodeError::WrongNumberOfArgs)
            } else {
                s1
            };
            lemma_compare_keeps_scope(s2, callee, params, ids);
            lemma_scope_kept_trans(s, s1, s2);
            lemma_scope_kept_trans(s, s2, rule_compare(s2, callee, params, ids));
        },
        _ => {
            lemma_scope_kept_trans(s, s1, rule_parameters_compare(s, callee, args));
        },
    }
}

/// Comparing argument types with parameter types declares nothing and
/// takes back no report.
pub proof fn lemma_compare_keeps_scope(s: CheckState, callee: TypeID, params: Seq<TypeModel>, ids: Seq<TypeID>)
    ensures
        scope_kept(s, rule_compare(s, callee, params, ids)),
    decreases ids.len(),
{
    if ids.len() > 0 {
        lemma_compare_keeps_scope(s, callee, params, ids.drop_last());
        let s1 = rule_compare(s, callee, params, ids.drop_last());
        lemma_scope_kept_trans(s, s1, rule_compare(s, callee, params, ids));
    }
}

/// Defining a variable takes back no report and leaves the depth and the
/// current function alone.
pub proof fn lemma_variable_definition_keeps_reports<'a>(
    s: CheckState<'a>,
    type_spec: crate::lexer::Token<'a>,
    init: Option<Expr<'a>>,
    id: TypeID,
    name: Seq<char>,
)
    ensures
        reports_kept(s, rule_variable_definition(s, type_spec, init, id, name)),
        rule_variable_definition(s, type_spec, init, id, name).depth == s.depth,
        rule_variable_definition(s, type_spec, init, id, name).last_func == s.last_func,
{
    if let Some(e) = init {
        lemma_expression_keeps_scope(s, e);
    }
}

/// Checking a declarator takes back no report and leaves the depth and
/// the current function alone.
pub proof fn lemma_declaration_keeps_reports<'a>(s: CheckState<'a>, d: Decl<'a>, type_spec: crate::lexer::Token<'a>)
    ensures
        reports_kept(s, rule_declaration(s, d, type_spec).0),
        rule_declaration(s, d, type_spec).0.depth == s.depth,
        rule_declaration(s, d, type_spec).0.last_func == s.last_func,
    decreases d, 0int,
{
    match d.kind {
        DeclKind::Group(g) => lemma_declaration_keeps_reports(s, *g, type_spec),
        DeclKind::Pointer(g) => lemma_declaration_keeps_reports(s, *g, type_spec),
        DeclKind::Function { decl, params } => {
            lemma_declaration_keeps_reports(s, *decl, type_spec);
            let (s1, r) = rule_declaration(s, *decl, type_spec);
            vstd::std_specs::vec::axiom_vec_decreases_to_view(params);
            lemma_function_definition_keeps_reports(
                s1,
                crate::type_checker::rules::primary(type_spec),
                params@,
                d.id,
                r.1,
            );
        },
        DeclKind::Array { decl, .. } => lemma_declaration_keeps_reports(s, *decl, type_spec),
        DeclKind::Identifier(_) => {},
    }
}

/// Defining a function takes back no report and leaves the depth and the
/// current function alone.
pub proof fn lemma_function_definition_keeps_reports<'a>(
    s: CheckState<'a>,
    ret: TypeModel,
    params: Seq<Param<'a>>,
    id: TypeID,
    name: Seq<char>,
)
    ensures
        reports_kept(s, rule_function_definition(s, ret, params, id, name)),
        rule_function_definition(s, ret, params, id, name).depth == s.depth,
        rule_function_definition(s, ret, params, id, name).last_func == s.last_func,
    decreases params, 1int,
{
    if !s.vars.contains_key(name) && s.depth != usize::MAX {
        lemma_params_keep_reports(s.with_depth((s.depth + 1) as usize), params);
    }
}

/// Checking parameters takes back no report and leaves the depth and the
/// current function alone.
pub proof fn lemma_params_keep_reports<'a>(s: CheckState<'a>, params: Seq<Param<'a>>)
    ensures
        reports_kept(s, rule_params(s, params)),
        rule_params(s, params).depth == s.depth,
        rule_params(s, params).last_func == s.last_func,
    decreases params, 0int,
{
    if params.len() > 0 {
        lemma_params_keep_reports(s, params.drop_last());
        let s1 = rule_params(s, params.drop_last());
        let p = params.last();
        if let Some(d) = p.decl {
            lemma_declaration_keeps_reports(s1, d, p.type_spec);
            let (s2, (id, name)) = rule_declaration(s1, d, p.type_spec);
            lemma_variable_definition_keeps_reports(s2, p.type_spec, p.init, id, name);
            lemma_reports_kept_trans(s, s1, s2);
            lemma_reports_kept_trans(s, s2, rule_variable_definition(s2, p.type_spec, p.init, id, name));
        }
    }
}

/// Checking a statement takes back no report and leaves the depth and the
/// current function as they were: a block raises the depth only while its
/// own statements are checked.
pub proof fn lemma_statement_keeps_reports(s: CheckState, st: Stmt)
    ensures
        reports_kept(s, rule_statement(s, st)),
        rule_statement(s, st).depth == s.depth,
        rule_statement(s, st).last_func == s.last_func,
    decreases st,
{
    match st.kind {
        StmtKind::If { cond, stmt, otherwise, .. } => {
            lemma_expression_keeps_scope(s, cond);
            let (s1, c) = rule_expression(s, cond);
            if s1.type_of(c) is Some {
                let s2 = rule_condition(s1, c);
                lemma_statement_keeps_reports(s2, *stmt);
                let s3 = rule_statement(s2, *stmt);
                assert(reports_kept(s1, s2));
                lemma_reports_kept_trans(s, s1, s2);
                lemma_reports_kept_trans(s, s2, s3);
                if let Some(o) = otherwise {
                    lemma_statement_keeps_reports(s3, *o);
                    lemma_reports_kept_trans(s, s3, rule_statement(s3, *o));
                }
            }
        },
        StmtKind::While { cond, body, .. } => {
            lemma_expression_keeps_scope(s, cond);
            let (s1, c) = rule_expression(s, cond);
            if s1.type_of(c) is Some {
                let s2 = rule_condition(s1, c);
                lemma_statement_keeps_reports(s2, *body);
                assert(reports_kept(s1, s2));
                lemma_reports_kept_trans(s, s1, s2);
                lemma_reports_kept_trans(s, s2, rule_statement(s2, *body));
            }
        },
        StmtKind::For { cond, body, .. } => {
            lemma_expression_keeps_scope(s, cond);
            let (s1, c) = rule_expression(s, cond);
            if s1.type_of(c) is Some {
                let s2 = rule_condition(s1, c);
                lemma_statement_keeps_reports(s2, *body);
                assert(reports_kept(s1, s2));
                lemma_reports_kept_trans(s, s1, s2);
                lemma_reports_kept_trans(s, s2, rule_statement(s2, *body));
            }
        },
        StmtKind::Compound(stmts) => {
            if s.depth != usize::MAX {
                vstd::std_specs::vec::axiom_vec_decreases_to_view(stmts);
                lemma_statements_keep_reports(s.with_depth((s.depth + 1) as usize), stmts@);
            }
        },
        StmtKind::Return { expr, .. } => {
            if let Some(e) = expr {
                lemma_expression_keeps_scope(s, e);
            }
        },
        StmtKind::Expression(e) => {
            lemma_expression_keeps_scope(s, e);
        },
        StmtKind::VarDecl { type_spec, decl, init } => {
            lemma_declaration_keeps_reports(s, decl, type_spec);
            let (s1, (id, name)) = rule_declaration(s, decl, type_spec);
            lemma_variable_definition_keeps_reports(s1, type_spec, init, id, name);
            lemma_reports_kept_trans(s, s1, rule_variable_definition(s1, type_spec, init, id, name));
        },
    }
}

/// Checking a run of statements takes back no report and leaves the depth
/// and the current function as they were.
pub proof fn lemma_statements_keep_reports(s: CheckState, stmts: Seq<Stmt>)
    ensures
        reports_kept(s, rule_statements(s, stmts)),
        rule_statements(s, stmts).depth == s.depth,
        rule_statements(s, stmts).last_func == s.last_func,
    decreases stmts,
{
    if stmts.len() > 0 {
        lemma_statements_keep_reports(s, stmts.drop_last());
        let s1 = rule_statements(s, stmts.drop_last());
        lemma_statement_keeps_reports(s1, stmts.last());
        lemma_reports_kept_trans(s, s1, rule_statement(s1, stmts.last()));
    }
}

/// Checking a top-level item takes back no report.
pub proof fn lemma_top_level_keeps_reports(s: CheckState, t: TopLevelStmt)
    ensures
        reports_kept(s, rule_top_level(s, t)),
{
    match t.kind {
        TopLevelStmtKind::GlobalVariable { type_spec, decl, init } => {
            lemma_declaration_keeps_reports(s, decl, type_spec);
            let (s2, (id, name)) = rule_declaration(s, decl, type_spec);
            lemma_variable_definition_keeps_reports(s2, type_spec, init, id, name);
            lemma_reports_kept_trans(s, s2, rule_top_level(s, t));
        },
        TopLevelStmtKind::FunctionDefinition { type_spec, decl, params, body } => {
            let ret = crate::type_checker::rules::primary(type_spec);
            lemma_declaration_keeps_reports(s, decl, type_spec);
            let (s2, (id, name)) = rule_declaration(s, decl, type_spec);
            lemma_function_definition_keeps_reports(s2, ret, params@, id, name);
            let s3 = rule_function_definition(s2, ret, params@, id, name).with_last_func(Some(ret));
            lemma_reports_kept_trans(s, s2, s3);
            if let Some(b) = body {
                lemma_statement_keeps_reports(s3, b);
                lemma_reports_kept_trans(s, s3, rule_statement(s3, b));
            }
        },
    }
}

/// Checking a program takes back no error it reported: each error found
/// stays, in its place, in the final list.
pub proof fn lemma_program_keeps_reports(s: CheckState, stmts: Seq<TopLevelStmt>)
    ensures
        reports_kept(s, rule_program(s, stmts)),
    decreases stmts.len(),
{
    if stmts.len() > 0 {
        lemma_program_keeps_reports(s, stmts.drop_last());
        let s1 = rule_program(s, stmts.drop_last());
        lemma_top_level_keeps_reports(s1, stmts.last());
        lemma_reports_kept_trans(s, s1, rule_program(s, stmts));
    }
}

/// A program one of whose parts has an error is refused: once an error is
/// reported while checking a prefix of the program, checking the whole
/// program ends with errors.
pub proof fn lemma_error_in_prefix_fails(s: CheckState, stmts: Seq<TopLevelStmt>, n: int)
    requires
        0 <= n <= stmts.len(),
        rule_program(s, stmts.take(n)).errors.len() > 0,
    ensures
        rule_program(s, stmts).errors.len() > 0,
    decreases stmts.len() - n,
{
    if n < stmts.len() {
        let pre = stmts.take(n + 1);
        assert(pre.drop_last() =~= stmts.take(n));
        lemma_top_level_keeps_reports(rule_program(s, stmts.take(n)), pre.last());
        lemma_error_in_prefix_fails(s, stmts, n + 1);
    } else {
        assert(stmts.take(n) =~= stmts);
    }
}

/// Declaring a name that is already visible is refused: an error is
/// reported (or, without a known position, the node is noted), and the
/// name keeps its declaration.
pub proof fn lemma_redeclaration_refused<'a>(
    s: CheckState<'a>,
    type_spec: crate::lexer::Token<'a>,
    init: Option<Expr<'a>>,
    id: TypeID,
    name: Seq<char>,
)
    requires
        s.vars.contains_key(name),
    ensures
        ({
            let t = rule_variable_definition(s, type_spec, init, id, name);
            &&& t.vars == s.vars
            &&& t.types == s.types
            &&& t.errors.len() + t.unlocated.len() == s.errors.len() + s.unlocated.len() + 1
        }),
{
}

/// A new name is declared at the current depth with its keyword's type,
/// and refers to its declaring node from then on.
pub proof fn lemma_declaration_binds<'a>(
    s: CheckState<'a>,
    type_spec: crate::lexer::Token<'a>,
    init: Option<Expr<'a>>,
    id: TypeID,
    name: Seq<char>,
)
    requires
        !s.vars.contains_key(name),
    ensures
        ({
            let t = rule_variable_definition(s, type_spec, init, id, name);
            &&& t.vars.contains_key(name)
            &&& t.vars[name] == (id, s.depth)
            &&& t.type_of(id) == Some(crate::type_checker::rules::primary(type_spec))
        }),
{
    if let Some(e) = init {
        lemma_expression_keeps_scope(s, e);
    }
}

/// A visible name used as an expression stands for the node that declared
/// it, and using it reports nothing.
pub proof fn lemma_visible_name_resolves<'a>(s: CheckState<'a>, e: Expr<'a>)
    requires
        e.kind is Identifier,
        s.vars.contains_key(e.kind->Identifier_0.lexeme@),
        s.vars[e.kind->Identifier_0.lexeme@].1 <= s.depth,
    ensures
        rule_expression(s, e).1 == s.vars[e.kind->Identifier_0.lexeme@].0,
        rule_expression(s, e).0.errors == s.errors,
{
}

/// A returned value must have its function's return type: inside a
/// function declared to return `f`, `return e;` whose value gets a type `t`
/// other than `f` reports a `ReturnType` error (expected `f`, got `t`) at
/// the `return`, whatever `f` is, and changes nothing else; when `t` is `f`
/// it adds nothing to what checking `e` did.
pub proof fn lemma_return_type_checked<'a>(
    s: CheckState<'a>,
    debug: Token<'a>,
    e: Expr<'a>,
    id: TypeID,
    f: TypeModel,
)
    requires
        s.last_func == Some(f),
    ensures
        ({
            let st = Stmt { kind: StmtKind::Return { debug, expr: Some(e) }, id };
            let (s1, v) = rule_expression(s, e);
            let r = rule_statement(s, st);
            &&& reports_kept(s, r)
            &&& s1.type_of(v) matches Some(t) ==> if t != f {
                &&& r.errors == s1.errors.push(
                    TypeError::AtToken {
                        kind: TokenError::ReturnType { expected: f, got: t },
                        line: debug.line,
                        pos: debug.pos,
                    },
                )
                &&& r == (CheckState { errors: r.errors, ..s1 })
            } else {
                r == s1
            }
        }),
{
    let st = Stmt { kind: StmtKind::Return { debug, expr: Some(e) }, id };
    lemma_statement_keeps_reports(s, st);
    lemma_expression_keeps_scope(s, e);
}

/// A bare `return;` is right only in a `void` function: in a function
/// declared to return any other type `f` it reports a `ReturnVoid` error
/// (expected `f`) at the `return`, and in a `void` function it changes
/// nothing.
pub proof fn lemma_bare_return_checked<'a>(s: CheckState<'a>, debug: Token<'a>, id: TypeID, f: TypeModel)
    requires
        s.last_func == Some(f),
    ensures
        ({
            let r = rule_statement(s, Stmt { kind: StmtKind::Return { debug, expr: None }, id });
            if f != TypeModel::Primary(PrimaryEnum::Void) {
                &&& r.errors == s.errors.push(
                    TypeError::AtToken {
                        kind: TokenError::ReturnVoid { expected: f },
                        line: debug.line,
                        pos: debug.pos,
                    },
                )
                &&& r == (CheckState { errors: r.errors, ..s })
            } else {
                r == s
            }
        }),
{
}

/// Each type keyword names its type: `int`, `float`, `char`, `string`,
/// `void` and `bool` name the primary types of those names.
pub proof fn lemma_type_keywords(t: Token)
    ensures
        t.token_type == TokenType::KwInt ==> primary(t) == TypeModel::Primary(PrimaryEnum::Int),
        t.token_type == TokenType::KwFloat ==> primary(t) == TypeModel::Primary(PrimaryEnum::Float),
        t.token_type == TokenType::KwChar ==> primary(t) == TypeModel::Primary(PrimaryEnum::Char),
        t.token_type == TokenType::KwString ==> primary(t) == TypeModel::Primary(
            PrimaryEnum::String,
        ),
        t.token_type == TokenType::KwVoid ==> primary(t) == TypeModel::Primary(PrimaryEnum::Void),
        t.token_type == TokenType::KwBool ==> primary(t) == TypeModel::Primary(PrimaryEnum::Bool),
{
}

/// A literal's type is its kind's: an integer literal is an `int`, a
/// float literal a `float`, `true` and `false` are `bool`s and a string
/// literal is a `string`. The type is recorded at the literal's own node,
/// and checking it reports nothing and declares nothing.
pub proof fn lemma_literal_types<'a>(s: CheckState<'a>, e: Expr<'a>)
    ensures
        ({
            let (t, id) = rule_expression(s, e);
            let has = |p: PrimaryEnum|
                id == e.id && t.type_of(e.id) == Some(TypeModel::Primary(p)) && t.errors == s.errors
                    && t.unlocated == s.unlocated && t.vars == s.vars;
            &&& e.kind is IntLiteral ==> has(PrimaryEnum::Int)
            &&& e.kind is FloatLiteral ==> has(PrimaryEnum::Float)
            &&& e.kind is BoolLiteral ==> has(PrimaryEnum::Bool)
            &&& e.kind is StringLiteral ==> has(PrimaryEnum::String)
        }),
{
}

/// An initializer must have its variable's type: declaring a new name with
/// type keyword `type_spec` and an initializer whose type `t` is another
/// type reports an `InitType` error (expected the declared type, got `t`)
/// at the type keyword; an initializer of the declared type reports
/// nothing. Either way the name is then bound to its declaring node.
pub proof fn lemma_initializer_type_checked<'a>(
    s: CheckState<'a>,
    type_spec: Token<'a>,
    e: Expr<'a>,
    id: TypeID,
    name: Seq<char>,
    t: TypeModel,
)
    requires
        !s.vars.contains_key(name),
        rule_expression(s, e).0.type_of(rule_expression(s, e).1) == Some(t),
    ensures
        ({
            let s0 = rule_expression(s, e).0;
            let r = rule_variable_definition(s, type_spec, Some(e), id, name);
            &&& t != primary(type_spec) ==> r.errors == s0.errors.push(
                TypeError::AtToken {
                    kind: TokenError::InitType { expected: primary(type_spec), got: t },
                    line: type_spec.line,
                    pos: type_spec.pos,
                },
            )
            &&& t == primary(type_spec) ==> r.errors == s0.errors
            &&& r.vars.contains_key(name) && r.vars[name].0 == id
        }),
{
}

/// The two operands of a binary operation must have one type: when both
/// have types and they differ, a `Binary` error (left type, operator, right
/// type) is reported at the operator; when they agree nothing is. Either
/// way the operation's node is its left operand's.
pub proof fn lemma_operands_must_agree<'a>(
    s: CheckState<'a>,
    l: Expr<'a>,
    op: Token<'a>,
    r: Expr<'a>,
    id: TypeID,
    lt: TypeModel,
    rt: TypeModel,
)
    requires
        ({
            let (s1, lid) = rule_expression(s, l);
            let (s2, rid) = rule_expression(s1, r);
            s2.type_of(lid) == Some(lt) && s2.type_of(rid) == Some(rt)
        }),
    ensures
        ({
            let (s1, lid) = rule_expression(s, l);
            let (s2, rid) = rule_expression(s1, r);
            let e = Expr { kind: ExprKind::BinaryOp { l: Box::new(l), op, r: Box::new(r) }, id };
            let (t, eid) = rule_expression(s, e);
            &&& eid == lid
            &&& lt != rt ==> t == s2.report(
                TypeError::Binary { l: lt, op: op.lexeme, r: rt, line: op.line, pos: op.pos },
            )
            &&& lt == rt ==> t == s2
        }),
{
}

/// `!` needs a `bool`: on an operand whose type is another, a `Unary`
/// error (operator, operand type) is reported at the operator; on a `bool`
/// nothing is.
pub proof fn lemma_not_needs_bool<'a>(s: CheckState<'a>, op: Token<'a>, v: Expr<'a>, id: TypeID, t: TypeModel)
    requires
        rule_expression(s, v).0.type_of(rule_expression(s, v).1) == Some(t),
    ensures
        ({
            let (s1, vid) = rule_expression(s, v);
            let e = Expr { kind: ExprKind::UnaryOp { op, val: Box::new(v) }, id };
            let (r, _) = rule_expression(s, e);
            &&& t != TypeModel::Primary(PrimaryEnum::Bool) ==> r == s1.report(
                TypeError::Unary { op: op.lexeme, val: t, line: op.line, pos: op.pos },
            )
            &&& t == TypeModel::Primary(PrimaryEnum::Bool) ==> r == s1
        }),
{
}

/// A condition needs a `bool`: a condition of another type is reported as
/// `ExpectedBool` at the condition's position (or noted as unlocated when
/// it has none); a `bool` condition reports nothing.
pub proof fn lemma_condition_needs_bool<'a>(s: CheckState<'a>, c: TypeID, t: TypeModel)
    requires
        s.type_of(c) == Some(t),
    ensures
        t == TypeModel::Primary(PrimaryEnum::Bool) ==> rule_condition(s, c) == s,
        t != TypeModel::Primary(PrimaryEnum::Bool) ==> match s.position(c) {
            Some(p) => rule_condition(s, c) == s.report(
                TypeError::AtNode { kind: NodeError::ExpectedBool, line: p.0, pos: p.1 },
            ),
            None => rule_condition(s, c) == s.note_unlocated(c),
        },
{
}

/// A name must be declared and visible: a name nothing declares is
/// reported as `UnknownVariable`, one declared deeper than the current
/// depth as `InaccessibleVariable`, both at the name's token; a visible
/// name stands for its declaring node and reports nothing.
pub proof fn lemma_names_resolve<'a>(s: CheckState<'a>, tok: Token<'a>, id: TypeID)
    ensures
        ({
            let e = Expr { kind: ExprKind::Identifier(tok), id };
            let (r, rid) = rule_expression(s, e);
            let at = |k: TokenError<'a, TypeModel>|
                r.errors == s.errors.push(TypeError::AtToken { kind: k, line: tok.line, pos: tok.pos });
            &&& !s.vars.contains_key(tok.lexeme@) ==> at(TokenError::UnknownVariable { name: tok.lexeme })
            &&& s.vars.contains_key(tok.lexeme@) && s.vars[tok.lexeme@].1 > s.depth ==> at(
                TokenError::InaccessibleVariable { name: tok.lexeme },
            )
            &&& s.vars.contains_key(tok.lexeme@) && s.vars[tok.lexeme@].1 <= s.depth ==> r.errors
                == s.errors && rid == s.vars[tok.lexeme@].0
        }),
{
}

/// The place a known position gives, `(0, 0)` for none.
pub open spec fn located(p: Option<(u16, usize)>) -> (u16, usize) {
    match p {
        Some(x) => x,
        None => (0, 0),
    }
}

proof fn lemma_compare_keeps_tables<'a>(s: CheckState<'a>, callee: TypeID, params: Seq<TypeModel>, ids: Seq<TypeID>)
    ensures
        rule_compare(s, callee, params, ids).types == s.types,
        rule_compare(s, callee, params, ids).debug == s.debug,
        (forall|i: int| 0 <= i < ids.len() && i < params.len() ==> #[trigger] s.type_of(ids[i]) == Some(
            params[i],
        )) ==> rule_compare(s, callee, params, ids) == s,
    decreases ids.len(),
{
    if ids.len() > 0 {
        lemma_compare_keeps_tables(s, callee, params, ids.drop_last());
        let d = ids.drop_last();
        if forall|i: int| 0 <= i < ids.len() && i < params.len() ==> #[trigger] s.type_of(ids[i]) == Some(
            params[i],
        ) {
            assert forall|i: int| 0 <= i < d.len() && i < params.len() implies #[trigger] s.type_of(d[i]) == Some(
                params[i],
            ) by {
                assert(d[i] == ids[i]);
            }
            if ids.len() - 1 < params.len() {
                assert(s.type_of(ids[ids.len() - 1]) == Some(params[ids.len() - 1]));
            }
        }
    }
}

proof fn lemma_compare_reports<'a>(
    s: CheckState<'a>,
    callee: TypeID,
    params: Seq<TypeModel>,
    ids: Seq<TypeID>,
    i: int,
    t: TypeModel,
)
    requires
        0 <= i < ids.len(),
        i < params.len(),
        s.type_of(ids[i]) == Some(t),
        t != params[i],
        s.position(ids[i]) is Some,
        s.position(callee) is Some,
    ensures
        rule_compare(s, callee, params, ids).errors.contains(
            TypeError::ArgumentType {
                expected: params[i],
                got: t,
                line: located(s.position(ids[i])).0,
                pos: located(s.position(ids[i])).1,
                ctx_line: located(s.position(callee)).0,
                ctx_pos: located(s.position(callee)).1,
            },
        ),
    decreases ids.len(),
{
    let d = ids.drop_last();
    lemma_compare_keeps_tables(s, callee, params, d);
    let s1 = rule_compare(s, callee, params, d);
    let err = TypeError::ArgumentType {
        expected: params[i],
        got: t,
        line: located(s.position(ids[i])).0,
        pos: located(s.position(ids[i])).1,
        ctx_line: located(s.position(callee)).0,
        ctx_pos: located(s.position(callee)).1,
    };
    let r = rule_compare(s, callee, params, ids);
    if i == ids.len() - 1 {
        assert(r.errors == s1.errors.push(err));
        assert(r.errors[r.errors.len() - 1] == err);
    } else {
        assert(d[i] == ids[i]);
        lemma_compare_reports(s, callee, params, d, i, t);
        let j = choose|j: int| 0 <= j < s1.errors.len() && s1.errors[j] == err;
        assert(extends(s1.errors, r.errors));
        assert(r.errors[j] == err);
    }
}

/// Calls are checked against the called function's parameters: when the
/// called name has a function type, a call with as many arguments as
/// parameters, each of its parameter's type, reports nothing beyond what
/// checking the arguments did; a different number of arguments is reported
/// as `WrongNumberOfArgs` at the called name; and an argument whose type
/// differs from its parameter's is reported as an `ArgumentType` error
/// (expected the parameter's type, got the argument's) at the argument, with
/// the called name as context. Calling what has no function type is
/// reported as `NotCallable`.
pub proof fn lemma_call_checked<'a>(s: CheckState<'a>, callee: TypeID, args: Seq<Expr<'a>>)
    ensures
        ({
            let (s1, ids) = rule_arguments(s, args);
            let r = rule_parameters_compare(s, callee, args);
            &&& s1.type_of(callee) matches Some(TypeModel::Function(ret, params)) ==> {
                &&& (args.len() == params.len() && forall|i: int| 0 <= i < ids.len() && i < params.len()
                    ==> #[trigger] s1.type_of(ids[i]) == Some(params[i])) ==> r == s1
                &&& args.len() != params.len() ==> match s1.position(callee) {
                    Some(p) => r.errors.contains(
                        TypeError::AtNode { kind: NodeError::WrongNumberOfArgs, line: p.0, pos: p.1 },
                    ),
                    None => r.unlocated.contains(callee),
                }
                &&& forall|i: int|
                    0 <= i < ids.len() && i < params.len() && s1.position(#[trigger] ids[i]) is Some
                        && s1.position(callee) is Some ==> match s1.type_of(ids[i]) {
                        Some(t) => t != params[i] ==> r.errors.contains(
                            TypeError::ArgumentType {
                                expected: params[i],
                                got: t,
                                line: located(s1.position(ids[i])).0,
                                pos: located(s1.position(ids[i])).1,
                                ctx_line: located(s1.position(callee)).0,
                                ctx_pos: located(s1.position(callee)).1,
                            },
                        ),
                        None => true,
                    }
            }
            &&& !(s1.type_of(callee) matches Some(TypeModel::Function(_, _))) ==> r == s1.report(
                TypeError::NotCallable { at: s1.position(callee) },
            )
        }),
{
    let (s1, ids) = rule_arguments(s, args);
    lemma_arguments_len(s, args);
    if let Some(TypeModel::Function(ret, params)) = s1.type_of(callee) {
        let s2 = if args.len() != params.len() {
            crate::type_checker::rules::rule_error(s1, callee, NodeError::WrongNumberOfArgs)
        } else {
            s1
        };
        lemma_compare_keeps_tables(s2, callee, params, ids);
        lemma_compare_keeps_scope(s2, callee, params, ids);
        let r = rule_compare(s2, callee, params, ids);
        if args.len() != params.len() {
            match s1.position(callee) {
                Some(p) => {
                    let err: TypeError<'a, TypeModel> = TypeError::AtNode { kind: NodeError::WrongNumberOfArgs, line: p.0, pos: p.1 };
                    assert(s2.errors[s2.errors.len() - 1] == err);
                    assert(r.errors[s2.errors.len() - 1] == err);
                },
                None => {
                    assert(s2.unlocated[s2.unlocated.len() - 1] == callee);
                    assert(r.unlocated[s2.unlocated.len() - 1] == callee);
                },
            }
        }
        assert forall|i: int|
            0 <= i < ids.len() && i < params.len() && s1.position(#[trigger] ids[i]) is Some
                && s1.position(callee) is Some implies match s1.type_of(ids[i]) {
                Some(t) => t != params[i] ==> r.errors.contains(
                    TypeError::ArgumentType {
                        expected: params[i],
                        got: t,
                        line: located(s1.position(ids[i])).0,
                        pos: located(s1.position(ids[i])).1,
                        ctx_line: located(s1.position(callee)).0,
                        ctx_pos: located(s1.position(callee)).1,
                    },
                ),
                None => true,
            } by {
            assert(s2.types == s1.types && s2.debug == s1.debug);
            assert(s2.type_of(ids[i]) == s1.type_of(ids[i]));
            assert(s2.position(ids[i]) == s1.position(ids[i]));
            assert(s2.position(callee) == s1.position(callee));
            if let Some(t) = s1.type_of(ids[i]) {
                if t != params[i] {
                    lemma_compare_reports(s2, callee, params, ids, i, t);
                }
            }
        }
    }
}

proof fn lemma_arguments_len<'a>(s: CheckState<'a>, args: Seq<Expr<'a>>)
    ensures
        rule_arguments(s, args).1.len() == args.len(),
    decreases args.len(),
{
    if args.len() > 0 {
        lemma_arguments_len(s, args.drop_last());
    }
}

} // verus!
