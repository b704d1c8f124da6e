//! The checker's rules, stated as what each step does to the checker's
//! state. The checker walks the syntax tree once, left to right; these
//! functions follow the same walk over the mathematical state.
use vstd::prelude::*;

use crate::lexer::{Token, TokenType};
use crate::parser::ast::{
    Decl, DeclKind, Expr, ExprKind, Param, Stmt, StmtKind, TopLevelStmt, TopLevelStmtKind,
};
use crate::parser::literal::spec_parse_usize;
use crate::type_checker::annotation::{is_type_keyword, spec_primary_of, PrimaryEnum, TypeID, TypeModel};
use crate::type_checker::error::{NodeError, TokenError, TypeError};

verus! {

/// What the checker knows at a point of the walk.
pub struct CheckState<'a> {
    /// The type recorded for each node.
    pub types: Map<usize, TypeModel>,
    /// Each visible name: its declaring node and the depth it was declared at.
    pub vars: Map<Seq<char>, (TypeID, usize)>,
    /// Line and column of the nodes whose position is known.
    pub debug: Map<usize, (u16, usize)>,
    /// The errors found so far, in order.
    pub errors: Seq<TypeError<'a, TypeModel>>,
    /// Nodes an error was to be reported at whose position was unknown.
    pub unlocated: Seq<TypeID>,
    /// The current scope depth.
    pub depth: usize,
    /// The return type of the function last defined.
    pub last_func: Option<TypeModel>,
}

impl<'a> CheckState<'a> {
    pub open spec fn with_types(self, types: Map<usize, TypeModel>) -> Self {
        CheckState { types, ..self }
    }

    pub open spec fn with_vars(self, vars: Map<Seq<char>, (TypeID, usize)>) -> Self {
        CheckState { vars, ..self }
    }

    pub open spec fn with_depth(self, depth: usize) -> Self {
        CheckState { depth, ..self }
    }

    pub open spec fn with_last_func(self, last_func: Option<TypeModel>) -> Self {
        CheckState { last_func, ..self }
    }

    pub open spec fn report(self, e: TypeError<'a, TypeModel>) -> Self {
        CheckState { errors: self.errors.push(e), ..self }
    }

    pub open spec fn note_unlocated(self, id: TypeID) -> Self {
        CheckState { unlocated: self.unlocated.push(id), ..self }
    }

    /// The type recorded for `id`, if any.
    pub open spec fn type_of(self, id: TypeID) -> Option<TypeModel> {
        if self.types.contains_key(id.0) {
            Some(self.types[id.0])
        } else {
            None
        }
    }

    /// The position recorded for `id`, if any.
    pub open spec fn position(self, id: TypeID) -> Option<(u16, usize)> {
        if self.debug.contains_key(id.0) {
            Some(self.debug[id.0])
        } else {
            None
        }
    }
}

/// The state a fresh checker starts from.
pub open spec fn initial_state<'a>() -> CheckState<'a> {
    CheckState {
        types: Map::empty(),
        vars: Map::empty(),
        debug: Map::empty(),
        errors: Seq::empty(),
        unlocated: Seq::empty(),
        depth: 0,
        last_func: None,
    }
}

pub open spec fn primary(t: Token) -> TypeModel {
    TypeModel::Primary(spec_primary_of(t.token_type))
}

pub open spec fn bool_type() -> TypeModel {
    TypeModel::Primary(PrimaryEnum::Bool)
}

/// The parameter types of a function: each parameter's type keyword.
pub open spec fn param_types(params: Seq<Param>) -> Seq<TypeModel> {
    params.map_values(|p: Param| primary(p.type_spec))
}

pub open spec fn rule_debug_info<'a>(s: CheckState<'a>, id: TypeID, tok: Token) -> CheckState<'a> {
    CheckState { debug: s.debug.insert(id.0, (tok.line, tok.pos)), ..s }
}

/// An error at the position of node `ctx`.
pub open spec fn rule_error<'a>(s: CheckState<'a>, ctx: TypeID, kind: NodeError) -> CheckState<'a> {
    match s.position(ctx) {
        Some(p) => s.report(TypeError::AtNode { kind, line: p.0, pos: p.1 }),
        None => s.note_unlocated(ctx),
    }
}

/// An argument type error at `arg`, with the called name `callee` as context.
pub open spec fn rule_error_two_contexts<'a>(
    s: CheckState<'a>,
    arg: TypeID,
    callee: TypeID,
    expected: TypeModel,
    got: TypeModel,
) -> CheckState<'a> {
    match (s.position(arg), s.position(callee)) {
        (Some(a), Some(c)) => s.report(
            TypeError::ArgumentType {
                expected,
                got,
                line: a.0,
                pos: a.1,
                ctx_line: c.0,
                ctx_pos: c.1,
            },
        ),
        (None, _) => s.note_unlocated(arg),
        (Some(_), None) => s.note_unlocated(callee),
    }
}

pub open spec fn rule_error_token<'a>(
    s: CheckState<'a>,
    tok: Token<'a>,
    kind: TokenError<'a, TypeModel>,
) -> CheckState<'a> {
    s.report(TypeError::AtToken { kind, line: tok.line, pos: tok.pos })
}

pub open spec fn rule_error_unary<'a>(s: CheckState<'a>, op: Token<'a>, val: TypeID) -> CheckState<'a> {
    match s.type_of(val) {
        Some(t) => s.report(TypeError::Unary { op: op.lexeme, val: t, line: op.line, pos: op.pos }),
        None => s.note_unlocated(val),
    }
}

pub open spec fn rule_error_binary<'a>(
    s: CheckState<'a>,
    l: TypeID,
    op: Token<'a>,
    r: TypeID,
) -> CheckState<'a> {
    match (s.type_of(l), s.type_of(r)) {
        (Some(lt), Some(rt)) => s.report(
            TypeError::Binary { l: lt, op: op.lexeme, r: rt, line: op.line, pos: op.pos },
        ),
        (None, _) => s.note_unlocated(l),
        (Some(_), None) => s.note_unlocated(r),
    }
}

/// An array declarator: its element type and its size, when the size is a
/// `usize` literal.
pub open spec fn rule_array_definition<'a>(
    s: CheckState<'a>,
    elem: TypeModel,
    constant: Option<Token<'a>>,
    id: TypeID,
) -> CheckState<'a> {
    let (s1, size) = match constant {
        Some(c) => match spec_parse_usize(c.lexeme@) {
            Ok(v) => (s, Some(v)),
            Err(e) => (rule_error_token(s, c, TokenError::ArrayConstant { reason: e }), None),
        },
        None => (s, None),
    };
    s1.with_types(s1.types.insert(id.0, TypeModel::Array(Box::new(elem), size)))
}

/// A variable declaration: the name must be new; an initializer must have
/// the declared type.
pub open spec fn rule_variable_definition<'a>(
    s: CheckState<'a>,
    type_spec: Token<'a>,
    init: Option<Expr<'a>>,
    id: TypeID,
    name: Seq<char>,
) -> CheckState<'a> {
    if s.vars.contains_key(name) {
        rule_error(s, id, NodeError::VariableShadowing)
    } else {
        let var_type = primary(type_spec);
        let s1 = match init {
            Some(e) => {
                let (s0, init_id) = rule_expression(s, e);
                match s0.type_of(init_id) {
                    Some(t) => if t != var_type {
                        rule_error_token(
                            s0,
                            type_spec,
                            TokenError::InitType { expected: var_type, got: t },
                        )
                    } else {
                        s0
                    },
                    None => s0,
                }
            },
            None => s,
        };
        s1.with_vars(s1.vars.insert(name, (id, s1.depth))).with_types(
            s1.types.insert(id.0, var_type),
        )
    }
}

/// The arguments of a call, checked left to right, with the node each
/// one's type is recorded at.
pub open spec fn rule_arguments<'a>(s: CheckState<'a>, args: Seq<Expr<'a>>) -> (CheckState<'a>, Seq<TypeID>)
    decreases args, 0int,
{
    if args.len() == 0 {
        (s, Seq::empty())
    } else {
        let (s1, ids) = rule_arguments(s, args.drop_last());
        let (s2, id) = rule_expression(s1, args.last());
        (s2, ids.push(id))
    }
}

/// Compares the types at `ids` with the parameter types, position by
/// position; arguments past the last parameter are not compared.
pub open spec fn rule_compare<'a>(
    s: CheckState<'a>,
    callee: TypeID,
    params: Seq<TypeModel>,
    ids: Seq<TypeID>,
) -> CheckState<'a>
    decreases ids.len(),
{
    if ids.len() == 0 {
        s
    } else {
        let s1 = rule_compare(s, callee, params, ids.drop_last());
        let idx = ids.len() - 1;
        let a = ids.last();
        if idx >= params.len() {
            s1
        } else {
            match s1.type_of(a) {
                None => s1.report(TypeError::UntypedArgument { at: s1.position(a) }),
                Some(t) => if params[idx] != t {
                    rule_error_two_contexts(s1, a, callee, params[idx], t)
                } else {
                    s1
                },
            }
        }
    }
}

/// A call: the arguments are checked, then compared with the parameters of
/// the called function.
pub open spec fn rule_parameters_compare<'a>(
    s: CheckState<'a>,
    callee: TypeID,
    args: Seq<Expr<'a>>,
) -> CheckState<'a>
    decreases args, 1int,
{
    let (s1, ids) = rule_arguments(s, args);
    match s1.type_of(callee) {
        Some(TypeModel::Function(_, params)) => {
            let s2 = if args.len() != params.len() {
                rule_error(s1, callee, NodeError::WrongNumberOfArgs)
            } else {
                s1
            };
            rule_compare(s2, callee, params, ids)
        },
        _ => s1.report(TypeError::NotCallable { at: s1.position(callee) }),
    }
}

/// An expression: the state after it, and the node its type is recorded at.
pub open spec fn rule_expression<'a>(s: CheckState<'a>, e: Expr<'a>) -> (CheckState<'a>, TypeID)
    decreases e, 1int,
{
    let id = e.id;
    match e.kind {
        ExprKind::IntLiteral { debug, .. } => {
            let s1 = rule_debug_info(s, id, debug);
            (s1.with_types(s1.types.insert(id.0, TypeModel::Primary(PrimaryEnum::Int))), id)
        },
        ExprKind::FloatLiteral { debug } => {
            let s1 = rule_debug_info(s, id, debug);
            (s1.with_types(s1.types.insert(id.0, TypeModel::Primary(PrimaryEnum::Float))), id)
        },
        ExprKind::BoolLiteral { debug, .. } => {
            let s1 = rule_debug_info(s, id, debug);
            (s1.with_types(s1.types.insert(id.0, TypeModel::Primary(PrimaryEnum::Bool))), id)
        },
        ExprKind::StringLiteral { debug, .. } => {
            let s1 = rule_debug_info(s, id, debug);
            (s1.with_types(s1.types.insert(id.0, TypeModel::Primary(PrimaryEnum::String))), id)
        },
        ExprKind::Identifier(tok) => {
            let s1 = rule_debug_info(s, id, tok);
            if !s1.vars.contains_key(tok.lexeme@) {
                (rule_error_token(s1, tok, TokenError::UnknownVariable { name: tok.lexeme }), id)
            } else if s1.vars[tok.lexeme@].1 > s1.depth {
                (rule_error_token(s1, tok, TokenError::InaccessibleVariable { name: tok.lexeme }), id)
            } else {
                (s1, s1.vars[tok.lexeme@].0)
            }
        },
        ExprKind::Call { identifier, arguments } => {
            let (s1, callee) = rule_expression(s, *identifier);
            proof {
                vstd::std_specs::vec::axiom_vec_decreases_to_view(arguments);
            }
            (rule_parameters_compare(s1, callee, arguments@), callee)
        },
        ExprKind::Index { identifier, argument } => {
            let (s1, arg) = rule_expression(s, *argument);
            let s2 = match s1.type_of(arg) {
                Some(t) => if t != TypeModel::Primary(PrimaryEnum::Int) {
                    rule_error(s1, arg, NodeError::ExpectedInt)
                } else {
                    s1
                },
                None => s1,
            };
            rule_expression(s2, *identifier)
        },
        ExprKind::UnaryOp { op, val } => {
            let (s1, v) = rule_expression(s, *val);
            let s2 = match s1.type_of(v) {
                Some(t) => if t != bool_type() {
                    rule_error_unary(s1, op, v)
                } else {
                    s1
                },
                None => s1,
            };
            (s2, v)
        },
        ExprKind::BinaryOp { l, op, r } => {
            let (s1, lid) = rule_expression(s, *l);
            let (s2, rid) = rule_expression(s1, *r);
            (rule_operands(s2, lid, op, rid), lid)
        },
        ExprKind::LogicalOp { l, op, r } => {
            let (s1, lid) = rule_expression(s, *l);
            let (s2, rid) = rule_expression(s1, *r);
            (rule_operands(s2, lid, op, rid), lid)
        },
        ExprKind::Assignment { l, op, r } => {
            let (s1, lid) = rule_expression(s, *l);
            let (s2, rid) = rule_expression(s1, *r);
            (rule_operands(s2, lid, op, rid), lid)
        },
        ExprKind::Group(g) => rule_expression(s, *g),
    }
}

/// After both operands of a binary operation are checked: when both have
/// types, they must be equal. The operation's type is recorded at its left
/// operand.
pub open spec fn rule_operands<'a>(s: CheckState<'a>, lid: TypeID, op: Token<'a>, rid: TypeID) -> CheckState<'a> {
    match (s.type_of(lid), s.type_of(rid)) {
        (Some(lt), Some(rt)) => if lt != rt {
            rule_error_binary(s, lid, op, rid)
        } else {
            s
        },
        _ => s,
    }
}

/// A function declarator or definition named `name`: the name must be
/// new; the parameters are declared one scope deeper; the name is then
/// bound to the function type at node `id`.
pub open spec fn rule_function_definition<'a>(
    s: CheckState<'a>,
    ret: TypeModel,
    params: Seq<Param<'a>>,
    id: TypeID,
    name: Seq<char>,
) -> CheckState<'a>
    decreases params, 1int,
{
    if s.vars.contains_key(name) {
        rule_error(s, id, NodeError::FunctionRedefinition)
    } else if s.depth == usize::MAX {
        s.report(TypeError::TooDeep)
    } else {
        let s1 = rule_params(s.with_depth((s.depth + 1) as usize), params).with_depth(s.depth);
        s1.with_vars(s1.vars.insert(name, (id, s.depth))).with_types(
            s1.types.insert(id.0, TypeModel::Function(Box::new(ret), param_types(params))),
        )
    }
}

/// The parameters of a function, declared left to right.
pub open spec fn rule_params<'a>(s: CheckState<'a>, params: Seq<Param<'a>>) -> CheckState<'a>
    decreases params, 0int,
{
    if params.len() == 0 {
        s
    } else {
        let s1 = rule_params(s, params.drop_last());
        let p = params.last();
        match p.decl {
            Some(d) => {
                let (s2, (id, name)) = rule_declaration(s1, d, p.type_spec);
                rule_variable_definition(s2, p.type_spec, p.init, id, name)
            },
            None => s1,
        }
    }
}

/// A declarator: the state after it, and the node and name it declares.
pub open spec fn rule_declaration<'a>(s: CheckState<'a>, d: Decl<'a>, type_spec: Token<'a>) -> (
    CheckState<'a>,
    (TypeID, Seq<char>),
)
    decreases d, 0int,
{
    match d.kind {
        DeclKind::Group(g) => rule_declaration(s, *g, type_spec),
        DeclKind::Pointer(g) => rule_declaration(s, *g, type_spec),
        DeclKind::Identifier(tok) => (rule_debug_info(s, d.id, tok), (d.id, tok.lexeme@)),
        DeclKind::Function { decl, params } => {
            let (s1, r) = rule_declaration(s, *decl, type_spec);
            proof {
                vstd::std_specs::vec::axiom_vec_decreases_to_view(params);
            }
            (rule_function_definition(s1, primary(type_spec), params@, d.id, r.1), r)
        },
        DeclKind::Array { decl, constant } => {
            let (s1, r) = rule_declaration(s, *decl, type_spec);
            (rule_array_definition(s1, primary(type_spec), constant, d.id), r)
        },
    }
}

/// A condition must have type `bool`; the statements that depend on it are
/// checked only when it has a type at all.
pub open spec fn rule_condition<'a>(s: CheckState<'a>, cond: TypeID) -> CheckState<'a> {
    if s.type_of(cond).unwrap() != bool_type() {
        rule_error(s, cond, NodeError::ExpectedBool)
    } else {
        s
    }
}

pub open spec fn rule_statement<'a>(s: CheckState<'a>, st: Stmt<'a>) -> CheckState<'a>
    decreases st,
{
    match st.kind {
        StmtKind::If { cond, stmt, otherwise, .. } => {
            let (s1, c) = rule_expression(s, cond);
            if s1.type_of(c) is Some {
                let s2 = rule_statement(rule_condition(s1, c), *stmt);
                match otherwise {
                    Some(o) => rule_statement(s2, *o),
                    None => s2,
                }
            } else {
                s1
            }
        },
        StmtKind::While { cond, body, .. } => {
            let (s1, c) = rule_expression(s, cond);
            if s1.type_of(c) is Some {
                rule_statement(rule_condition(s1, c), *body)
            } else {
                s1
            }
        },
        StmtKind::For { cond, body, .. } => {
            let (s1, c) = rule_expression(s, cond);
            if s1.type_of(c) is Some {
                rule_statement(rule_condition(s1, c), *body)
            } else {
                s1
            }
        },
        StmtKind::Compound(stmts) => {
            if s.depth == usize::MAX {
                s.report(TypeError::TooDeep)
            } else {
                proof {
                    vstd::std_specs::vec::axiom_vec_decreases_to_view(stmts);
                }
                rule_statements(s.with_depth((s.depth + 1) as usize), stmts@).with_depth(s.depth)
            }
        },
        StmtKind::Return { debug, expr } => match expr {
            None => match s.last_func {
                None => rule_error_token(s, debug, TokenError::ReturnOutsideFunction),
                Some(f) => if f != TypeModel::Primary(PrimaryEnum::Void) {
                    rule_error_token(s, debug, TokenError::ReturnVoid { expected: f })
                } else {
                    s
                },
            },
            Some(e) => {
                let (s1, v) = rule_expression(s, e);
                match s1.type_of(v) {
                    None => rule_error_token(s1, debug, TokenError::UntypedReturn),
                    Some(t) => match s1.last_func {
                        None => rule_error_token(s1, debug, TokenError::ReturnOutsideFunction),
                        Some(f) => if f != t {
                            rule_error_token(s1, debug, TokenError::ReturnType { expected: f, got: t })
                        } else {
                            s1
                        },
                    },
                }
            },
        },
        StmtKind::Expression(e) => rule_expression(s, e).0,
        StmtKind::VarDecl { type_spec, decl, init } => {
            let (s1, (id, name)) = rule_declaration(s, decl, type_spec);
            rule_variable_definition(s1, type_spec, init, id, name)
        },
    }
}

pub open spec fn rule_statements<'a>(s: CheckState<'a>, stmts: Seq<Stmt<'a>>) -> CheckState<'a>
    decreases stmts,
{
    if stmts.len() == 0 {
        s
    } else {
        rule_statement(rule_statements(s, stmts.drop_last()), stmts.last())
    }
}

pub open spec fn rule_top_level<'a>(s: CheckState<'a>, t: TopLevelStmt<'a>) -> CheckState<'a> {
    match t.kind {
        TopLevelStmtKind::GlobalVariable { type_spec, decl, init } => {
            let (s1, (id, name)) = rule_declaration(s, decl, type_spec);
            rule_variable_definition(s1, type_spec, init, id, name)
        },
        TopLevelStmtKind::FunctionDefinition { type_spec, decl, params, body } => {
            let (s1, (id, name)) = rule_declaration(s, decl, type_spec);
            let s2 = rule_function_definition(s1, primary(type_spec), params@, id, name).with_last_func(
                Some(primary(type_spec)),
            );
            match body {
                Some(b) => rule_statement(s2, b),
                None => s2,
            }
        },
    }
}

/// A whole program, its top-level statements in order.
pub open spec fn rule_program<'a>(s: CheckState<'a>, stmts: Seq<TopLevelStmt<'a>>) -> CheckState<'a>
    decreases stmts.len(),
{
    if stmts.len() == 0 {
        s
    } else {
        rule_top_level(rule_program(s, stmts.drop_last()), stmts.last())
    }
}

/// Every type specifier in a declarator names a type.
pub open spec fn decl_specs_ok(d: Decl) -> bool
    decreases d,
{
    match d.kind {
        DeclKind::Group(g) => decl_specs_ok(*g),
        DeclKind::Pointer(g) => decl_specs_ok(*g),
        DeclKind::Identifier(_) => true,
        DeclKind::Function { decl, params } => {
            proof {
                vstd::std_specs::vec::axiom_vec_decreases_to_view(params);
            }
            decl_specs_ok(*decl) && params_specs_ok(params@)
        },
        DeclKind::Array { decl, .. } => decl_specs_ok(*decl),
    }
}

pub open spec fn params_specs_ok(ps: Seq<Param>) -> bool
    decreases ps,
{
    if ps.len() == 0 {
        true
    } else {
        &&& params_specs_ok(ps.drop_last())
        &&& is_type_keyword(ps.last().type_spec.token_type)
        &&& match ps.last().decl {
            Some(d) => decl_specs_ok(d),
            None => true,
        }
    }
}

pub open spec fn stmt_specs_ok(st: Stmt) -> bool
    decreases st,
{
    match st.kind {
        StmtKind::If { stmt, otherwise, .. } => stmt_specs_ok(*stmt) && match otherwise {
            Some(o) => stmt_specs_ok(*o),
            None => true,
        },
        StmtKind::While { body, .. } => stmt_specs_ok(*body),
        StmtKind::For { decl, body, .. } => stmt_specs_ok(*decl) && stmt_specs_ok(*body),
        StmtKind::Compound(ss) => {
            proof {
                vstd::std_specs::vec::axiom_vec_decreases_to_view(ss);
            }
            stmts_specs_ok(ss@)
        },
        StmtKind::Return { .. } => true,
        StmtKind::Expression(_) => true,
        StmtKind::VarDecl { type_spec, decl, .. } => is_type_keyword(type_spec.token_type)
            && decl_specs_ok(decl),
    }
}

pub open spec fn stmts_specs_ok(ss: Seq<Stmt>) -> bool
    decreases ss,
{
    if ss.len() == 0 {
        true
    } else {
        stmts_specs_ok(ss.drop_last()) && stmt_specs_ok(ss.last())
    }
}

pub open spec fn top_specs_ok(t: TopLevelStmt) -> bool {
    match t.kind {
        TopLevelStmtKind::GlobalVariable { type_spec, decl, .. } => is_type_keyword(
            type_spec.token_type,
        ) && decl_specs_ok(decl),
        TopLevelStmtKind::FunctionDefinition { type_spec, decl, params, body } => {
            &&& is_type_keyword(type_spec.token_type)
            &&& decl_specs_ok(decl)
            &&& params_specs_ok(params@)
            &&& match body {
                Some(b) => stmt_specs_ok(b),
                None => true,
            }
        },
    }
}

/// Every type specifier of the program names a type, as the parser's
/// output always does.
pub open spec fn program_specs_ok(stmts: Seq<TopLevelStmt>) -> bool {
    forall|i: int| 0 <= i < stmts.len() ==> #[trigger] top_specs_ok(stmts[i])
}

pub proof fn lemma_params_specs_ok(ps: Seq<Param>, i: int)
    requires
        params_specs_ok(ps),
        0 <= i < ps.len(),
    ensures
        params_specs_ok(ps.take(i + 1)),
        is_type_keyword(ps[i].type_spec.token_type),
        ps[i].decl matches Some(d) ==> decl_specs_ok(d),
    decreases ps.len(),
{
    if i < ps.len() - 1 {
        lemma_params_specs_ok(ps.drop_last(), i);
        assert(ps.drop_last().take(i + 1) =~= ps.take(i + 1));
    } else {
        assert(ps.take(i + 1) =~= ps);
    }
}

pub proof fn lemma_stmts_specs_ok(ss: Seq<Stmt>, i: int)
    requires
        stmts_specs_ok(ss),
        0 <= i < ss.len(),
    ensures
        stmt_specs_ok(ss[i]),
    decreases ss.len(),
{
    if i < ss.len() - 1 {
        lemma_stmts_specs_ok(ss.drop_last(), i);
    }
}

} // verus!
