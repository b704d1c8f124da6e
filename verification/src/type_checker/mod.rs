//! The type checker: one walk over the syntax tree that records the type of
//! each declaration and expression node and collects the type errors.
use std::collections::HashMap;

use vstd::prelude::*;

use crate::lexer::{Token, TokenType};
use crate::parser::ast::{
    Decl, DeclKind, Expr, ExprKind, Param, Stmt, StmtKind, TopLevelStmt, TopLevelStmtKind,
};
use crate::parser::literal::parse_usize;
use annotation::{
    is_type_keyword, lemma_models_index, lemma_models_len, lemma_models_push, models, PrimaryEnum,
    Type, TypeID, TypeModel,
};
use error::{error_model, token_error_model, NodeError, TokenError, TypeError};
use rules::{
    decl_specs_ok, initial_state, lemma_params_specs_ok, lemma_stmts_specs_ok, param_types,
    params_specs_ok, primary, program_specs_ok, rule_array_definition, rule_arguments,
    rule_compare, rule_debug_info, rule_declaration, rule_error, rule_error_binary,
    rule_error_token, rule_error_two_contexts, rule_error_unary, rule_expression,
    rule_function_definition, rule_operands, rule_parameters_compare, rule_params, rule_program,
    rule_statement, rule_statements, rule_top_level, rule_variable_definition, stmt_specs_ok, stmts_specs_ok,
    top_specs_ok, CheckState,
};
use scope::VarMap;

pub mod annotation;
pub mod error;
pub mod laws;
pub mod rules;
pub mod scope;

verus! {

broadcast use vstd::std_specs::hash::group_hash_axioms;

/// What `check` answers when the program has type errors; the errors
/// themselves are in `errors`.
#[derive(Debug, Clone, Copy, PartialEq, Eq, Structural)]
pub struct ErrorsPresent;

pub struct TypeChecker<'a> {
    /// The type recorded for each node, by the node's number.
    pub type_map: HashMap<usize, Type>,
    /// The visible names.
    pub var_map: VarMap,
    debug: HashMap<usize, (u16, usize)>,
    last_func_def: Option<Type>,
    errors: Vec<TypeError<'a, Type>>,
    unlocated: Vec<TypeID>,
    depth: usize,
}

impl<'a> View for TypeChecker<'a> {
    type V = CheckState<'a>;

    closed spec fn view(&self) -> CheckState<'a> {
        CheckState {
            types: self.type_map@.map_values(|t: Type| t@),
            vars: self.var_map@,
            debug: self.debug@,
            errors: self.errors@.map_values(|e: TypeError<'a, Type>| error_model(e)),
            unlocated: self.unlocated@,
            depth: self.depth,
            last_func: match self.last_func_def {
                Some(t) => Some(t@),
                None => None,
            },
        }
    }
}

impl<'a> TypeChecker<'a> {
    /// The type recorded for each node: the view's `types`.
    pub fn type_map(&self) -> (r: &HashMap<usize, Type>)
        ensures
            r@.map_values(|t: Type| t@) == self@.types,
    {
        &self.type_map
    }

    /// The visible names: the view's `vars`.
    pub fn var_map(&self) -> (r: &VarMap)
        ensures
            r@ == self@.vars,
    {
        &self.var_map
    }

    pub fn new() -> (r: Self)
        ensures
            r@ == initial_state::<'a>(),
    {
        let r = TypeChecker {
            type_map: HashMap::new(),
            var_map: VarMap::new(),
            debug: HashMap::new(),
            last_func_def: None,
            errors: Vec::new(),
            unlocated: Vec::new(),
            depth: 0,
        };
        proof {
            assert(r@.types =~= Map::<usize, TypeModel>::empty());
            assert(r@.errors =~= Seq::<TypeError<'a, TypeModel>>::empty());
            assert(r@.unlocated =~= Seq::<TypeID>::empty());
        }
        r
    }

    /// The errors found, in the order they were found.
    pub fn errors(&self) -> (r: &Vec<TypeError<'a, Type>>)
        ensures
            r@.map_values(|e: TypeError<'a, Type>| error_model(e)) == self@.errors,
    {
        &self.errors
    }

    /// The nodes an error was to be reported at but whose position is unknown.
    pub fn unlocated(&self) -> (r: &Vec<TypeID>)
        ensures
            r@ == self@.unlocated,
    {
        &self.unlocated
    }

    /// Checks the program; `Ok` exactly when no error was found.
    pub fn check(&mut self, stmts: &Vec<TopLevelStmt<'a>>) -> (r: Result<(), ErrorsPresent>)
        requires
            program_specs_ok(stmts@),
        ensures
            final(self)@ == rule_program(old(self)@, stmts@),
            r is Ok <==> final(self)@.errors.len() == 0,
    {
        let ghost s0 = self@;
        let mut i: usize = 0;
        while i < stmts.len()
            invariant
                i <= stmts.len(),
                program_specs_ok(stmts@),
                self@ == rule_program(s0, stmts@.take(i as int)),
            decreases stmts.len() - i,
        {
            proof {
                assert(stmts@.take(i + 1).drop_last() =~= stmts@.take(i as int));
                assert(top_specs_ok(stmts@[i as int]));
            }
            self.top_level_stmt(&stmts[i]);
            i += 1;
        }
        proof {
            assert(stmts@.take(stmts.len() as int) =~= stmts@);
        }
        if self.errors.len() > 0 {
            Err(ErrorsPresent)
        } else {
            Ok(())
        }
    }

    fn set_type(&mut self, id: TypeID, t: Type)
        ensures
            final(self)@ == old(self)@.with_types(old(self)@.types.insert(id.0, t@)),
    {
        let ghost tm = t@;
        self.type_map.insert(id.0, t);
        proof {
            assert(self@.types =~= old(self)@.types.insert(id.0, tm));
        }
    }

    fn type_of(&self, id: TypeID) -> (r: Option<&Type>)
        ensures
            match r {
                Some(t) => self@.type_of(id) == Some(t@),
                None => self@.type_of(id) is None,
            },
    {
        self.type_map.get(&id.0)
    }

    fn position(&self, id: TypeID) -> (r: Option<(u16, usize)>)
        ensures
            r == self@.position(id),
    {
        match self.debug.get(&id.0) {
            Some(p) => Some(*p),
            None => None,
        }
    }

    fn report(&mut self, e: TypeError<'a, Type>)
        ensures
            final(self)@ == old(self)@.report(error_model(e)),
    {
        let ghost em = error_model(e);
        self.errors.push(e);
        proof {
            assert(self@.errors =~= old(self)@.errors.push(em));
        }
    }

    fn note_unlocated(&mut self, id: TypeID)
        ensures
            final(self)@ == old(self)@.note_unlocated(id),
    {
        self.unlocated.push(id);
    }

    fn debug_info(&mut self, id: TypeID, token: &Token<'a>)
        ensures
            final(self)@ == rule_debug_info(old(self)@, id, *token),
    {
        self.debug.insert(id.0, (token.line, token.pos));
    }

    fn error(&mut self, context: TypeID, kind: NodeError)
        ensures
            final(self)@ == rule_error(old(self)@, context, kind),
    {
        match self.position(context) {
            Some(p) => self.report(TypeError::AtNode { kind, line: p.0, pos: p.1 }),
            None => self.note_unlocated(context),
        }
    }

    fn error_two_contexts(&mut self, con1: TypeID, con2: TypeID, expected: Type, got: Type)
        ensures
            final(self)@ == rule_error_two_contexts(old(self)@, con1, con2, expected@, got@),
    {
        let a = self.position(con1);
        let c = self.position(con2);
        match (a, c) {
            (Some(a), Some(c)) => self.report(
                TypeError::ArgumentType {
                    expected,
                    got,
                    line: a.0,
                    pos: a.1,
                    ctx_line: c.0,
                    ctx_pos: c.1,
                },
            ),
            (None, _) => self.note_unlocated(con1),
            (Some(_), None) => self.note_unlocated(con2),
        }
    }

    fn error_token(&mut self, context: &Token<'a>, kind: TokenError<'a, Type>)
        ensures
            final(self)@ == rule_error_token(old(self)@, *context, token_error_model(kind)),
    {
        self.report(TypeError::AtToken { kind, line: context.line, pos: context.pos })
    }

    fn error_unary(&mut self, op: &Token<'a>, val: TypeID)
        ensures
            final(self)@ == rule_error_unary(old(self)@, *op, val),
    {
        let t = match self.type_of(val) {
            Some(t) => Some(t.duplicate()),
            None => None,
        };
        match t {
            Some(t) => self.report(TypeError::Unary { op: op.lexeme, val: t, line: op.line, pos: op.pos }),
            None => self.note_unlocated(val),
        }
    }

    fn error_binary(&mut self, l: TypeID, op: &Token<'a>, r: TypeID)
        ensures
            final(self)@ == rule_error_binary(old(self)@, l, *op, r),
    {
        let lt = match self.type_of(l) {
            Some(t) => Some(t.duplicate()),
            None => None,
        };
        let rt = match self.type_of(r) {
            Some(t) => Some(t.duplicate()),
            None => None,
        };
        match (lt, rt) {
            (Some(a), Some(b)) => self.report(
                TypeError::Binary { l: a, op: op.lexeme, r: b, line: op.line, pos: op.pos },
            ),
            (None, _) => self.note_unlocated(l),
            (Some(_), None) => self.note_unlocated(r),
        }
    }

    fn array_definition(&mut self, spec: Type, constant: &Option<Token<'a>>, type_id: TypeID)
        ensures
            final(self)@ == rule_array_definition(old(self)@, spec@, *constant, type_id),
    {
        let mut constant_value: Option<usize> = None;
        if let Some(c) = constant {
            match parse_usize(c.lexeme) {
                Ok(v) => {
                    constant_value = Some(v);
                },
                Err(e) => {
                    self.error_token(c, TokenError::ArrayConstant { reason: e });
                },
            }
        }
        self.set_type(type_id, Type::Array(Box::new(spec), constant_value));
    }

    fn variable_definition(
        &mut self,
        type_spec: &Token<'a>,
        init: &Option<Expr<'a>>,
        type_id: TypeID,
        identifier: &'a str,
    )
        requires
            is_type_keyword(type_spec.token_type),
        ensures
            final(self)@ == rule_variable_definition(
                old(self)@,
                *type_spec,
                *init,
                type_id,
                identifier@,
            ),
    {
        if self.var_map.contains_key(identifier) {
            self.error(type_id, NodeError::VariableShadowing);
            return;
        }
        let var_type = Type::primitive(type_spec);
        if let Some(init) = init {
            let init_id = self.expression(init);
            let mismatch = match self.type_of(init_id) {
                Some(t) => if !var_type.equal(t) {
                    Some(t.duplicate())
                } else {
                    None
                },
                None => None,
            };
            if let Some(got) = mismatch {
                self.error_token(
                    type_spec,
                    TokenError::InitType { expected: var_type.duplicate(), got },
                );
            }
        }
        let depth = self.depth;
        self.var_map.insert(identifier.to_owned(), (type_id, depth));
        self.set_type(type_id, var_type);
    }

    fn top_level_stmt(&mut self, stmt: &TopLevelStmt<'a>)
        requires
            top_specs_ok(*stmt),
        ensures
            final(self)@ == rule_top_level(old(self)@, *stmt),
    {
        match &stmt.kind {
            TopLevelStmtKind::GlobalVariable { type_spec, decl, init } => {
                let (type_id, identifier) = self.declaration(decl, type_spec);
                self.variable_definition(type_spec, init, type_id, identifier);
            },
            TopLevelStmtKind::FunctionDefinition { type_spec, decl, params, body } => {
                let (type_id, identifier) = self.declaration(decl, type_spec);
                self.function_definition(Type::primitive(type_spec), params, type_id, identifier);
                self.last_func_def = Some(Type::primitive(type_spec));
                if let Some(body) = body {
                    self.statement(body);
                }
            },
        }
    }
}

impl<'a> TypeChecker<'a> {
    fn function_definition(
        &mut self,
        return_type: Type,
        params: &Vec<Param<'a>>,
        type_id: TypeID,
        identifier: &'a str,
    )
        requires
            params_specs_ok(params@),
        ensures
            final(self)@ == rule_function_definition(
                old(self)@,
                return_type@,
                params@,
                type_id,
                identifier@,
            ),
        decreases params@, 1int,
    {
        if self.var_map.contains_key(identifier) {
            self.error(type_id, NodeError::FunctionRedefinition);
            return;
        }
        if self.depth == usize::MAX {
            self.report(TypeError::TooDeep);
            return;
        }
        let saved = self.depth;
        self.depth = saved + 1;
        let ghost s1 = self@;
        let mut types: Vec<Type> = Vec::new();
        let mut i: usize = 0;
        proof {
            assert(params@.take(0) =~= Seq::<Param<'a>>::empty());
            assert(param_types(params@.take(0)) =~= Seq::<TypeModel>::empty());
            assert(models(types@) =~= Seq::<TypeModel>::empty());
        }
        while i < params.len()
            invariant
                i <= params.len(),
                params_specs_ok(params@),
                self@ == rule_params(s1, params@.take(i as int)),
                models(types@) == param_types(params@.take(i as int)),
            decreases params.len() - i,
        {
            proof {
                lemma_params_specs_ok(params@, i as int);
                assert(params@.take(i + 1).drop_last() =~= params@.take(i as int));
                assert(params@.take(i + 1).last() == params@[i as int]);
                vstd::seq::axiom_seq_index_decreases(params@, i as int);
            }
            let param = &params[i];
            if let Some(decl) = &param.decl {
                let (id, ident) = self.declaration(decl, &param.type_spec);
                self.variable_definition(&param.type_spec, &param.init, id, ident);
            }
            let t = Type::primitive(&param.type_spec);
            proof {
                lemma_models_push(types@, t);
                assert(param_types(params@.take(i + 1)) =~= param_types(params@.take(i as int)).push(
                    primary(params@[i as int].type_spec),
                ));
            }
            types.push(t);
            i += 1;
        }
        proof {
            assert(params@.take(params.len() as int) =~= params@);
        }
        self.depth = saved;
        self.var_map.insert(identifier.to_owned(), (type_id, saved));
        self.set_type(type_id, Type::Function(Box::new(return_type), types));
    }

    fn parameters_compare(&mut self, identifier_id: TypeID, args: &Vec<Expr<'a>>)
        ensures
            final(self)@ == rule_parameters_compare(old(self)@, identifier_id, args@),
        decreases args@, 1int,
    {
        let ghost s0 = self@;
        let mut ids: Vec<TypeID> = Vec::new();
        let mut i: usize = 0;
        proof {
            assert(args@.take(0) =~= Seq::<Expr<'a>>::empty());
            assert(ids@ =~= Seq::<TypeID>::empty());
        }
        while i < args.len()
            invariant
                i <= args.len(),
                (self@, ids@) == rule_arguments(s0, args@.take(i as int)),
            decreases args.len() - i,
        {
            proof {
                assert(args@.take(i + 1).drop_last() =~= args@.take(i as int));
                assert(args@.take(i + 1).last() == args@[i as int]);
                vstd::seq::axiom_seq_index_decreases(args@, i as int);
            }
            let arg_id = self.expression(&args[i]);
            ids.push(arg_id);
            i += 1;
        }
        proof {
            assert(args@.take(args.len() as int) =~= args@);
        }
        let callee = match self.type_of(identifier_id) {
            Some(t) => Some(t.duplicate()),
            None => None,
        };
        let params = match callee {
            Some(Type::Function(_, params)) => params,
            _ => {
                let at = self.position(identifier_id);
                self.report(TypeError::NotCallable { at });
                return;
            },
        };
        proof {
            lemma_models_len(params@);
        }
        if args.len() != params.len() {
            self.error(identifier_id, NodeError::WrongNumberOfArgs);
        }
        let ghost s2 = self@;
        let mut j: usize = 0;
        proof {
            assert(ids@.take(0) =~= Seq::<TypeID>::empty());
        }
        while j < ids.len()
            invariant
                j <= ids.len(),
                models(params@).len() == params@.len(),
                self@ == rule_compare(s2, identifier_id, models(params@), ids@.take(j as int)),
            decreases ids.len() - j,
        {
            proof {
                assert(ids@.take(j + 1).drop_last() =~= ids@.take(j as int));
                assert(ids@.take(j + 1).last() == ids@[j as int]);
            }
            let a = ids[j];
            if j < params.len() {
                proof {
                    lemma_models_index(params@, j as int);
                }
                let arg_type = match self.type_of(a) {
                    Some(t) => Some(t.duplicate()),
                    None => None,
                };
                match arg_type {
                    None => {
                        let at = self.position(a);
                        self.report(TypeError::UntypedArgument { at });
                    },
                    Some(t) => {
                        if !params[j].equal(&t) {
                            self.error_two_contexts(a, identifier_id, params[j].duplicate(), t);
                        }
                    },
                }
            }
            j += 1;
        }
        proof {
            assert(ids@.take(ids.len() as int) =~= ids@);
        }
    }

    fn declaration(&mut self, decl: &Decl<'a>, type_spec: &Token<'a>) -> (r: (TypeID, &'a str))
        requires
            is_type_keyword(type_spec.token_type),
            decl_specs_ok(*decl),
        ensures
            rule_declaration(old(self)@, *decl, *type_spec) == (final(self)@, (r.0, r.1@)),
        decreases decl, 0int,
    {
        let type_id = decl.id;
        match &decl.kind {
            DeclKind::Group(d) => self.declaration(d, type_spec),
            DeclKind::Pointer(d) => self.declaration(d, type_spec),
            DeclKind::Identifier(tok) => {
                self.debug_info(type_id, tok);
                (type_id, tok.lexeme)
            },
            DeclKind::Function { decl: inner, params } => {
                let (id, identifier) = self.declaration(inner, type_spec);
                proof {
                    vstd::std_specs::vec::axiom_vec_decreases_to_view(*params);
                }
                self.function_definition(Type::primitive(type_spec), params, type_id, identifier);
                (id, identifier)
            },
            DeclKind::Array { decl: inner, constant } => {
                let r = self.declaration(inner, type_spec);
                self.array_definition(Type::primitive(type_spec), constant, type_id);
                r
            },
        }
    }

    fn operands(&mut self, l: TypeID, op: &Token<'a>, r: TypeID)
        ensures
            final(self)@ == rule_operands(old(self)@, l, *op, r),
    {
        let differ = match (self.type_of(l), self.type_of(r)) {
            (Some(a), Some(b)) => !a.equal(b),
            _ => false,
        };
        if differ {
            self.error_binary(l, op, r);
        }
    }

    fn expression(&mut self, expr: &Expr<'a>) -> (r: TypeID)
        ensures
            rule_expression(old(self)@, *expr) == (final(self)@, r),
        decreases expr, 1int,
    {
        let type_id = expr.id;
        match &expr.kind {
            ExprKind::IntLiteral { debug, .. } => {
                self.debug_info(type_id, debug);
                self.set_type(type_id, Type::Primary(PrimaryEnum::Int));
                type_id
            },
            ExprKind::FloatLiteral { debug } => {
                self.debug_info(type_id, debug);
                self.set_type(type_id, Type::Primary(PrimaryEnum::Float));
                type_id
            },
            ExprKind::BoolLiteral { debug, .. } => {
                self.debug_info(type_id, debug);
                self.set_type(type_id, Type::Primary(PrimaryEnum::Bool));
                type_id
            },
            ExprKind::StringLiteral { debug, .. } => {
                self.debug_info(type_id, debug);
                self.set_type(type_id, Type::Primary(PrimaryEnum::String));
                type_id
            },
            ExprKind::Identifier(tok) => {
                self.debug_info(type_id, tok);
                match self.var_map.get(tok.lexeme) {
                    None => {
                        self.error_token(tok, TokenError::UnknownVariable { name: tok.lexeme });
                        type_id
                    },
                    Some((var_id, depth)) => {
                        if depth > self.depth {
                            self.error_token(
                                tok,
                                TokenError::InaccessibleVariable { name: tok.lexeme },
                            );
                            type_id
                        } else {
                            var_id
                        }
                    },
                }
            },
            ExprKind::Call { identifier, arguments } => {
                let identifier_id = self.expression(identifier);
                proof {
                    vstd::std_specs::vec::axiom_vec_decreases_to_view(*arguments);
                }
                self.parameters_compare(identifier_id, arguments);
                identifier_id
            },
            ExprKind::Index { identifier, argument } => {
                let id = self.expression(argument);
                let wrong = match self.type_of(id) {
                    Some(t) => !t.equal(&Type::Primary(PrimaryEnum::Int)),
                    None => false,
                };
                if wrong {
                    self.error(id, NodeError::ExpectedInt);
                }
                self.expression(identifier)
            },
            ExprKind::UnaryOp { op, val } => {
                let id = self.expression(val);
                let wrong = match self.type_of(id) {
                    Some(t) => !t.equal(&Type::Primary(PrimaryEnum::Bool)),
                    None => false,
                };
                if wrong {
                    self.error_unary(op, id);
                }
                id
            },
            ExprKind::BinaryOp { l, op, r } => {
                let l_id = self.expression(l);
                let r_id = self.expression(r);
                self.operands(l_id, op, r_id);
                l_id
            },
            ExprKind::LogicalOp { l, op, r } => {
                let l_id = self.expression(l);
                let r_id = self.expression(r);
                self.operands(l_id, op, r_id);
                l_id
            },
            ExprKind::Assignment { l, op, r } => {
                let l_id = self.expression(l);
                let r_id = self.expression(r);
                self.operands(l_id, op, r_id);
                l_id
            },
            ExprKind::Group(g) => self.expression(g),
        }
    }
}

impl<'a> TypeChecker<'a> {
    /// Whether the type at `cond` is `bool`, when there is one.
    fn condition_type(&self, cond: TypeID) -> (r: Option<bool>)
        ensures
            match r {
                Some(b) => self@.type_of(cond) is Some && b == (self@.type_of(cond).unwrap()
                    == TypeModel::Primary(PrimaryEnum::Bool)),
                None => self@.type_of(cond) is None,
            },
    {
        match self.type_of(cond) {
            Some(t) => Some(t.equal(&Type::Primary(PrimaryEnum::Bool))),
            None => None,
        }
    }

    fn last_function_type(&self) -> (r: Option<Type>)
        ensures
            match r {
                Some(t) => self@.last_func == Some(t@),
                None => self@.last_func is None,
            },
    {
        match &self.last_func_def {
            Some(f) => Some(f.duplicate()),
            None => None,
        }
    }

    fn statement(&mut self, stmt: &Stmt<'a>)
        requires
            stmt_specs_ok(*stmt),
        ensures
            final(self)@ == rule_statement(old(self)@, *stmt),
        decreases stmt,
    {
        match &stmt.kind {
            StmtKind::If { cond, stmt: inner, otherwise, .. } => {
                let cond_id = self.expression(cond);
                if let Some(is_bool) = self.condition_type(cond_id) {
                    if !is_bool {
                        self.error(cond_id, NodeError::ExpectedBool);
                    }
                    self.statement(inner);
                    if let Some(otherwise) = otherwise {
                        self.statement(otherwise);
                    }
                }
            },
            StmtKind::While { cond, body, .. } => {
                let cond_id = self.expression(cond);
                if let Some(is_bool) = self.condition_type(cond_id) {
                    if !is_bool {
                        self.error(cond_id, NodeError::ExpectedBool);
                    }
                    self.statement(body);
                }
            },
            StmtKind::For { cond, body, .. } => {
                let cond_id = self.expression(cond);
                if let Some(is_bool) = self.condition_type(cond_id) {
                    if !is_bool {
                        self.error(cond_id, NodeError::ExpectedBool);
                    }
                    self.statement(body);
                }
            },
            StmtKind::Compound(stmts) => {
                if self.depth == usize::MAX {
                    self.report(TypeError::TooDeep);
                    return;
                }
                let saved = self.depth;
                self.depth = saved + 1;
                let ghost s1 = self@;
                let mut i: usize = 0;
                proof {
                    assert(stmts@.take(0) =~= Seq::<Stmt<'a>>::empty());
                    vstd::std_specs::vec::axiom_vec_decreases_to_view(*stmts);
                }
                while i < stmts.len()
                    invariant
                        i <= stmts.len(),
                        stmts_specs_ok(stmts@),
                        self@ == rule_statements(s1, stmts@.take(i as int)),
                        decreases_to!(*stmt => stmts@),
                    decreases stmts.len() - i,
                {
                    proof {
                        lemma_stmts_specs_ok(stmts@, i as int);
                        assert(stmts@.take(i + 1).drop_last() =~= stmts@.take(i as int));
                        assert(stmts@.take(i + 1).last() == stmts@[i as int]);
                        vstd::seq::axiom_seq_index_decreases(stmts@, i as int);
                    }
                    self.statement(&stmts[i]);
                    i += 1;
                }
                proof {
                    assert(stmts@.take(stmts.len() as int) =~= stmts@);
                }
                self.depth = saved;
            },
            StmtKind::Return { debug, expr } => match expr {
                None => match self.last_function_type() {
                    None => self.error_token(debug, TokenError::ReturnOutsideFunction),
                    Some(f) => {
                        if !f.equal(&Type::Primary(PrimaryEnum::Void)) {
                            self.error_token(debug, TokenError::ReturnVoid { expected: f });
                        }
                    },
                },
                Some(e) => {
                    let expr_id = self.expression(e);
                    let got = match self.type_of(expr_id) {
                        Some(t) => Some(t.duplicate()),
                        None => None,
                    };
                    match got {
                        None => self.error_token(debug, TokenError::UntypedReturn),
                        Some(t) => match self.last_function_type() {
                            None => self.error_token(debug, TokenError::ReturnOutsideFunction),
                            Some(f) => {
                                if !f.equal(&t) {
                                    self.error_token(
                                        debug,
                                        TokenError::ReturnType { expected: f, got: t },
                                    );
                                }
                            },
                        },
                    }
                },
            },
            StmtKind::Expression(expr) => {
                self.expression(expr);
            },
            StmtKind::VarDecl { type_spec, decl, init } => {
                let (type_id, identifier) = self.declaration(decl, type_spec);
                self.variable_definition(type_spec, init, type_id, identifier);
            },
        }
    }
}

/// Whether every type specifier in the declarator names a type.
pub fn decl_specs_are_types(d: &Decl) -> (r: bool)
    ensures
        r == decl_specs_ok(*d),
    decreases d, 1int,
{
    match &d.kind {
        DeclKind::Group(g) => decl_specs_are_types(g),
        DeclKind::Pointer(g) => decl_specs_are_types(g),
        DeclKind::Identifier(_) => true,
        DeclKind::Function { decl, params } => {
            proof {
                vstd::std_specs::vec::axiom_vec_decreases_to_view(*params);
            }
            decl_specs_are_types(decl) && params_specs_are_types(params)
        },
        DeclKind::Array { decl, .. } => decl_specs_are_types(decl),
    }
}

/// Whether every type specifier in the parameter list names a type.
pub fn params_specs_are_types(ps: &Vec<Param>) -> (r: bool)
    ensures
        r == params_specs_ok(ps@),
    decreases ps@, 0int,
{
    let mut i: usize = 0;
    let mut ok = true;
    proof {
        assert(ps@.take(0) =~= Seq::<Param>::empty());
    }
    while i < ps.len()
        invariant
            i <= ps.len(),
            ok == params_specs_ok(ps@.take(i as int)),
        decreases ps.len() - i,
    {
        proof {
            assert(ps@.take(i + 1).drop_last() =~= ps@.take(i as int));
            assert(ps@.take(i + 1).last() == ps@[i as int]);
            vstd::seq::axiom_seq_index_decreases(ps@, i as int);
        }
        let p = &ps[i];
        let this = is_type_name(&p.type_spec) && match &p.decl {
            Some(d) => decl_specs_are_types(d),
            None => true,
        };
        ok = ok && this;
        i += 1;
    }
    proof {
        assert(ps@.take(ps.len() as int) =~= ps@);
    }
    ok
}

/// Whether the token is a type keyword.
pub fn is_type_name(t: &Token) -> (r: bool)
    ensures
        r == is_type_keyword(t.token_type),
{
    match t.token_type {
        TokenType::KwInt | TokenType::KwFloat | TokenType::KwChar | TokenType::KwString
        | TokenType::KwVoid | TokenType::KwBool => true,
        _ => false,
    }
}

/// Whether every type specifier in the statement names a type.
pub fn stmt_specs_are_types(st: &Stmt) -> (r: bool)
    ensures
        r == stmt_specs_ok(*st),
    decreases st,
{
    match &st.kind {
        StmtKind::If { stmt, otherwise, .. } => stmt_specs_are_types(stmt) && match otherwise {
            Some(o) => stmt_specs_are_types(o),
            None => true,
        },
        StmtKind::While { body, .. } => stmt_specs_are_types(body),
        StmtKind::For { decl, body, .. } => stmt_specs_are_types(decl) && stmt_specs_are_types(body),
        StmtKind::Compound(ss) => {
            let mut i: usize = 0;
            let mut ok = true;
            proof {
                assert(ss@.take(0) =~= Seq::<Stmt>::empty());
                vstd::std_specs::vec::axiom_vec_decreases_to_view(*ss);
            }
            while i < ss.len()
                invariant
                    i <= ss.len(),
                    ok == stmts_specs_ok(ss@.take(i as int)),
                    decreases_to!(*st => ss@),
                decreases ss.len() - i,
            {
                proof {
                    assert(ss@.take(i + 1).drop_last() =~= ss@.take(i as int));
                    assert(ss@.take(i + 1).last() == ss@[i as int]);
                    vstd::seq::axiom_seq_index_decreases(ss@, i as int);
                }
                let this = stmt_specs_are_types(&ss[i]);
                ok = ok && this;
                i += 1;
            }
            proof {
                assert(ss@.take(ss.len() as int) =~= ss@);
            }
            ok
        },
        StmtKind::Return { .. } => true,
        StmtKind::Expression(_) => true,
        StmtKind::VarDecl { type_spec, decl, .. } => is_type_name(type_spec)
            && decl_specs_are_types(decl),
    }
}

/// Whether every type specifier of the program names a type: what `check`
/// needs of its input.
pub fn program_specs_are_types(stmts: &Vec<TopLevelStmt>) -> (r: bool)
    ensures
        r == program_specs_ok(stmts@),
{
    let mut i: usize = 0;
    while i < stmts.len()
        invariant
            i <= stmts.len(),
            forall|k: int| 0 <= k < i ==> #[trigger] top_specs_ok(stmts@[k]),
        decreases stmts.len() - i,
    {
        let ok = match &stmts[i].kind {
            TopLevelStmtKind::GlobalVariable { type_spec, decl, .. } => is_type_name(type_spec)
                && decl_specs_are_types(decl),
            TopLevelStmtKind::FunctionDefinition { type_spec, decl, params, body } => {
                is_type_name(type_spec) && decl_specs_are_types(decl) && params_specs_are_types(params)
                    && match body {
                    Some(b) => stmt_specs_are_types(b),
                    None => true,
                }
            },
        };
        if !ok {
            assert(!top_specs_ok(stmts@[i as int]));
            return false;
        }
        i += 1;
    }
    true
}

} // verus!
