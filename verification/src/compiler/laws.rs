//! Properties of the chunk operations and of compiled programs.
use vstd::prelude::*;

use crate::compiler::chunk::{FunctionModel, name_index, ChunkModel, Instruction, OpCode, ValueModel, VariableModel, MAX_INSTRUCTIONS};
use crate::compiler::rules::{declared_name, rule_c_arguments, rule_function_body, rule_walk, rule_walk_all, CompileError, c_emit, c_push_constant, c_push_name, rule_c_expression, rule_compile, CompileState};
use crate::vm::rules::{rule_execute, FrameModel, StepModel, VmError, VmState};
use crate::parser::ast::{Decl, Expr, ExprKind, TopLevelStmt, TopLevelStmtKind};
use crate::lexer::{Token, TokenType};
use crate::type_checker::annotation::{PrimaryEnum, TypeID, TypeModel};

verus! {

/// Entering a name that the table already has changes nothing and gives
/// the index it was entered at: a name is entered once, whatever depth it
/// is entered with later.
pub proof fn lemma_push_name_stable(c: ChunkModel, name: Seq<char>, d1: u16, d2: u16)
    ensures
        c_push_name(c_push_name(c, name, d1).0, name, d2) == c_push_name(c, name, d1),
{
    let (c1, k1) = c_push_name(c, name, d1);
    if name_index(c.names, name) is None {
        let v = VariableModel { name, depth: d1 };
        assert(c.names.push(v).drop_last() =~= c.names);
        assert(name_index(c1.names, name) == Some(c.names.len() as int));
    }
}

/// A constant entered into a pool with room is found at the index given
/// back.
pub proof fn lemma_push_constant_found(c: ChunkModel, v: ValueModel)
    requires
        c.constants.len() < u16::MAX,
    ensures
        c_push_constant(c, v).0.constants[c_push_constant(c, v).1 as int] == v,
        c_push_constant(c, v).0.constants.len() == c.constants.len() + 1,
{
}

/// An instruction is either appended or the chunk is marked overflowed;
/// a chunk never holds more than `MAX_INSTRUCTIONS + 1` instructions.
pub proof fn lemma_emit_appends_or_overflows(c: ChunkModel, opcode: OpCode, operand: u16)
    ensures
        c_emit(c, opcode, operand).instructions == c.instructions.push(
            Instruction { opcode, operand },
        ) || (c_emit(c, opcode, operand).overflow && c_emit(c, opcode, operand).instructions
            == c.instructions),
        c.instructions.len() <= MAX_INSTRUCTIONS + 1 ==> c_emit(
            c,
            opcode,
            operand,
        ).instructions.len() <= MAX_INSTRUCTIONS + 1,
        c.overflow ==> c_emit(c, opcode, operand).overflow,
{
}

/// A compiled program ends with `Stop`, unless its chunk overflowed.
pub proof fn lemma_compiled_program_ends_with_stop(s: CompileState, stmts: Seq<TopLevelStmt>)
    ensures
        rule_compile(s, stmts) matches Ok(t) ==> t.chunk.overflow || t.chunk.instructions.last()
            == (Instruction { opcode: OpCode::Stop, operand: 0 }),
{
}

/// The value a literal stands for, and the instruction that loads it.
pub open spec fn literal_load(e: Expr) -> Option<(ValueModel, OpCode)> {
    match e.kind {
        ExprKind::IntLiteral { val, .. } => Some((ValueModel::Int(val), OpCode::LoadInt)),
        ExprKind::FloatLiteral { debug } => Some((ValueModel::Float(debug.lexeme@), OpCode::LoadFloat)),
        ExprKind::BoolLiteral { val, .. } => Some((ValueModel::Bool(val), OpCode::LoadBool)),
        ExprKind::StringLiteral { val, .. } => Some((ValueModel::Str(val@), OpCode::LoadString)),
        _ => None,
    }
}

/// A literal compiles to one load of a new constant equal to its value: the
/// value is appended to the constant pool, one load instruction of the
/// literal's kind, referring to it, is appended to the code, nothing else
/// changes, and running that instruction from the compiled code pushes the
/// literal's value.
pub proof fn lemma_literal_loads_its_value(s: CompileState, e: Expr, m: VmState, f: FrameModel)
    requires
        literal_load(e) is Some,
        s.chunk.constants.len() < u16::MAX,
        s.chunk.instructions.len() <= MAX_INSTRUCTIONS,
    ensures
        ({
            let (v, op) = literal_load(e)->0;
            &&& rule_c_expression(s, e) matches Ok(t)
            &&& t.chunk.constants == s.chunk.constants.push(v)
            &&& t.chunk.instructions == s.chunk.instructions.push(
                Instruction { opcode: op, operand: s.chunk.constants.len() as u16 },
            )
            &&& t.chunk.names == s.chunk.names
            &&& t.chunk.overflow == s.chunk.overflow
            &&& t.depth == s.depth
            &&& t.types == s.types
            &&& t.vars == s.vars
            &&& f.func.chunk.constants == t.chunk.constants ==> rule_execute(
                m,
                f,
                t.chunk.instructions.last(),
            ) == Ok::<(VmState, StepModel, Option<FrameModel>), VmError>(
                (m.push(v), StepModel::Continue, None),
            )
        }),
{
}

/// `s` with `opcode` (operand 0) appended to its code.
pub open spec fn then_emit(s: CompileState, opcode: OpCode) -> CompileState {
    s.with_chunk(
        ChunkModel {
            instructions: s.chunk.instructions.push(Instruction { opcode, operand: 0 }),
            ..s.chunk
        },
    )
}

/// A binary operation compiles its left operand, then its right one, then
/// one instruction chosen by the operator and by the type recorded for the
/// operation: `+` on `int`, `float` and `string` is `AddInt`, `AddFloat`
/// and `AddString`; `-`, `*` and `/` on `int` and `float` are the `Sub`,
/// `Mul` and `Div` instructions of that type. Any other pair is refused.
pub proof fn lemma_binary_operation_code<'a>(
    s: CompileState,
    l: Expr<'a>,
    op: Token<'a>,
    r: Expr<'a>,
    id: TypeID,
    s1: CompileState,
    s2: CompileState,
    p: PrimaryEnum,
)
    requires
        rule_c_expression(s, l) == Ok::<CompileState, CompileError>(s1),
        rule_c_expression(s1, r) == Ok::<CompileState, CompileError>(s2),
        s2.types.contains_key(id.0),
        s2.types[id.0] == TypeModel::Primary(p),
        s2.chunk.instructions.len() <= MAX_INSTRUCTIONS,
    ensures
        ({
            let e = Expr { kind: ExprKind::BinaryOp { l: Box::new(l), op, r: Box::new(r) }, id };
            let t = op.token_type;
            let gives = |code: OpCode|
                rule_c_expression(s, e) == Ok::<CompileState, CompileError>(then_emit(s2, code));
            &&& t == TokenType::OpPlus && p == PrimaryEnum::Int ==> gives(OpCode::AddInt)
            &&& t == TokenType::OpPlus && p == PrimaryEnum::Float ==> gives(OpCode::AddFloat)
            &&& t == TokenType::OpPlus && p == PrimaryEnum::String ==> gives(OpCode::AddString)
            &&& t == TokenType::OpMinus && p == PrimaryEnum::Int ==> gives(OpCode::SubInt)
            &&& t == TokenType::OpMinus && p == PrimaryEnum::Float ==> gives(OpCode::SubFloat)
            &&& t == TokenType::OpStar && p == PrimaryEnum::Int ==> gives(OpCode::MulInt)
            &&& t == TokenType::OpStar && p == PrimaryEnum::Float ==> gives(OpCode::MulFloat)
            &&& t == TokenType::OpSlash && p == PrimaryEnum::Int ==> gives(OpCode::DivInt)
            &&& t == TokenType::OpSlash && p == PrimaryEnum::Float ==> gives(OpCode::DivFloat)
            &&& !(t == TokenType::OpPlus && (p == PrimaryEnum::Int || p == PrimaryEnum::Float
                || p == PrimaryEnum::String)) && !((t == TokenType::OpMinus || t == TokenType::OpStar
                || t == TokenType::OpSlash) && (p == PrimaryEnum::Int || p == PrimaryEnum::Float))
                ==> rule_c_expression(s, e) == Err::<CompileState, CompileError>(
                CompileError::UnsupportedBinary(t, p),
            )
        }),
{
}

/// `&&` and `||` compile both operands, left then right, then `AndBool` or
/// `OrBool`; `!` compiles its operand, then `NotBool`.
pub proof fn lemma_logic_code<'a>(
    s: CompileState,
    l: Expr<'a>,
    op: Token<'a>,
    r: Expr<'a>,
    id: TypeID,
    s1: CompileState,
    s2: CompileState,
)
    requires
        rule_c_expression(s, l) == Ok::<CompileState, CompileError>(s1),
        rule_c_expression(s1, r) == Ok::<CompileState, CompileError>(s2),
        s1.chunk.instructions.len() <= MAX_INSTRUCTIONS,
        s2.chunk.instructions.len() <= MAX_INSTRUCTIONS,
    ensures
        ({
            let both = Expr { kind: ExprKind::LogicalOp { l: Box::new(l), op, r: Box::new(r) }, id };
            let not = Expr { kind: ExprKind::UnaryOp { op, val: Box::new(l) }, id };
            &&& op.token_type == TokenType::OpLogAnd ==> rule_c_expression(s, both) == Ok::<
                CompileState,
                CompileError,
            >(then_emit(s2, OpCode::AndBool))
            &&& op.token_type == TokenType::OpLogOr ==> rule_c_expression(s, both) == Ok::<
                CompileState,
                CompileError,
            >(then_emit(s2, OpCode::OrBool))
            &&& op.token_type == TokenType::OpExclaim ==> rule_c_expression(s, not) == Ok::<
                CompileState,
                CompileError,
            >(then_emit(s1, OpCode::NotBool))
        }),
{
}

/// A global variable whose name the table does not have yet takes the next
/// name index `k`, at depth 0; its code is `DefineGlobal k`, then its
/// initializer's code, then `StoreGlobal k` (only `DefineGlobal k` without
/// an initializer).
pub proof fn lemma_global_variable_code<'a>(
    s: CompileState,
    type_spec: Token<'a>,
    decl: Decl<'a>,
    init: Option<Expr<'a>>,
    id: TypeID,
)
    requires
        name_index(s.chunk.names, declared_name(decl).0.lexeme@) is None,
        s.chunk.names.len() < u16::MAX,
        s.chunk.instructions.len() < MAX_INSTRUCTIONS,
    ensures
        ({
            let t = TopLevelStmt { kind: TopLevelStmtKind::GlobalVariable { type_spec, decl, init }, id };
            let k = s.chunk.names.len() as u16;
            let v = VariableModel { name: declared_name(decl).0.lexeme@, depth: 0 };
            let s1 = s.with_chunk(
                ChunkModel {
                    names: s.chunk.names.push(v),
                    instructions: s.chunk.instructions.push(
                        Instruction { opcode: OpCode::DefineGlobal, operand: k },
                    ),
                    ..s.chunk
                },
            );
            &&& init is None ==> rule_walk(s, t) == Ok::<CompileState, CompileError>(s1)
            &&& init matches Some(e) ==> match rule_c_expression(s1, e) {
                Ok(s2) => s2.chunk.instructions.len() <= MAX_INSTRUCTIONS ==> rule_walk(s, t) == Ok::<
                    CompileState,
                    CompileError,
                >(
                    s2.with_chunk(
                        ChunkModel {
                            instructions: s2.chunk.instructions.push(
                                Instruction { opcode: OpCode::StoreGlobal, operand: k },
                            ),
                            ..s2.chunk
                        },
                    ),
                ),
                Err(err) => rule_walk(s, t) == Err::<CompileState, CompileError>(err),
            }
        }),
{
}

proof fn lemma_name_index_found(names: Seq<VariableModel>, name: Seq<char>)
    ensures
        name_index(names, name) matches Some(i) ==> 0 <= i < names.len() && names[i].name == name
            && forall|k: int| 0 <= k < i ==> #[trigger] names[k].name != name,
        name_index(names, name) is None ==> forall|k: int| 0 <= k < names.len() ==> #[trigger] names[k].name != name,
    decreases names.len(),
{
    if names.len() > 0 {
        let d = names.drop_last();
        lemma_name_index_found(d, name);
        assert forall|k: int| 0 <= k < d.len() implies #[trigger] names[k] == d[k] by {}
    }
}

/// A name compiles to loads from its entry in the name table: the first
/// entry of that name when the table has one, else a new last entry at the
/// current depth. An entry of depth 0 is a global, loaded by `LoadGlobal k`
/// and then `LoadName k`; any other is loaded by `LoadName k` alone.
pub proof fn lemma_name_load_code<'a>(s: CompileState, tok: Token<'a>, id: TypeID)
    requires
        s.chunk.names.len() < u16::MAX,
        s.chunk.instructions.len() < MAX_INSTRUCTIONS,
    ensures
        ({
            let name = tok.lexeme@;
            let found = name_index(s.chunk.names, name);
            let names = if found is Some {
                s.chunk.names
            } else {
                s.chunk.names.push(VariableModel { name, depth: s.depth })
            };
            let k: int = match found {
                Some(i) => i,
                None => s.chunk.names.len() as int,
            };
            let load = Instruction { opcode: OpCode::LoadName, operand: k as u16 };
            let code = if names[k].depth == 0 {
                seq![Instruction { opcode: OpCode::LoadGlobal, operand: k as u16 }, load]
            } else {
                seq![load]
            };
            &&& 0 <= k < names.len()
            &&& names[k].name == name
            &&& forall|j: int| 0 <= j < k ==> #[trigger] names[j].name != name
            &&& rule_c_expression(s, Expr { kind: ExprKind::Identifier(tok), id }) == Ok::<
                CompileState,
                CompileError,
            >(
                s.with_chunk(
                    ChunkModel { names, instructions: s.chunk.instructions + code, ..s.chunk },
                ),
            )
        }),
{
    let name = tok.lexeme@;
    lemma_name_index_found(s.chunk.names, name);
    let found = name_index(s.chunk.names, name);
    let names = if found is Some {
        s.chunk.names
    } else {
        s.chunk.names.push(VariableModel { name, depth: s.depth })
    };
    let k: int = match found {
        Some(i) => i,
        None => s.chunk.names.len() as int,
    };
    let load = Instruction { opcode: OpCode::LoadName, operand: k as u16 };
    if names[k].depth == 0 {
        assert(s.chunk.instructions.push(Instruction { opcode: OpCode::LoadGlobal, operand: k as u16 }).push(load)
            =~= s.chunk.instructions + seq![Instruction { opcode: OpCode::LoadGlobal, operand: k as u16 }, load]);
    } else {
        assert(s.chunk.instructions.push(load) =~= s.chunk.instructions + seq![load]);
    }
}

/// An assignment to a declared name stores into that name's entry: its
/// value's code comes first, then `StoreGlobal k` for an entry of depth 0
/// and `StoreName k` for any other. An undeclared name, or a target that is
/// not a name, is refused.
pub proof fn lemma_assignment_code<'a>(
    s: CompileState,
    l: Expr<'a>,
    op: Token<'a>,
    r: Expr<'a>,
    id: TypeID,
)
    requires
        op.token_type == TokenType::OpEqual,
    ensures
        ({
            let e = Expr { kind: ExprKind::Assignment { l: Box::new(l), op, r: Box::new(r) }, id };
            &&& !(l.kind is Identifier) ==> rule_c_expression(s, e) == Err::<CompileState, CompileError>(
                CompileError::InvalidTarget,
            )
            &&& l.kind matches ExprKind::Identifier(tok) ==> {
                let name = tok.lexeme@;
                &&& !s.vars.contains_key(name) ==> rule_c_expression(s, e) == Err::<
                    CompileState,
                    CompileError,
                >(CompileError::UnknownName)
                &&& s.vars.contains_key(name) && s.vars[name].1 <= u16::MAX ==> {
                    let (c1, k) = c_push_name(s.chunk, name, s.vars[name].1 as u16);
                    match rule_c_expression(s.with_chunk(c1), r) {
                        Ok(s2) => s2.chunk.instructions.len() <= MAX_INSTRUCTIONS && k < s2.chunk.names.len()
                            ==> rule_c_expression(s, e) == Ok::<CompileState, CompileError>(
                            s2.with_chunk(
                                ChunkModel {
                                    instructions: s2.chunk.instructions.push(
                                        Instruction {
                                            opcode: if s2.chunk.names[k as int].depth == 0 {
                                                OpCode::StoreGlobal
                                            } else {
                                                OpCode::StoreName
                                            },
                                            operand: k,
                                        },
                                    ),
                                    ..s2.chunk
                                },
                            ),
                        ),
                        Err(err) => rule_c_expression(s, e) == Err::<CompileState, CompileError>(err),
                    }
                }
            }
        }),
{
}

/// A call compiles its arguments left to right, then the called
/// expression, then `Call` with the number of arguments.
pub proof fn lemma_call_code<'a>(
    s: CompileState,
    callee: Expr<'a>,
    args: Vec<Expr<'a>>,
    id: TypeID,
    s1: CompileState,
    s2: CompileState,
)
    requires
        rule_c_arguments(s, args@) == Ok::<CompileState, CompileError>(s1),
        rule_c_expression(s1, callee) == Ok::<CompileState, CompileError>(s2),
        s2.chunk.instructions.len() <= MAX_INSTRUCTIONS,
    ensures
        rule_c_expression(
            s,
            Expr { kind: ExprKind::Call { identifier: Box::new(callee), arguments: args }, id },
        ) == Ok::<CompileState, CompileError>(
            s2.with_chunk(
                ChunkModel {
                    instructions: s2.chunk.instructions.push(
                        Instruction { opcode: OpCode::Call, operand: args@.len() as u16 },
                    ),
                    ..s2.chunk
                },
            ),
        ),
        args@.len() > 0 ==> rule_c_arguments(s, args@) == match rule_c_arguments(
            s,
            args@.drop_last(),
        ) {
            Ok(t) => rule_c_expression(t, args@.last()),
            Err(err) => Err(err),
        },
{
}

/// After the program's own code comes a call of `main` and `Stop`: the
/// code of a compiled program is the code of its items, then
/// `LoadGlobal k` for the entry `k` of `main` (a new entry of depth 0 when
/// the table has none), `Call 0` and `Stop`.
pub proof fn lemma_program_calls_main(s: CompileState, stmts: Seq<TopLevelStmt>, s1: CompileState)
    requires
        rule_walk_all(s, stmts) == Ok::<CompileState, CompileError>(s1),
        s1.chunk.names.len() < u16::MAX,
        s1.chunk.instructions.len() + 2 <= MAX_INSTRUCTIONS,
    ensures
        ({
            let main = seq!['m', 'a', 'i', 'n'];
            let k: int = match name_index(s1.chunk.names, main) {
                Some(i) => i,
                None => s1.chunk.names.len() as int,
            };
            &&& rule_compile(s, stmts) matches Ok(t)
            &&& t.chunk.instructions == s1.chunk.instructions + seq![
                Instruction { opcode: OpCode::LoadGlobal, operand: k as u16 },
                Instruction { opcode: OpCode::Call, operand: 0 },
                Instruction { opcode: OpCode::Stop, operand: 0 },
            ]
            &&& t.chunk.names[k].name == main
            &&& t.chunk.constants == s1.chunk.constants
        }),
{
    lemma_name_index_found(s1.chunk.names, seq!['m', 'a', 'i', 'n']);
    let k: int = match name_index(s1.chunk.names, seq!['m', 'a', 'i', 'n']) {
        Some(i) => i,
        None => s1.chunk.names.len() as int,
    };
    let i = s1.chunk.instructions;
    assert(i.push(Instruction { opcode: OpCode::LoadGlobal, operand: k as u16 }).push(
        Instruction { opcode: OpCode::Call, operand: 0 },
    ).push(Instruction { opcode: OpCode::Stop, operand: 0 }) =~= i + seq![
        Instruction { opcode: OpCode::LoadGlobal, operand: k as u16 },
        Instruction { opcode: OpCode::Call, operand: 0 },
        Instruction { opcode: OpCode::Stop, operand: 0 },
    ]);
}

/// A function definition whose name the table does not have yet takes the
/// next name index `k` at depth 0 and the next constant `f`, which holds the
/// function (its name, its number of parameters and its own code); its code
/// is `DefineGlobal k`, `AllocPtr f`, `StoreGlobal k`. The function's own
/// code is its body compiled with the parameters as its first names, at
/// depth 1, followed by `Return`.
pub proof fn lemma_function_definition_code<'a>(
    s: CompileState,
    type_spec: Token<'a>,
    decl: Decl<'a>,
    params: Vec<crate::parser::ast::Param<'a>>,
    body: Option<crate::parser::ast::Stmt<'a>>,
    id: TypeID,
    code: ChunkModel,
)
    requires
        name_index(s.chunk.names, declared_name(decl).0.lexeme@) is None,
        s.chunk.names.len() < u16::MAX,
        s.chunk.constants.len() < u16::MAX,
        s.chunk.instructions.len() + 2 <= MAX_INSTRUCTIONS,
        rule_function_body(s, params@, body) == Ok::<ChunkModel, CompileError>(code),
    ensures
        ({
            let t = TopLevelStmt {
                kind: TopLevelStmtKind::FunctionDefinition { type_spec, decl, params, body },
                id,
            };
            let name = declared_name(decl).0.lexeme@;
            let k = s.chunk.names.len() as u16;
            let f = s.chunk.constants.len() as u16;
            let func = FunctionModel { name, arity: params@.len() as u16, chunk: code };
            &&& rule_walk(s, t) == Ok::<CompileState, CompileError>(
                s.with_chunk(
                    ChunkModel {
                        names: s.chunk.names.push(VariableModel { name, depth: 0 }),
                        constants: s.chunk.constants.push(ValueModel::Func(func)),
                        instructions: s.chunk.instructions + seq![
                            Instruction { opcode: OpCode::DefineGlobal, operand: k },
                            Instruction { opcode: OpCode::AllocPtr, operand: f },
                            Instruction { opcode: OpCode::StoreGlobal, operand: k },
                        ],
                        ..s.chunk
                    },
                ),
            )
            &&& !code.overflow ==> code.instructions.last() == (Instruction { opcode: OpCode::Return, operand: 0 })
        }),
{
    let i = s.chunk.instructions;
    let k = s.chunk.names.len() as u16;
    let f = s.chunk.constants.len() as u16;
    assert(i.push(Instruction { opcode: OpCode::DefineGlobal, operand: k }).push(
        Instruction { opcode: OpCode::AllocPtr, operand: f },
    ).push(Instruction { opcode: OpCode::StoreGlobal, operand: k }) =~= i + seq![
        Instruction { opcode: OpCode::DefineGlobal, operand: k },
        Instruction { opcode: OpCode::AllocPtr, operand: f },
        Instruction { opcode: OpCode::StoreGlobal, operand: k },
    ]);
}

} // verus!
