//! Bytecode: instructions, the constant pool and the name table of a
//! compiled unit.
use vstd::prelude::*;

use crate::parser::literal::str_equal;
use vstd::string::StringExecFns;

verus! {

/// Instructions are pushed only while there are at most this many.
pub const MAX_INSTRUCTIONS: usize = 65_535;

#[derive(Debug, Clone, Copy, PartialEq, Eq, Structural)]
pub enum OpCode {
    AddInt,
    SubInt,
    MulInt,
    DivInt,
    AddFloat,
    SubFloat,
    MulFloat,
    DivFloat,
    AddString,
    AndBool,
    OrBool,
    NotBool,
    LoadInt,
    LoadFloat,
    LoadString,
    LoadBool,
    LoadPtr,
    LoadNull,
    DefineGlobal,
    StoreGlobal,
    LoadGlobal,
    Call,
    AllocPtr,
    StoreName,
    LoadName,
    Return,
    Stop,
}

/// A run-time value. A float is held as the text of its literal: the
/// library does no floating-point arithmetic.
#[derive(Debug)]
pub enum Value {
    Null,
    Int(i32),
    Float(String),
    Str(String),
    Bool(bool),
    Func(CompiledFunction),
    Ptr(usize),
}

#[derive(Debug, Clone, Copy, PartialEq, Eq, Structural)]
pub struct Instruction {
    pub opcode: OpCode,
    pub operand: u16,
}

#[derive(Debug)]
pub struct CompiledFunction {
    pub name: String,
    pub arity: u16,
    pub chunk: Chunk,
}

#[derive(Debug)]
pub struct Variable {
    pub name: String,
    pub depth: u16,
}

#[derive(Debug)]
pub struct BuiltinCall {
    pub name: String,
    pub arity: u16,
}

#[derive(Debug)]
pub struct Chunk {
    pub instructions: Vec<Instruction>,
    pub constants: Vec<Value>,
    pub names: Vec<Variable>,
    pub overflow: bool,
}

/// The mathematical value of a run-time value.
pub enum ValueModel {
    Null,
    Int(i32),
    Float(Seq<char>),
    Str(Seq<char>),
    Bool(bool),
    Func(FunctionModel),
    Ptr(usize),
}

pub struct FunctionModel {
    pub name: Seq<char>,
    pub arity: u16,
    pub chunk: ChunkModel,
}

pub struct VariableModel {
    pub name: Seq<char>,
    pub depth: u16,
}

pub struct ChunkModel {
    pub instructions: Seq<Instruction>,
    pub constants: Seq<ValueModel>,
    pub names: Seq<VariableModel>,
    pub overflow: bool,
}

pub open spec fn value_model(v: Value) -> ValueModel
    decreases v,
{
    match v {
        Value::Null => ValueModel::Null,
        Value::Int(i) => ValueModel::Int(i),
        Value::Float(s) => ValueModel::Float(s@),
        Value::Str(s) => ValueModel::Str(s@),
        Value::Bool(b) => ValueModel::Bool(b),
        Value::Func(f) => ValueModel::Func(function_model(f)),
        Value::Ptr(p) => ValueModel::Ptr(p),
    }
}

pub open spec fn function_model(f: CompiledFunction) -> FunctionModel
    decreases f,
{
    FunctionModel { name: f.name@, arity: f.arity, chunk: chunk_model(f.chunk) }
}

pub open spec fn variable_model(v: Variable) -> VariableModel {
    VariableModel { name: v.name@, depth: v.depth }
}

pub open spec fn chunk_model(c: Chunk) -> ChunkModel
    decreases c,
{
    proof {
        vstd::std_specs::vec::axiom_vec_decreases_to_view(c.constants);
    }
    ChunkModel {
        instructions: c.instructions@,
        constants: values_model(c.constants@),
        names: c.names@.map_values(|v: Variable| variable_model(v)),
        overflow: c.overflow,
    }
}

pub open spec fn values_model(s: Seq<Value>) -> Seq<ValueModel>
    decreases s,
{
    if s.len() == 0 {
        Seq::empty()
    } else {
        values_model(s.drop_last()).push(value_model(s.last()))
    }
}

impl View for Value {
    type V = ValueModel;

    open spec fn view(&self) -> ValueModel {
        value_model(*self)
    }
}

pub proof fn lemma_values_model_len(s: Seq<Value>)
    ensures
        values_model(s).len() == s.len(),
    decreases s.len(),
{
    if s.len() > 0 {
        lemma_values_model_len(s.drop_last());
    }
}

pub proof fn lemma_values_model_push(s: Seq<Value>, v: Value)
    ensures
        values_model(s.push(v)) == values_model(s).push(value_model(v)),
{
    assert(s.push(v).drop_last() =~= s);
}

pub proof fn lemma_values_model_index(s: Seq<Value>, i: int)
    requires
        0 <= i < s.len(),
    ensures
        values_model(s)[i] == value_model(s[i]),
    decreases s.len(),
{
    lemma_values_model_len(s);
    lemma_values_model_len(s.drop_last());
    if i < s.len() - 1 {
        lemma_values_model_index(s.drop_last(), i);
    }
}

/// The position of the first entry named `name`, if any.
pub open spec fn name_index(names: Seq<VariableModel>, name: Seq<char>) -> Option<int>
    decreases names.len(),
{
    if names.len() == 0 {
        None
    } else {
        match name_index(names.drop_last(), name) {
            Some(i) => Some(i),
            None => if names.last().name == name {
                Some(names.len() - 1)
            } else {
                None
            },
        }
    }
}

pub proof fn lemma_name_index(names: Seq<VariableModel>, name: Seq<char>, i: int)
    requires
        0 <= i <= names.len(),
        forall|k: int| 0 <= k < i ==> #[trigger] names[k].name != name,
    ensures
        i < names.len() && names[i].name == name ==> name_index(names, name) == Some(i),
        i == names.len() ==> name_index(names, name) is None,
    decreases names.len(),
{
    if names.len() > 0 {
        let d = names.drop_last();
        if i < names.len() {
            if i < d.len() {
                lemma_name_index(d, name, i);
            } else {
                lemma_name_index(d, name, d.len() as int);
            }
        } else {
            lemma_name_index(d, name, d.len() as int);
        }
    }
}

impl Value {
    /// A copy of the value.
    pub fn duplicate(&self) -> (r: Value)
        ensures
            r@ == self@,
        decreases self,
    {
        match self {
            Value::Null => Value::Null,
            Value::Int(i) => Value::Int(*i),
            Value::Float(s) => Value::Float(s.clone()),
            Value::Str(s) => Value::Str(s.clone()),
            Value::Bool(b) => Value::Bool(*b),
            Value::Func(f) => Value::Func(f.duplicate()),
            Value::Ptr(p) => Value::Ptr(*p),
        }
    }
}

impl CompiledFunction {
    /// A copy of the function.
    pub fn duplicate(&self) -> (r: CompiledFunction)
        ensures
            function_model(r) == function_model(*self),
        decreases self,
    {
        CompiledFunction { name: self.name.clone(), arity: self.arity, chunk: self.chunk.duplicate() }
    }
}

impl Chunk {
    pub open spec fn spec_model(self) -> ChunkModel {
        chunk_model(self)
    }

    /// An empty chunk.
    pub fn new() -> (r: Chunk)
        ensures
            chunk_model(r) == (ChunkModel {
                instructions: Seq::empty(),
                constants: Seq::empty(),
                names: Seq::empty(),
                overflow: false,
            }),
    {
        let r = Chunk {
            instructions: Vec::new(),
            constants: Vec::new(),
            names: Vec::new(),
            overflow: false,
        };
        assert(chunk_model(r).names =~= Seq::<VariableModel>::empty());
        assert(chunk_model(r).constants =~= Seq::<ValueModel>::empty());
        r
    }

    /// A copy of the chunk.
    pub fn duplicate(&self) -> (r: Chunk)
        ensures
            chunk_model(r) == chunk_model(*self),
        decreases self,
    {
        let mut instructions: Vec<Instruction> = Vec::new();
        let mut i: usize = 0;
        while i < self.instructions.len()
            invariant
                i <= self.instructions.len(),
                instructions@ == self.instructions@.take(i as int),
            decreases self.instructions.len() - i,
        {
            instructions.push(self.instructions[i]);
            i += 1;
            assert(instructions@ =~= self.instructions@.take(i as int));
        }
        assert(self.instructions@.take(i as int) =~= self.instructions@);
        let mut constants: Vec<Value> = Vec::new();
        let mut j: usize = 0;
        proof {
            vstd::std_specs::vec::axiom_vec_decreases_to_view(self.constants);
            assert(values_model(constants@) =~= values_model(self.constants@.take(0)));
        }
        while j < self.constants.len()
            invariant
                j <= self.constants.len(),
                values_model(constants@) == values_model(self.constants@.take(j as int)),
                decreases_to!(*self => self.constants@),
            decreases self.constants.len() - j,
        {
            proof {
                vstd::seq::axiom_seq_index_decreases(self.constants@, j as int);
            }
            let v = self.constants[j].duplicate();
            proof {
                lemma_values_model_push(constants@, v);
                lemma_values_model_push(self.constants@.take(j as int), self.constants@[j as int]);
                assert(self.constants@.take(j as int).push(self.constants@[j as int])
                    =~= self.constants@.take(j + 1));
            }
            constants.push(v);
            j += 1;
        }
        assert(self.constants@.take(j as int) =~= self.constants@);
        let mut names: Vec<Variable> = Vec::new();
        let mut k: usize = 0;
        while k < self.names.len()
            invariant
                k <= self.names.len(),
                names@.len() == k,
                forall|x: int| 0 <= x < k ==> variable_model(#[trigger] names@[x]) == variable_model(
                    self.names@[x],
                ),
            decreases self.names.len() - k,
        {
            let n = Variable { name: self.names[k].name.clone(), depth: self.names[k].depth };
            names.push(n);
            k += 1;
        }
        assert(names@.map_values(|v: Variable| variable_model(v)) =~= self.names@.map_values(
            |v: Variable| variable_model(v),
        ));
        let r = Chunk { instructions, constants, names, overflow: self.overflow };
        r
    }

    /// Appends an instruction; past `MAX_INSTRUCTIONS` instructions the
    /// chunk is marked as overflowed instead.
    pub fn emit(&mut self, opcode: OpCode, operand: u16)
        ensures
            chunk_model(*final(self)) == (if old(self).instructions.len() > MAX_INSTRUCTIONS {
                ChunkModel { overflow: true, ..chunk_model(*old(self)) }
            } else {
                ChunkModel {
                    instructions: old(self).instructions@.push(Instruction { opcode, operand }),
                    ..chunk_model(*old(self))
                }
            }),
    {
        if self.instructions.len() > MAX_INSTRUCTIONS {
            self.overflow = true;
            return ;
        }
        self.instructions.push(Instruction { opcode, operand })
    }

    /// Appends a constant and returns its index; when the pool is full
    /// nothing is appended and 0 is returned.
    pub fn push_constant(&mut self, value: Value) -> (r: u16)
        ensures
            old(self).constants.len() >= u16::MAX ==> r == 0 && chunk_model(*final(self))
                == chunk_model(*old(self)),
            old(self).constants.len() < u16::MAX ==> r == old(self).constants.len() && chunk_model(
                *final(self),
            ) == (ChunkModel {
                constants: chunk_model(*old(self)).constants.push(value@),
                ..chunk_model(*old(self))
            }),
    {
        if self.constants.len() >= 65535 {
            return 0;
        }
        proof {
            lemma_values_model_push(self.constants@, value);
        }
        self.constants.push(value);
        (self.constants.len() - 1) as u16
    }

    /// The index of the name `name`, which is added with `depth` when the
    /// table does not have it yet.
    pub fn push_name(&mut self, name: String, depth: u16) -> (r: u16)
        ensures
            ({
                let m = chunk_model(*old(self));
                match name_index(m.names, name@) {
                    Some(i) => r == i as u16 && chunk_model(*final(self)) == m,
                    None => r == m.names.len() as u16 && chunk_model(*final(self)) == (ChunkModel {
                        names: m.names.push(VariableModel { name: name@, depth }),
                        ..m
                    }),
                }
            }),
    {
        let ghost m = chunk_model(*self);
        let mut i: usize = 0;
        while i < self.names.len()
            invariant
                i <= self.names.len(),
                m == chunk_model(*self),
                forall|k: int| 0 <= k < i ==> #[trigger] m.names[k].name != name@,
            decreases self.names.len() - i,
        {
            if str_equal(self.names[i].name.as_str(), name.as_str()) {
                proof {
                    lemma_name_index(m.names, name@, i as int);
                }
                return i as u16;
            }
            i += 1;
        }
        proof {
            lemma_name_index(m.names, name@, i as int);
        }
        let ghost key = name@;
        let n = self.names.len();
        self.names.push(Variable { name, depth });
        assert(chunk_model(*self).names =~= m.names.push(VariableModel { name: key, depth }));
        n as u16
    }
}

/// Whether both values are integers whose exact result `f` fits in an `i32`.
pub open spec fn int_pair_fits(a: Value, b: Value, f: spec_fn(int, int) -> int) -> bool {
    &&& a is Int
    &&& b is Int
    &&& i32::MIN <= f(a->Int_0 as int, b->Int_0 as int) <= i32::MAX
}

impl Value {
    /// Integer addition. Float operands are added outside the library.
    pub fn add_numeric(self, other: Value) -> (r: Value)
        requires
            int_pair_fits(self, other, |x: int, y: int| x + y),
        ensures
            r@ == ValueModel::Int((self->Int_0 + other->Int_0) as i32),
    {
        match (self, other) {
            (Value::Int(v1), Value::Int(v2)) => Value::Int(v1 + v2),
            _ => {
                assert(false);
                Value::Null
            },
        }
    }

    /// Integer subtraction. Float operands are subtracted outside the library.
    pub fn sub_numeric(self, other: Value) -> (r: Value)
        requires
            int_pair_fits(self, other, |x: int, y: int| x - y),
        ensures
            r@ == ValueModel::Int((self->Int_0 - other->Int_0) as i32),
    {
        match (self, other) {
            (Value::Int(v1), Value::Int(v2)) => Value::Int(v1 - v2),
            _ => {
                assert(false);
                Value::Null
            },
        }
    }

    /// Integer multiplication. Float operands are multiplied outside the library.
    pub fn mul_numeric(self, other: Value) -> (r: Value)
        requires
            int_pair_fits(self, other, |x: int, y: int| x * y),
        ensures
            r@ == ValueModel::Int((self->Int_0 * other->Int_0) as i32),
    {
        match (self, other) {
            (Value::Int(v1), Value::Int(v2)) => Value::Int(v1 * v2),
            _ => {
                assert(false);
                Value::Null
            },
        }
    }

    /// Integer division, rounding toward zero. Float operands are divided
    /// outside the library.
    pub fn div_numeric(self, other: Value) -> (r: Value)
        requires
            self is Int,
            other is Int,
            other->Int_0 != 0,
            !(self->Int_0 == i32::MIN && other->Int_0 == -1),
        ensures
            r@ == ValueModel::Int(trunc_div(self->Int_0 as int, other->Int_0 as int) as i32),
    {
        match (self, other) {
            (Value::Int(v1), Value::Int(v2)) => match {
                proof {
                    lemma_trunc_div_fits(v1 as int, v2 as int);
                }
                v1.checked_div(v2)
            } {
                Some(q) => Value::Int(q),
                None => {
                    assert(false);
                    Value::Null
                },
            },
            _ => {
                assert(false);
                Value::Null
            },
        }
    }

    pub fn and_logical(self, other: Value) -> (r: Value)
        requires
            self is Bool,
            other is Bool,
        ensures
            r@ == ValueModel::Bool(self->Bool_0 && other->Bool_0),
    {
        match (self, other) {
            (Value::Bool(v1), Value::Bool(v2)) => Value::Bool(v1 && v2),
            _ => {
                assert(false);
                Value::Null
            },
        }
    }

    pub fn or_logical(self, other: Value) -> (r: Value)
        requires
            self is Bool,
            other is Bool,
        ensures
            r@ == ValueModel::Bool(self->Bool_0 || other->Bool_0),
    {
        match (self, other) {
            (Value::Bool(v1), Value::Bool(v2)) => Value::Bool(v1 || v2),
            _ => {
                assert(false);
                Value::Null
            },
        }
    }

    /// The two strings one after the other.
    pub fn concatenate(self, other: Value) -> (r: Value)
        requires
            self is Str,
            other is Str,
        ensures
            r@ == ValueModel::Str(self->Str_0@ + other->Str_0@),
    {
        match (self, other) {
            (Value::Str(v1), Value::Str(v2)) => Value::Str(v1.concat(v2.as_str())),
            _ => {
                assert(false);
                Value::Null
            },
        }
    }

    pub fn not(self) -> (r: Value)
        requires
            self is Bool,
        ensures
            r@ == ValueModel::Bool(!self->Bool_0),
    {
        match self {
            Value::Bool(v) => Value::Bool(!v),
            _ => {
                assert(false);
                Value::Null
            },
        }
    }

    pub fn eq(self, other: &Value) -> (r: Value)
        requires
            self is Bool,
            *other is Bool,
        ensures
            r@ == ValueModel::Bool(self->Bool_0 == other->Bool_0),
    {
        match (self, other) {
            (Value::Bool(v1), Value::Bool(v2)) => Value::Bool(v1 == *v2),
            _ => {
                assert(false);
                Value::Null
            },
        }
    }

    pub fn neq(self, other: &Value) -> (r: Value)
        requires
            self is Bool,
            *other is Bool,
        ensures
            r@ == ValueModel::Bool(self->Bool_0 != other->Bool_0),
    {
        match (self, other) {
            (Value::Bool(v1), Value::Bool(v2)) => Value::Bool(v1 != *v2),
            _ => {
                assert(false);
                Value::Null
            },
        }
    }

    /// `false < true`, as `bool` orders.
    pub fn lt(self, other: &Value) -> (r: Value)
        requires
            self is Bool,
            *other is Bool,
        ensures
            r@ == ValueModel::Bool(!self->Bool_0 && other->Bool_0),
    {
        match (self, other) {
            (Value::Bool(v1), Value::Bool(v2)) => Value::Bool(!v1 && *v2),
            _ => {
                assert(false);
                Value::Null
            },
        }
    }

    pub fn le(self, other: &Value) -> (r: Value)
        requires
            self is Bool,
            *other is Bool,
        ensures
            r@ == ValueModel::Bool(!self->Bool_0 || other->Bool_0),
    {
        match (self, other) {
            (Value::Bool(v1), Value::Bool(v2)) => Value::Bool(!v1 || *v2),
            _ => {
                assert(false);
                Value::Null
            },
        }
    }

    pub fn gt(self, other: &Value) -> (r: Value)
        requires
            self is Bool,
            *other is Bool,
        ensures
            r@ == ValueModel::Bool(self->Bool_0 && !other->Bool_0),
    {
        match (self, other) {
            (Value::Bool(v1), Value::Bool(v2)) => Value::Bool(v1 && !*v2),
            _ => {
                assert(false);
                Value::Null
            },
        }
    }

    pub fn ge(self, other: &Value) -> (r: Value)
        requires
            self is Bool,
            *other is Bool,
        ensures
            r@ == ValueModel::Bool(self->Bool_0 || !other->Bool_0),
    {
        match (self, other) {
            (Value::Bool(v1), Value::Bool(v2)) => Value::Bool(v1 || !*v2),
            _ => {
                assert(false);
                Value::Null
            },
        }
    }

    pub fn as_func(self) -> (r: CompiledFunction)
        requires
            self is Func,
        ensures
            function_model(r) == function_model(self->Func_0),
    {
        match self {
            Value::Func(v) => v,
            _ => {
                assert(false);
                CompiledFunction { name: String::new(), arity: 0, chunk: Chunk::new() }
            },
        }
    }

    pub fn as_ptr(self) -> (r: usize)
        requires
            self is Ptr,
        ensures
            r == self->Ptr_0,
    {
        match self {
            Value::Ptr(v) => v,
            _ => {
                assert(false);
                0
            },
        }
    }
}

proof fn lemma_trunc_div_fits(a: int, b: int)
    requires
        i32::MIN <= a <= i32::MAX,
        i32::MIN <= b <= i32::MAX,
        b != 0,
        !(a == i32::MIN && b == -1),
    ensures
        i32::MIN <= trunc_div(a, b) <= i32::MAX,
{
    if a > 0 && b > 0 {
        assert(a / b <= a) by (nonlinear_arith)
            requires
                a > 0,
                b > 0,
        ;
        assert(a / b >= 0) by (nonlinear_arith)
            requires
                a > 0,
                b > 0,
        ;
    } else if a < 0 && b < 0 {
        assert((-a) / (-b) <= -a) by (nonlinear_arith)
            requires
                a < 0,
                b < 0,
        ;
        assert((-a) / (-b) >= 0) by (nonlinear_arith)
            requires
                a < 0,
                b < 0,
        ;
        if b == -1 {
            assert(a != i32::MIN);
        } else {
            assert((-a) / (-b) <= (-a) / 2) by (nonlinear_arith)
                requires
                    a < 0,
                    b <= -2,
            ;
        }
    } else if a < 0 {
        assert((-a) / b <= -a) by (nonlinear_arith)
            requires
                a < 0,
                b > 0,
        ;
        assert((-a) / b >= 0) by (nonlinear_arith)
            requires
                a < 0,
                b > 0,
        ;
    } else if a > 0 {
        assert(a / (-b) <= a) by (nonlinear_arith)
            requires
                a > 0,
                b < 0,
        ;
        assert(a / (-b) >= 0) by (nonlinear_arith)
            requires
                a > 0,
                b < 0,
        ;
    }
}

/// Integer division that rounds toward zero, as Rust's `/` on integers.
pub open spec fn trunc_div(a: int, b: int) -> int {
    if a == 0 {
        0
    } else if a > 0 && b > 0 {
        a / b
    } else if a < 0 && b < 0 {
        (-a) / (-b)
    } else if a < 0 {
        -((-a) / b)
    } else {
        -(a / (-b))
    }
}

} // verus!
