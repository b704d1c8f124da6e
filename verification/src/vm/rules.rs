//! What one step of the stack machine does, over the machine's
//! mathematical state.
use vstd::prelude::*;

use crate::compiler::chunk::{trunc_div, FunctionModel, Instruction, OpCode, ValueModel};
use crate::vm::heap::UnitModel;

verus! {

pub struct FrameModel {
    pub func: FunctionModel,
    pub ip: usize,
    pub stack_base: usize,
}

/// The machine: call frames (the current one last), the value stack, the
/// globals and the heap.
pub struct VmState {
    pub frames: Seq<FrameModel>,
    pub stack: Seq<ValueModel>,
    pub globals: Map<Seq<char>, ValueModel>,
    pub heap: Seq<Option<UnitModel>>,
}

/// An arithmetic operation.
#[derive(Debug, Clone, Copy, PartialEq, Eq, Structural)]
pub enum ArithOp {
    Add,
    Sub,
    Mul,
    Div,
}

/// Why the machine stopped with an error.
#[derive(Debug, Clone, Copy, PartialEq, Eq, Structural)]
pub enum VmError {
    /// There is no call frame to run.
    NoFrame,
    /// The current frame's instruction pointer is past its code.
    IpOutOfRange,
    /// A constant index past the end of the constant pool.
    ConstantOutOfRange(u16),
    /// A name index past the end of the name table.
    NameOutOfRange(u16),
    /// An instruction needs more values than the stack holds.
    StackUnderflow,
    /// Arithmetic on values that are not two integers or two floats.
    NonNumeric,
    /// A logical operation on a value that is not a boolean.
    NonBoolean,
    /// A concatenation of values that are not strings.
    NonString,
    /// An integer result that does not fit in an `i32`.
    IntegerOverflow,
    /// An integer division by zero.
    DivisionByZero,
    /// A call of a value that is not a heap reference.
    NotAPointer,
    /// A heap reference to no cell.
    BadPointer,
    /// A call of, or an allocation from, something that is not a function.
    NotAFunction,
    /// A call with more arguments than the stack holds.
    ArityTooLarge,
    /// A global that was never defined.
    UndefinedGlobal,
    /// A local slot past the top of the stack.
    LocalOutOfRange,
    /// The heap has as many cells as it can number.
    HeapFull,
}

/// What a step leaves to its caller.
pub enum StepModel {
    Continue,
    Stopped,
    /// Float arithmetic on the two operands, given by their literal text;
    /// the caller computes it and pushes the result.
    Float(ArithOp, Seq<char>, Seq<char>),
}

impl VmState {
    pub open spec fn push(self, v: ValueModel) -> Self {
        VmState { stack: self.stack.push(v), ..self }
    }

    pub open spec fn with_stack(self, stack: Seq<ValueModel>) -> Self {
        VmState { stack, ..self }
    }

    pub open spec fn with_globals(self, globals: Map<Seq<char>, ValueModel>) -> Self {
        VmState { globals, ..self }
    }

    pub open spec fn with_heap(self, heap: Seq<Option<UnitModel>>) -> Self {
        VmState { heap, ..self }
    }

    pub open spec fn with_frames(self, frames: Seq<FrameModel>) -> Self {
        VmState { frames, ..self }
    }

    /// The stack without its top `n` values.
    pub open spec fn pop_n(self, n: int) -> Self {
        self.with_stack(self.stack.subrange(0, self.stack.len() - n))
    }
}

/// Integer arithmetic on `i32`, with its failures.
pub open spec fn int_arith(op: ArithOp, x: i32, y: i32) -> Result<i32, VmError> {
    let exact: int = match op {
        ArithOp::Add => x + y,
        ArithOp::Sub => x - y,
        ArithOp::Mul => x * y,
        ArithOp::Div => if y == 0 {
            0
        } else {
            trunc_div(x as int, y as int)
        },
    };
    if op == ArithOp::Div && y == 0 {
        Err(VmError::DivisionByZero)
    } else if exact < i32::MIN || exact > i32::MAX {
        Err(VmError::IntegerOverflow)
    } else {
        Ok(exact as i32)
    }
}

/// The two top values, the deeper one first.
pub open spec fn rule_arith(s: VmState, op: ArithOp) -> Result<(VmState, StepModel), VmError> {
    let n = s.stack.len();
    if n < 2 {
        Err(VmError::StackUnderflow)
    } else {
        let a = s.stack[n - 2];
        let b = s.stack[n - 1];
        let s1 = s.pop_n(2);
        match (a, b) {
            (ValueModel::Int(x), ValueModel::Int(y)) => match int_arith(op, x, y) {
                Ok(z) => Ok((s1.push(ValueModel::Int(z)), StepModel::Continue)),
                Err(e) => Err(e),
            },
            (ValueModel::Float(x), ValueModel::Float(y)) => Ok((s1, StepModel::Float(op, x, y))),
            _ => Err(VmError::NonNumeric),
        }
    }
}

pub open spec fn rule_concat(s: VmState) -> Result<(VmState, StepModel), VmError> {
    let n = s.stack.len();
    if n < 2 {
        Err(VmError::StackUnderflow)
    } else {
        match (s.stack[n - 2], s.stack[n - 1]) {
            (ValueModel::Str(x), ValueModel::Str(y)) => Ok(
                (s.pop_n(2).push(ValueModel::Str(x + y)), StepModel::Continue),
            ),
            _ => Err(VmError::NonString),
        }
    }
}

/// `&&` when `and`, else `||`.
pub open spec fn rule_logic(s: VmState, and: bool) -> Result<(VmState, StepModel), VmError> {
    let n = s.stack.len();
    if n < 2 {
        Err(VmError::StackUnderflow)
    } else {
        match (s.stack[n - 2], s.stack[n - 1]) {
            (ValueModel::Bool(x), ValueModel::Bool(y)) => Ok(
                (
                    s.pop_n(2).push(ValueModel::Bool(if and { x && y } else { x || y })),
                    StepModel::Continue,
                ),
            ),
            _ => Err(VmError::NonBoolean),
        }
    }
}

pub open spec fn rule_not(s: VmState) -> Result<(VmState, StepModel), VmError> {
    let n = s.stack.len();
    if n < 1 {
        Err(VmError::StackUnderflow)
    } else {
        match s.stack[n - 1] {
            ValueModel::Bool(x) => Ok((s.pop_n(1).push(ValueModel::Bool(!x)), StepModel::Continue)),
            _ => Err(VmError::NonBoolean),
        }
    }
}

/// A call: the function's heap reference is on top, its `arity` arguments
/// below it. The function leaves the heap and gets a frame whose locals
/// start at its first argument.
pub open spec fn rule_call(s: VmState, arity: u16) -> Result<(VmState, Option<FrameModel>), VmError> {
    let n = s.stack.len();
    if n < 1 {
        Err(VmError::StackUnderflow)
    } else {
        match s.stack[n - 1] {
            ValueModel::Ptr(p) => {
                let s1 = s.pop_n(1);
                if p >= s1.heap.len() {
                    Err(VmError::BadPointer)
                } else {
                    match s1.heap[p as int] {
                        Some(UnitModel::Function(g)) => {
                            let s2 = s1.with_heap(s1.heap.remove(p as int));
                            if arity > s2.stack.len() {
                                Err(VmError::ArityTooLarge)
                            } else {
                                Ok(
                                    (
                                        s2,
                                        Some(
                                            FrameModel {
                                                func: g,
                                                ip: 0,
                                                stack_base: (s2.stack.len() - arity) as usize,
                                            },
                                        ),
                                    ),
                                )
                            }
                        },
                        Some(UnitModel::Array(_)) => Err(VmError::NotAFunction),
                        None => Err(VmError::BadPointer),
                    }
                }
            },
            _ => Err(VmError::NotAPointer),
        }
    }
}

/// Runs `instr` of frame `f` on the machine `s`, whose frames are those
/// below `f`. A call also gives the new frame.
pub open spec fn rule_execute(s: VmState, f: FrameModel, instr: Instruction) -> Result<(VmState, StepModel, Option<FrameModel>), VmError> {
    let c = f.func.chunk;
    let k = instr.operand;
    let plain = |r: Result<(VmState, StepModel), VmError>|
        match r {
            Ok((s1, out)) => Ok((s1, out, None)),
            Err(e) => Err(e),
        };
    match instr.opcode {
        OpCode::LoadInt | OpCode::LoadFloat | OpCode::LoadString | OpCode::LoadBool
        | OpCode::LoadPtr => if k >= c.constants.len() {
            Err(VmError::ConstantOutOfRange(k))
        } else {
            Ok((s.push(c.constants[k as int]), StepModel::Continue, None))
        },
        OpCode::LoadNull => Ok((s.push(ValueModel::Null), StepModel::Continue, None)),
        OpCode::AddInt | OpCode::AddFloat => plain(rule_arith(s, ArithOp::Add)),
        OpCode::SubInt | OpCode::SubFloat => plain(rule_arith(s, ArithOp::Sub)),
        OpCode::MulInt | OpCode::MulFloat => plain(rule_arith(s, ArithOp::Mul)),
        OpCode::DivInt | OpCode::DivFloat => plain(rule_arith(s, ArithOp::Div)),
        OpCode::AddString => plain(rule_concat(s)),
        OpCode::AndBool => plain(rule_logic(s, true)),
        OpCode::OrBool => plain(rule_logic(s, false)),
        OpCode::NotBool => plain(rule_not(s)),
        OpCode::Call => match rule_call(s, k) {
            Ok((s1, g)) => Ok((s1, StepModel::Continue, g)),
            Err(e) => Err(e),
        },
        OpCode::DefineGlobal => if k >= c.names.len() {
            Err(VmError::NameOutOfRange(k))
        } else {
            Ok(
                (
                    s.with_globals(s.globals.insert(c.names[k as int].name, ValueModel::Null)),
                    StepModel::Continue,
                    None,
                ),
            )
        },
        OpCode::LoadGlobal => if k >= c.names.len() {
            Err(VmError::NameOutOfRange(k))
        } else if !s.globals.contains_key(c.names[k as int].name) {
            Err(VmError::UndefinedGlobal)
        } else {
            Ok((s.push(s.globals[c.names[k as int].name]), StepModel::Continue, None))
        },
        OpCode::StoreGlobal => if s.stack.len() < 1 {
            Err(VmError::StackUnderflow)
        } else if k >= c.names.len() {
            Err(VmError::NameOutOfRange(k))
        } else if !s.globals.contains_key(c.names[k as int].name) {
            Err(VmError::UndefinedGlobal)
        } else {
            let s1 = s.pop_n(1);
            Ok(
                (
                    s1.with_globals(s1.globals.insert(c.names[k as int].name, s.stack.last())),
                    StepModel::Continue,
                    None,
                ),
            )
        },
        OpCode::LoadName => {
            let idx = f.stack_base + k;
            if idx >= s.stack.len() {
                Err(VmError::LocalOutOfRange)
            } else {
                Ok((s.push(s.stack[idx]), StepModel::Continue, None))
            }
        },
        OpCode::StoreName => {
            let idx = f.stack_base + k;
            if s.stack.len() < 1 {
                Err(VmError::StackUnderflow)
            } else if idx >= s.stack.len() - 1 {
                Err(VmError::LocalOutOfRange)
            } else {
                let s1 = s.pop_n(1);
                Ok((s1.with_stack(s1.stack.update(idx, s.stack.last())), StepModel::Continue, None))
            }
        },
        OpCode::AllocPtr => if k >= c.constants.len() {
            Err(VmError::ConstantOutOfRange(k))
        } else {
            match c.constants[k as int] {
                ValueModel::Func(g) => if s.heap.len() >= usize::MAX {
                    Err(VmError::HeapFull)
                } else {
                    Ok(
                        (
                            s.with_heap(s.heap.push(Some(UnitModel::Function(g)))).push(
                                ValueModel::Ptr(s.heap.len() as usize),
                            ),
                            StepModel::Continue,
                            None,
                        ),
                    )
                },
                _ => Err(VmError::NotAFunction),
            }
        },
        OpCode::Return | OpCode::Stop => Ok((s, StepModel::Continue, None)),
    }
}

/// One step: fetch the current frame's next instruction and run it.
/// `Return` leaves the frame, keeping the value on top of the stack (or
/// `Null`) as the only value above the frame's base; `Stop` stops.
pub open spec fn rule_step(s: VmState) -> Result<(VmState, StepModel), VmError> {
    if s.frames.len() == 0 {
        Err(VmError::NoFrame)
    } else {
        let f = s.frames.last();
        if f.ip >= f.func.chunk.instructions.len() {
            Err(VmError::IpOutOfRange)
        } else {
            let instr = f.func.chunk.instructions[f.ip as int];
            let f1 = FrameModel { ip: (f.ip + 1) as usize, ..f };
            let s0 = s.with_frames(s.frames.drop_last());
            match instr.opcode {
                OpCode::Return => {
                    let (rv, rest) = if s0.stack.len() == 0 {
                        (ValueModel::Null, s0.stack)
                    } else {
                        (s0.stack.last(), s0.stack.drop_last())
                    };
                    let kept = if f.stack_base <= rest.len() {
                        rest.subrange(0, f.stack_base as int)
                    } else {
                        rest
                    };
                    Ok((s0.with_stack(kept.push(rv)), StepModel::Continue))
                },
                OpCode::Stop => Ok((s0.with_frames(s0.frames.push(f1)), StepModel::Stopped)),
                _ => match rule_execute(s0, f1, instr) {
                    Err(e) => Err(e),
                    Ok((s2, out, g)) => {
                        let frames = s0.frames.push(f1);
                        Ok(
                            (
                                s2.with_frames(
                                    match g {
                                        Some(nf) => frames.push(nf),
                                        None => frames,
                                    },
                                ),
                                out,
                            ),
                        )
                    },
                },
            }
        }
    }
}

} // verus!
