//! The stack machine that runs compiled chunks, one instruction per step.
//! Float arithmetic is handed back to the caller of `step`.
use vstd::prelude::*;

use crate::compiler::chunk::{
    chunk_model, function_model, lemma_values_model_index, lemma_values_model_len, Chunk,
    CompiledFunction, FunctionModel, Instruction, OpCode, Value, ValueModel,
};
use globals::Globals;
use heap::{Heap, Unit, UnitModel};
use rules::{
    int_arith, rule_arith, rule_call, rule_concat, rule_execute, rule_logic, rule_not, rule_step,
    ArithOp, FrameModel, StepModel, VmError, VmState,
};

pub mod globals;
pub mod heap;
pub mod laws;
pub mod ops;
pub mod rules;
pub mod types;

verus! {

pub struct CallFrame {
    pub func: CompiledFunction,
    pub ip: usize,
    /// Where this frame's locals start on the stack.
    pub stack_base: usize,
}

pub open spec fn frame_model(f: CallFrame) -> FrameModel {
    FrameModel { func: function_model(f.func), ip: f.ip, stack_base: f.stack_base }
}

/// What a step leaves to the caller.
#[derive(Debug)]
pub enum Step {
    Continue,
    Stopped,
    /// Float arithmetic on the two operands, given by their literal text:
    /// the caller computes it and pushes the result with `push_value`.
    Float { op: ArithOp, lhs: String, rhs: String },
}

pub open spec fn step_model(s: Step) -> StepModel {
    match s {
        Step::Continue => StepModel::Continue,
        Step::Stopped => StepModel::Stopped,
        Step::Float { op, lhs, rhs } => StepModel::Float(op, lhs@, rhs@),
    }
}

pub struct VM {
    frames: Vec<CallFrame>,
    stack: Vec<Value>,
    globals: Globals,
    heap: Heap,
}

impl View for VM {
    type V = VmState;

    closed spec fn view(&self) -> VmState {
        VmState {
            frames: self.frames@.map_values(|f: CallFrame| frame_model(f)),
            stack: self.stack@.map_values(|v: Value| v@),
            globals: self.globals@,
            heap: self.heap@,
        }
    }
}

/// A step's result, as the step rule states it.
pub open spec fn step_outcome(r: Result<Step, VmError>, before: VmState, after: VmState) -> bool {
    match r {
        Ok(st) => rule_step(before) == Ok::<(VmState, StepModel), VmError>((after, step_model(st))),
        Err(e) => rule_step(before) == Err::<(VmState, StepModel), VmError>(e),
    }
}

impl VM {
    /// A machine about to run `chunk` as the top-level code.
    pub fn new(chunk: Chunk) -> (r: Self)
        ensures
            r@.frames == seq![
                FrameModel {
                    func: FunctionModel {
                        name: Seq::empty(),
                        arity: 0,
                        chunk: chunk_model(chunk),
                    },
                    ip: 0,
                    stack_base: 0,
                },
            ],
            r@.stack == Seq::<ValueModel>::empty(),
            r@.globals == Map::<Seq<char>, ValueModel>::empty(),
            r@.heap == Seq::<Option<UnitModel>>::empty(),
    {
        let ghost cm = chunk_model(chunk);
        let frame = CallFrame {
            func: CompiledFunction { name: String::new(), arity: 0, chunk },
            ip: 0,
            stack_base: 0,
        };
        let mut frames: Vec<CallFrame> = Vec::new();
        frames.push(frame);
        let r = VM { frames, stack: Vec::new(), globals: Globals::new(), heap: Heap::new() };
        proof {
            assert(frame.func.name@ =~= Seq::<char>::empty());
            assert(r@.frames =~= seq![frame_model(frame)]);
            assert(r@.stack =~= Seq::<ValueModel>::empty());
        }
        r
    }

    /// The values on the stack, bottom first.
    pub fn stack(&self) -> (r: &Vec<Value>)
        ensures
            r@.map_values(|v: Value| v@) == self@.stack,
    {
        &self.stack
    }

    pub fn globals(&self) -> (r: &Globals)
        ensures
            r@ == self@.globals,
    {
        &self.globals
    }

    /// The instruction the next step runs: its position, the instruction,
    /// and the length of the code it is in.
    pub fn current_instruction(&self) -> (r: Option<(usize, Instruction, usize)>)
        ensures
            match r {
                Some((ip, instr, n)) => {
                    &&& self@.frames.len() > 0
                    &&& ip == self@.frames.last().ip
                    &&& n == self@.frames.last().func.chunk.instructions.len()
                    &&& ip < n
                    &&& instr == self@.frames.last().func.chunk.instructions[ip as int]
                },
                None => self@.frames.len() == 0 || self@.frames.last().ip
                    >= self@.frames.last().func.chunk.instructions.len(),
            },
    {
        let n = self.frames.len();
        if n == 0 {
            return None;
        }
        let f = &self.frames[n - 1];
        let len = f.func.chunk.instructions.len();
        if f.ip < len {
            Some((f.ip, f.func.chunk.instructions[f.ip], len))
        } else {
            None
        }
    }

    /// Pushes a value; the caller's way to hand back a float result.
    pub fn push_value(&mut self, v: Value)
        ensures
            final(self)@ == old(self)@.push(v@),
    {
        let ghost m = v@;
        self.stack.push(v);
        assert(self@.stack =~= old(self)@.stack.push(m));
    }

    fn pop_value(&mut self) -> (r: Option<Value>)
        ensures
            old(self)@.stack.len() == 0 ==> r is None && final(self)@ == old(self)@,
            old(self)@.stack.len() > 0 ==> (r matches Some(v) && v@ == old(self)@.stack.last()
                && final(self)@ == old(self)@.pop_n(1)),
    {
        let r = self.stack.pop();
        proof {
            if old(self)@.stack.len() > 0 {
                assert(self@.stack =~= old(self)@.stack.subrange(0, old(self)@.stack.len() - 1));
            }
        }
        r
    }

    /// Runs one instruction. A machine fault (no frame, an instruction
    /// pointer past the code, an index past a table, too few values on the
    /// stack, operands of the wrong kind, an undefined global, integer
    /// overflow or division by zero, a bad heap reference) does not abort:
    /// it is returned as an `Err` naming the fault, as `step_outcome` states.
    /// Float arithmetic is handed back to the caller as a `Step`.
    pub fn step(&mut self) -> (r: Result<Step, VmError>)
        ensures
            step_outcome(r, old(self)@, final(self)@),
    {
        let mut frame = match self.frames.pop() {
            Some(f) => f,
            None => {
                return Err(VmError::NoFrame);
            },
        };
        let ghost s0 = self@;
        proof {
            assert(s0.frames =~= old(self)@.frames.drop_last());
            assert(s0 == old(self)@.with_frames(old(self)@.frames.drop_last()));
            assert(frame_model(frame) == old(self)@.frames.last());
        }
        if frame.ip >= frame.func.chunk.instructions.len() {
            return Err(VmError::IpOutOfRange);
        }
        let instr = frame.func.chunk.instructions[frame.ip];
        frame.ip = frame.ip + 1;
        match instr.opcode {
            OpCode::Return => {
                let return_val = match self.pop_value() {
                    Some(v) => v,
                    None => Value::Null,
                };
                self.stack.truncate(frame.stack_base);
                self.push_value(return_val);
                proof {
                    let rest = if s0.stack.len() == 0 { s0.stack } else { s0.stack.drop_last() };
                    if frame.stack_base <= rest.len() {
                        assert(self@.stack.drop_last() =~= rest.subrange(0, frame.stack_base as int));
                    } else {
                        assert(self@.stack.drop_last() =~= rest);
                    }
                    assert(self@.stack =~= self@.stack.drop_last().push(self@.stack.last()));
                    assert(rule_step(old(self)@) == Ok::<(VmState, StepModel), VmError>((self@, StepModel::Continue)));
                }
                Ok(Step::Continue)
            },
            OpCode::Stop => {
                let ghost f1 = frame_model(frame);
                self.frames.push(frame);
                assert(self@.frames =~= s0.frames.push(f1));
                assert(rule_step(old(self)@) == Ok::<(VmState, StepModel), VmError>((self@, StepModel::Stopped)));
                Ok(Step::Stopped)
            },
            _ => {
                let r = self.execute(&frame, instr);
                let ghost s2 = self@;
                let ghost f1 = frame_model(frame);
                match r {
                    Err(e) => Err(e),
                    Ok((out, new_frame)) => {
                        self.frames.push(frame);
                        assert(self@.frames =~= s0.frames.push(f1));
                        match new_frame {
                            Some(g) => {
                                let ghost gm = frame_model(g);
                                self.frames.push(g);
                                assert(self@.frames =~= s0.frames.push(f1).push(gm));
                            },
                            None => {},
                        }
                        Ok(out)
                    },
                }
            },
        }
    }
}

/// A result of `execute`, as its rule states it.
pub open spec fn execute_outcome(
    r: Result<(Step, Option<CallFrame>), VmError>,
    rule: Result<(VmState, StepModel, Option<FrameModel>), VmError>,
    after: VmState,
) -> bool {
    match r {
        Ok((st, g)) => rule == Ok::<(VmState, StepModel, Option<FrameModel>), VmError>(
            (
                after,
                step_model(st),
                match g {
                    Some(f) => Some(frame_model(f)),
                    None => None,
                },
            ),
        ),
        Err(e) => rule == Err::<(VmState, StepModel, Option<FrameModel>), VmError>(e),
    }
}

/// A result of a step that leaves the frames alone, as its rule states it.
pub open spec fn plain_outcome(
    r: Result<Step, VmError>,
    rule: Result<(VmState, StepModel), VmError>,
    after: VmState,
) -> bool {
    match r {
        Ok(st) => rule == Ok::<(VmState, StepModel), VmError>((after, step_model(st))),
        Err(e) => rule == Err::<(VmState, StepModel), VmError>(e),
    }
}

impl VM {
    fn pop_two(&mut self) -> (r: Option<(Value, Value)>)
        ensures
            old(self)@.stack.len() < 2 ==> r is None,
            old(self)@.stack.len() >= 2 ==> (r matches Some((a, b)) && a@ == old(self)@.stack[old(
                self,
            )@.stack.len() - 2] && b@ == old(self)@.stack[old(self)@.stack.len() - 1]
                && final(self)@ == old(self)@.pop_n(2)),
    {
        if self.stack.len() < 2 {
            return None;
        }
        let b = self.pop_value();
        let a = self.pop_value();
        match (a, b) {
            (Some(a), Some(b)) => {
                proof {
                    assert(old(self)@.pop_n(1).pop_n(1).stack =~= old(self)@.pop_n(2).stack);
                }
                Some((a, b))
            },
            _ => None,
        }
    }

    fn arith(&mut self, op: ArithOp) -> (r: Result<Step, VmError>)
        ensures
            plain_outcome(r, rule_arith(old(self)@, op), final(self)@),
    {
        let (a, b) = match self.pop_two() {
            Some(p) => p,
            None => {
                return Err(VmError::StackUnderflow);
            },
        };
        match (a, b) {
            (Value::Int(x), Value::Int(y)) => {
                let z = match op {
                    ArithOp::Add => x.checked_add(y),
                    ArithOp::Sub => x.checked_sub(y),
                    ArithOp::Mul => x.checked_mul(y),
                    ArithOp::Div => {
                        if y == 0 {
                            return Err(VmError::DivisionByZero);
                        }
                        x.checked_div(y)
                    },
                };
                match z {
                    Some(z) => {
                        self.push_value(Value::Int(z));
                        Ok(Step::Continue)
                    },
                    None => Err(VmError::IntegerOverflow),
                }
            },
            (Value::Float(x), Value::Float(y)) => Ok(Step::Float { op, lhs: x, rhs: y }),
            _ => Err(VmError::NonNumeric),
        }
    }

    fn concat(&mut self) -> (r: Result<Step, VmError>)
        ensures
            plain_outcome(r, rule_concat(old(self)@), final(self)@),
    {
        let (a, b) = match self.pop_two() {
            Some(p) => p,
            None => {
                return Err(VmError::StackUnderflow);
            },
        };
        match (a, b) {
            (Value::Str(x), Value::Str(y)) => {
                self.push_value(Value::Str(x).concatenate(Value::Str(y)));
                Ok(Step::Continue)
            },
            _ => Err(VmError::NonString),
        }
    }

    fn logic(&mut self, and: bool) -> (r: Result<Step, VmError>)
        ensures
            plain_outcome(r, rule_logic(old(self)@, and), final(self)@),
    {
        let (a, b) = match self.pop_two() {
            Some(p) => p,
            None => {
                return Err(VmError::StackUnderflow);
            },
        };
        match (a, b) {
            (Value::Bool(x), Value::Bool(y)) => {
                let v = if and {
                    Value::Bool(x).and_logical(Value::Bool(y))
                } else {
                    Value::Bool(x).or_logical(Value::Bool(y))
                };
                self.push_value(v);
                Ok(Step::Continue)
            },
            _ => Err(VmError::NonBoolean),
        }
    }

    fn not(&mut self) -> (r: Result<Step, VmError>)
        ensures
            plain_outcome(r, rule_not(old(self)@), final(self)@),
    {
        match self.pop_value() {
            None => Err(VmError::StackUnderflow),
            Some(Value::Bool(x)) => {
                self.push_value(Value::Bool(x).not());
                Ok(Step::Continue)
            },
            Some(_) => Err(VmError::NonBoolean),
        }
    }

    fn call(&mut self, arity: u16) -> (r: Result<CallFrame, VmError>)
        ensures
            match r {
                Ok(f) => rule_call(old(self)@, arity) == Ok::<(VmState, Option<FrameModel>), VmError>(
                    (final(self)@, Some(frame_model(f))),
                ),
                Err(e) => rule_call(old(self)@, arity) == Err::<(VmState, Option<FrameModel>), VmError>(e),
            },
    {
        let ptr = match self.pop_value() {
            None => {
                return Err(VmError::StackUnderflow);
            },
            Some(Value::Ptr(p)) => p,
            Some(_) => {
                return Err(VmError::NotAPointer);
            },
        };
        if ptr >= self.heap.len() {
            return Err(VmError::BadPointer);
        }
        let func = match self.heap.move_val(ptr) {
            Some(Unit::Function(f)) => f,
            Some(Unit::Array(_)) => {
                return Err(VmError::NotAFunction);
            },
            None => {
                return Err(VmError::BadPointer);
            },
        };
        let n = self.stack.len();
        if (arity as usize) > n {
            return Err(VmError::ArityTooLarge);
        }
        Ok(CallFrame { func, ip: 0, stack_base: n - arity as usize })
    }

    fn execute(&mut self, frame: &CallFrame, instr: Instruction) -> (r: Result<(Step, Option<CallFrame>), VmError>)
        requires
            instr.opcode != OpCode::Return,
            instr.opcode != OpCode::Stop,
        ensures
            execute_outcome(r, rule_execute(old(self)@, frame_model(*frame), instr), final(self)@),
    {
        let operand = instr.operand;
        let chunk = &frame.func.chunk;
        proof {
            lemma_values_model_len(chunk.constants@);
        }
        match instr.opcode {
            OpCode::LoadInt | OpCode::LoadFloat | OpCode::LoadString | OpCode::LoadBool
            | OpCode::LoadPtr => {
                if operand as usize >= chunk.constants.len() {
                    return Err(VmError::ConstantOutOfRange(operand));
                }
                proof {
                    lemma_values_model_index(chunk.constants@, operand as int);
                }
                let constant = chunk.constants[operand as usize].duplicate();
                self.push_value(constant);
                Ok((Step::Continue, None))
            },
            OpCode::LoadNull => {
                self.push_value(Value::Null);
                Ok((Step::Continue, None))
            },
            OpCode::AddInt | OpCode::AddFloat => match self.arith(ArithOp::Add) {
                Ok(st) => Ok((st, None)),
                Err(e) => Err(e),
            },
            OpCode::SubInt | OpCode::SubFloat => match self.arith(ArithOp::Sub) {
                Ok(st) => Ok((st, None)),
                Err(e) => Err(e),
            },
            OpCode::MulInt | OpCode::MulFloat => match self.arith(ArithOp::Mul) {
                Ok(st) => Ok((st, None)),
                Err(e) => Err(e),
            },
            OpCode::DivInt | OpCode::DivFloat => match self.arith(ArithOp::Div) {
                Ok(st) => Ok((st, None)),
                Err(e) => Err(e),
            },
            OpCode::AddString => match self.concat() {
                Ok(st) => Ok((st, None)),
                Err(e) => Err(e),
            },
            OpCode::AndBool => match self.logic(true) {
                Ok(st) => Ok((st, None)),
                Err(e) => Err(e),
            },
            OpCode::OrBool => match self.logic(false) {
                Ok(st) => Ok((st, None)),
                Err(e) => Err(e),
            },
            OpCode::NotBool => match self.not() {
                Ok(st) => Ok((st, None)),
                Err(e) => Err(e),
            },
            OpCode::Call => match self.call(operand) {
                Ok(f) => Ok((Step::Continue, Some(f))),
                Err(e) => Err(e),
            },
            OpCode::DefineGlobal => {
                if operand as usize >= chunk.names.len() {
                    return Err(VmError::NameOutOfRange(operand));
                }
                let name = chunk.names[operand as usize].name.clone();
                self.globals.insert(name, Value::Null);
                Ok((Step::Continue, None))
            },
            OpCode::LoadGlobal => {
                if operand as usize >= chunk.names.len() {
                    return Err(VmError::NameOutOfRange(operand));
                }
                let global = match self.globals.get(chunk.names[operand as usize].name.as_str()) {
                    Some(v) => v.duplicate(),
                    None => {
                        return Err(VmError::UndefinedGlobal);
                    },
                };
                self.push_value(global);
                Ok((Step::Continue, None))
            },
            OpCode::StoreGlobal => {
                let val = match self.pop_value() {
                    Some(v) => v,
                    None => {
                        return Err(VmError::StackUnderflow);
                    },
                };
                if operand as usize >= chunk.names.len() {
                    return Err(VmError::NameOutOfRange(operand));
                }
                if self.globals.set(chunk.names[operand as usize].name.as_str(), val) {
                    Ok((Step::Continue, None))
                } else {
                    Err(VmError::UndefinedGlobal)
                }
            },
            OpCode::LoadName => {
                let n = self.stack.len();
                if frame.stack_base >= n || operand as usize >= n - frame.stack_base {
                    return Err(VmError::LocalOutOfRange);
                }
                let idx = frame.stack_base + operand as usize;
                let v = self.stack[idx].duplicate();
                self.push_value(v);
                Ok((Step::Continue, None))
            },
            OpCode::StoreName => {
                let val = match self.pop_value() {
                    Some(v) => v,
                    None => {
                        return Err(VmError::StackUnderflow);
                    },
                };
                let n = self.stack.len();
                if frame.stack_base >= n || operand as usize >= n - frame.stack_base {
                    return Err(VmError::LocalOutOfRange);
                }
                let idx = frame.stack_base + operand as usize;
                let ghost vm = val@;
                self.stack.set(idx, val);
                assert(self@.stack =~= old(self)@.pop_n(1).stack.update(idx as int, vm));
                Ok((Step::Continue, None))
            },
            OpCode::AllocPtr => {
                if operand as usize >= chunk.constants.len() {
                    return Err(VmError::ConstantOutOfRange(operand));
                }
                proof {
                    lemma_values_model_index(chunk.constants@, operand as int);
                }
                let func = match &chunk.constants[operand as usize] {
                    Value::Func(f) => f.duplicate(),
                    _ => {
                        return Err(VmError::NotAFunction);
                    },
                };
                if self.heap.len() == usize::MAX {
                    return Err(VmError::HeapFull);
                }
                let ptr = self.heap.allocate(Unit::Function(func));
                self.push_value(Value::Ptr(ptr));
                Ok((Step::Continue, None))
            },
            OpCode::Return | OpCode::Stop => Ok((Step::Continue, None)),
        }
    }
}

} // verus!
