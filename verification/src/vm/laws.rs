//! Properties of the stack machine's steps.
use vstd::prelude::*;

use crate::compiler::chunk::{trunc_div, FunctionModel, Instruction, OpCode, ValueModel};
use crate::vm::heap::UnitModel;
use crate::vm::rules::{rule_execute, rule_step, ArithOp, FrameModel, StepModel, VmError, VmState};

verus! {

/// Storing to a defined global and then loading it gives back the value
/// stored, and leaves the stack as it was below the stored value.
pub proof fn lemma_store_then_load_global(s: VmState, f: FrameModel, k: u16)
    requires
        (k as int) < f.func.chunk.names.len(),
        s.stack.len() >= 1,
        s.globals.contains_key(f.func.chunk.names[k as int].name),
    ensures
        ({
            let store = Instruction { opcode: OpCode::StoreGlobal, operand: k };
            let load = Instruction { opcode: OpCode::LoadGlobal, operand: k };
            match rule_execute(s, f, store) {
                Ok((s1, _, _)) => match rule_execute(s1, f, load) {
                    Ok((s2, out, g)) => out == StepModel::Continue && g is None && s2.stack
                        == s.stack && s2.globals == s1.globals,
                    Err(_) => false,
                },
                Err(_) => false,
            }
        }),
{
    let s1 = s.pop_n(1);
    let name = f.func.chunk.names[k as int].name;
    let t = s1.with_globals(s1.globals.insert(name, s.stack.last()));
    assert(t.globals.contains_key(name));
    assert(t.push(t.globals[name]).stack =~= s.stack);
}

/// Storing to a local slot and then loading it gives back the value
/// stored, and leaves the stack as it was with the slot updated.
pub proof fn lemma_store_then_load_local(s: VmState, f: FrameModel, k: u16)
    requires
        s.stack.len() >= 1,
        f.stack_base + k < s.stack.len() - 1,
    ensures
        ({
            let store = Instruction { opcode: OpCode::StoreName, operand: k };
            let load = Instruction { opcode: OpCode::LoadName, operand: k };
            match rule_execute(s, f, store) {
                Ok((s1, _, _)) => match rule_execute(s1, f, load) {
                    Ok((s2, out, g)) => out == StepModel::Continue && g is None && s2.stack.last()
                        == s.stack.last() && s2.stack.drop_last() == s1.stack,
                    Err(_) => false,
                },
                Err(_) => false,
            }
        }),
{
    let idx = f.stack_base + k;
    let s1 = s.pop_n(1);
    let t = s1.with_stack(s1.stack.update(idx, s.stack.last()));
    assert(t.push(t.stack[idx]).stack.drop_last() =~= t.stack);
}

/// Returning from a frame leaves, above the frame's base, exactly the
/// value that was on top of the stack (`Null` on an empty stack), and
/// removes the frame.
pub proof fn lemma_return_keeps_result(s: VmState)
    requires
        s.frames.len() > 0,
        s.frames.last().ip < s.frames.last().func.chunk.instructions.len(),
        s.frames.last().func.chunk.instructions[s.frames.last().ip as int].opcode == OpCode::Return,
        s.frames.last().stack_base < s.stack.len(),
    ensures
        rule_step(s) matches Ok((t, out)) && out == StepModel::Continue && t.frames
            == s.frames.drop_last() && t.stack == s.stack.subrange(
            0,
            s.frames.last().stack_base as int,
        ).push(s.stack.last()),
{
    let base = s.frames.last().stack_base as int;
    assert(s.stack.drop_last().subrange(0, base) =~= s.stack.subrange(0, base));
}

/// `Stop` stops the machine and changes nothing but the instruction
/// pointer.
pub proof fn lemma_stop_stops(s: VmState)
    requires
        s.frames.len() > 0,
        s.frames.last().ip < s.frames.last().func.chunk.instructions.len(),
        s.frames.last().func.chunk.instructions[s.frames.last().ip as int].opcode == OpCode::Stop,
        s.frames.last().ip < usize::MAX,
    ensures
        rule_step(s) matches Ok((t, out)) && out == StepModel::Stopped && t.stack == s.stack
            && t.globals == s.globals && t.heap == s.heap && t.frames.len() == s.frames.len()
            && t.frames.last().ip == s.frames.last().ip + 1,
{
    let f = s.frames.last();
    let f1 = FrameModel { ip: (f.ip + 1) as usize, ..f };
    assert(s.frames.drop_last().push(f1).len() == s.frames.len());
    assert(s.frames.drop_last().push(f1).last() == f1);
}

/// A machine with no frame cannot step.
pub proof fn lemma_no_frame_no_step(s: VmState)
    requires
        s.frames.len() == 0,
    ensures
        rule_step(s) == Err::<(VmState, StepModel), VmError>(VmError::NoFrame),
{
}

/// Integer division rounds toward zero: the remainder it leaves is smaller
/// than the divisor in size and has the sign of the dividend.
pub proof fn lemma_division_rounds_toward_zero(a: int, b: int)
    requires
        b != 0,
    ensures
        ({
            let r = a - trunc_div(a, b) * b;
            &&& (if r < 0 { -r } else { r }) < (if b < 0 { -b } else { b })
            &&& a >= 0 ==> r >= 0
            &&& a <= 0 ==> r <= 0
        }),
{
    let pa: int = if a < 0 { -a } else { a };
    let pb: int = if b < 0 { -b } else { b };
    vstd::arithmetic::div_mod::lemma_fundamental_div_mod(pa, pb);
    vstd::arithmetic::div_mod::lemma_mod_bound(pa, pb);
    let q = pa / pb;
    assert(pa - q * pb == pa % pb) by (nonlinear_arith)
        requires
            pa == pb * q + pa % pb,
    ;
    if a == 0 {
    } else if a > 0 && b > 0 {
        assert(trunc_div(a, b) == q);
    } else if a < 0 && b < 0 {
        assert(trunc_div(a, b) == q);
        assert(a - q * b == -(pa - q * pb)) by (nonlinear_arith)
            requires
                pa == -a,
                pb == -b,
        ;
    } else if a < 0 {
        assert(trunc_div(a, b) == -q);
        assert(a - (-q) * b == -(pa - q * pb)) by (nonlinear_arith)
            requires
                pa == -a,
                pb == b,
        ;
    } else {
        assert(trunc_div(a, b) == -q);
        assert(a - (-q) * b == pa - q * pb) by (nonlinear_arith)
            requires
                pa == a,
                pb == -b,
        ;
    }
}

/// Integer arithmetic: on two integers `x` (below) and `y` (on top),
/// `AddInt`, `SubInt` and `MulInt` replace them with `x + y`, `x - y` and
/// `x * y`, and `DivInt` with the quotient rounded toward zero, whenever
/// the result fits in an `i32`; a result that does not fit is an overflow
/// and a zero divisor a division by zero.
pub proof fn lemma_int_arithmetic(s: VmState, f: FrameModel, k: u16, x: i32, y: i32)
    requires
        s.stack.len() >= 2,
        s.stack[s.stack.len() - 2] == ValueModel::Int(x),
        s.stack.last() == ValueModel::Int(y),
    ensures
        ({
            let rest = s.stack.subrange(0, s.stack.len() - 2);
            let gives = |op: OpCode, z: int|
                if i32::MIN <= z <= i32::MAX {
                    rule_execute(s, f, Instruction { opcode: op, operand: k }) == Ok::<
                        (VmState, StepModel, Option<FrameModel>),
                        VmError,
                    >((s.with_stack(rest.push(ValueModel::Int(z as i32))), StepModel::Continue, None))
                } else {
                    rule_execute(s, f, Instruction { opcode: op, operand: k }) == Err::<
                        (VmState, StepModel, Option<FrameModel>),
                        VmError,
                    >(VmError::IntegerOverflow)
                };
            &&& gives(OpCode::AddInt, x + y)
            &&& gives(OpCode::SubInt, x - y)
            &&& gives(OpCode::MulInt, x * y)
            &&& y == 0 ==> rule_execute(s, f, Instruction { opcode: OpCode::DivInt, operand: k })
                == Err::<(VmState, StepModel, Option<FrameModel>), VmError>(VmError::DivisionByZero)
            &&& x == i32::MIN && y == -1 ==> rule_execute(
                s,
                f,
                Instruction { opcode: OpCode::DivInt, operand: k },
            ) == Err::<(VmState, StepModel, Option<FrameModel>), VmError>(VmError::IntegerOverflow)
            &&& y != 0 && !(x == i32::MIN && y == -1) ==> {
                &&& rule_execute(s, f, Instruction { opcode: OpCode::DivInt, operand: k }) matches Ok(
                    (t, out, g),
                )
                &&& out == StepModel::Continue
                &&& g is None
                &&& t == s.with_stack(t.stack)
                &&& t.stack.drop_last() == rest
                &&& t.stack.last() matches ValueModel::Int(z)
                &&& ({
                    let r = x - z * y;
                    let ay: int = if y < 0 { -y } else { y as int };
                    &&& (if r < 0 { -r } else { r }) < ay
                    &&& x >= 0 ==> r >= 0
                    &&& x <= 0 ==> r <= 0
                })
            }
        }),
{
    let rest = s.stack.subrange(0, s.stack.len() - 2);
    assert(s.pop_n(2).stack =~= rest);
    if y != 0 {
        lemma_division_rounds_toward_zero(x as int, y as int);
        let q = trunc_div(x as int, y as int);
        if !(x == i32::MIN && y == -1) {
            lemma_quotient_fits(x, y);
            assert(s.with_stack(rest.push(ValueModel::Int(q as i32))).stack.drop_last() =~= rest);
        } else {
            assert(0x8000_0000int / 1int == 0x8000_0000int) by (nonlinear_arith);
            assert(q == 0x8000_0000int);
        }
    }
}

/// A quotient rounded toward zero fits in an `i32`, but for `i32::MIN / -1`.
proof fn lemma_quotient_fits(x: i32, y: i32)
    requires
        y != 0,
        !(x == i32::MIN && y == -1),
    ensures
        i32::MIN <= trunc_div(x as int, y as int) <= i32::MAX,
{
    let a = x as int;
    let b = y as int;
    if a == 0 {
    } else if a > 0 && b > 0 {
        vstd::arithmetic::div_mod::lemma_div_is_ordered_by_denominator(a, 1, b);
        vstd::arithmetic::div_mod::lemma_div_pos_is_pos(a, b);
    } else if a < 0 && b < 0 {
        vstd::arithmetic::div_mod::lemma_div_is_ordered_by_denominator(-a, 1, -b);
        vstd::arithmetic::div_mod::lemma_div_pos_is_pos(-a, -b);
        if b == -1 {
        } else {
            vstd::arithmetic::div_mod::lemma_div_is_ordered_by_denominator(-a, 2, -b);
            assert(-a / 2 <= 0x4000_0000);
        }
    } else if a < 0 {
        vstd::arithmetic::div_mod::lemma_div_is_ordered_by_denominator(-a, 1, b);
        vstd::arithmetic::div_mod::lemma_div_pos_is_pos(-a, b);
    } else {
        vstd::arithmetic::div_mod::lemma_div_is_ordered_by_denominator(a, 1, -b);
        vstd::arithmetic::div_mod::lemma_div_pos_is_pos(a, -b);
    }
}

/// Logic: on two booleans `x` (below) and `y` (on top), `AndBool` and
/// `OrBool` replace them with `x && y` and `x || y`, and `NotBool` replaces
/// the `y` on top with `!y`. Nothing else changes.
pub proof fn lemma_logic(s: VmState, f: FrameModel, k: u16, x: bool, y: bool)
    requires
        s.stack.len() >= 2,
        s.stack[s.stack.len() - 2] == ValueModel::Bool(x),
        s.stack.last() == ValueModel::Bool(y),
    ensures
        ({
            let rest = s.stack.subrange(0, s.stack.len() - 2);
            &&& rule_execute(s, f, Instruction { opcode: OpCode::AndBool, operand: k }) == Ok::<
                (VmState, StepModel, Option<FrameModel>),
                VmError,
            >((s.with_stack(rest.push(ValueModel::Bool(x && y))), StepModel::Continue, None))
            &&& rule_execute(s, f, Instruction { opcode: OpCode::OrBool, operand: k }) == Ok::<
                (VmState, StepModel, Option<FrameModel>),
                VmError,
            >((s.with_stack(rest.push(ValueModel::Bool(x || y))), StepModel::Continue, None))
            &&& rule_execute(s, f, Instruction { opcode: OpCode::NotBool, operand: k }) == Ok::<
                (VmState, StepModel, Option<FrameModel>),
                VmError,
            >(
                (s.with_stack(s.stack.drop_last().push(ValueModel::Bool(!y))), StepModel::Continue, None),
            )
        }),
{
    assert(s.pop_n(2).stack =~= s.stack.subrange(0, s.stack.len() - 2));
    assert(s.pop_n(1).stack =~= s.stack.drop_last());
}

/// Concatenation: on two strings `x` (below) and `y` (on top), `AddString`
/// replaces them with `x` followed by `y`. Nothing else changes.
pub proof fn lemma_concat(s: VmState, f: FrameModel, k: u16, x: Seq<char>, y: Seq<char>)
    requires
        s.stack.len() >= 2,
        s.stack[s.stack.len() - 2] == ValueModel::Str(x),
        s.stack.last() == ValueModel::Str(y),
    ensures
        rule_execute(s, f, Instruction { opcode: OpCode::AddString, operand: k }) == Ok::<
            (VmState, StepModel, Option<FrameModel>),
            VmError,
        >(
            (
                s.with_stack(s.stack.subrange(0, s.stack.len() - 2).push(ValueModel::Str(x + y))),
                StepModel::Continue,
                None,
            ),
        ),
{
    assert(s.pop_n(2).stack =~= s.stack.subrange(0, s.stack.len() - 2));
}

/// Float arithmetic is handed back: on two floats `x` (below) and `y` (on
/// top), `AddFloat`, `SubFloat`, `MulFloat` and `DivFloat` pop both and ask
/// the caller for `x + y`, `x - y`, `x * y` and `x / y`, operands in that
/// order.
pub proof fn lemma_float_arithmetic(s: VmState, f: FrameModel, k: u16, x: Seq<char>, y: Seq<char>)
    requires
        s.stack.len() >= 2,
        s.stack[s.stack.len() - 2] == ValueModel::Float(x),
        s.stack.last() == ValueModel::Float(y),
    ensures
        ({
            let popped = s.with_stack(s.stack.subrange(0, s.stack.len() - 2));
            let asks = |op: OpCode, a: ArithOp|
                rule_execute(s, f, Instruction { opcode: op, operand: k }) == Ok::<
                    (VmState, StepModel, Option<FrameModel>),
                    VmError,
                >((popped, StepModel::Float(a, x, y), None));
            &&& asks(OpCode::AddFloat, ArithOp::Add)
            &&& asks(OpCode::SubFloat, ArithOp::Sub)
            &&& asks(OpCode::MulFloat, ArithOp::Mul)
            &&& asks(OpCode::DivFloat, ArithOp::Div)
        }),
{
    assert(s.pop_n(2).stack =~= s.stack.subrange(0, s.stack.len() - 2));
    assert(s.pop_n(2) == s.with_stack(s.stack.subrange(0, s.stack.len() - 2)));
}

/// Globals: `DefineGlobal k` gives the global named by entry `k` of the
/// name table the value `Null` and leaves the stack alone; `LoadGlobal k`
/// pushes that global's value, and is an error when no such global was
/// defined.
pub proof fn lemma_globals(s: VmState, f: FrameModel, k: u16)
    requires
        (k as int) < f.func.chunk.names.len(),
    ensures
        ({
            let name = f.func.chunk.names[k as int].name;
            &&& rule_execute(s, f, Instruction { opcode: OpCode::DefineGlobal, operand: k }) == Ok::<
                (VmState, StepModel, Option<FrameModel>),
                VmError,
            >((s.with_globals(s.globals.insert(name, ValueModel::Null)), StepModel::Continue, None))
            &&& s.globals.contains_key(name) ==> rule_execute(
                s,
                f,
                Instruction { opcode: OpCode::LoadGlobal, operand: k },
            ) == Ok::<(VmState, StepModel, Option<FrameModel>), VmError>(
                (s.push(s.globals[name]), StepModel::Continue, None),
            )
            &&& !s.globals.contains_key(name) ==> rule_execute(
                s,
                f,
                Instruction { opcode: OpCode::LoadGlobal, operand: k },
            ) == Err::<(VmState, StepModel, Option<FrameModel>), VmError>(VmError::UndefinedGlobal)
        }),
{
}

/// Calls: with a reference to a function `g` on top of the stack and at
/// least `a` values below it, `Call a` takes the reference off the stack,
/// takes the function out of the heap, and opens a frame that runs `g`
/// from its first instruction with its locals starting at the first of
/// those `a` values.
pub proof fn lemma_call_opens_frame(s: VmState, f: FrameModel, a: u16, p: usize, g: FunctionModel)
    requires
        s.stack.len() >= 1,
        s.stack.last() == ValueModel::Ptr(p),
        p < s.heap.len(),
        s.heap[p as int] == Some(UnitModel::Function(g)),
        a <= s.stack.len() - 1,
    ensures
        rule_execute(s, f, Instruction { opcode: OpCode::Call, operand: a }) == Ok::<
            (VmState, StepModel, Option<FrameModel>),
            VmError,
        >(
            (
                s.with_stack(s.stack.drop_last()).with_heap(s.heap.remove(p as int)),
                StepModel::Continue,
                Some(FrameModel { func: g, ip: 0, stack_base: (s.stack.len() - 1 - a) as usize }),
            ),
        ),
{
    assert(s.pop_n(1).stack =~= s.stack.drop_last());
}

/// A step runs the current frame's instruction at its instruction pointer
/// and moves that pointer one on; an instruction other than `Return`,
/// `Stop` and a call keeps the same frames otherwise, and a call adds the
/// callee's frame on top.
pub proof fn lemma_step_advances(s: VmState)
    requires
        s.frames.len() > 0,
        s.frames.last().ip < s.frames.last().func.chunk.instructions.len(),
        s.frames.last().ip < usize::MAX,
    ensures
        ({
            let f = s.frames.last();
            let instr = f.func.chunk.instructions[f.ip as int];
            let f1 = FrameModel { ip: (f.ip + 1) as usize, ..f };
            let below = s.with_frames(s.frames.drop_last());
            instr.opcode != OpCode::Return && instr.opcode != OpCode::Stop ==> match rule_execute(
                below,
                f1,
                instr,
            ) {
                Ok((t, out, None)) => rule_step(s) == Ok::<(VmState, StepModel), VmError>(
                    (t.with_frames(s.frames.drop_last().push(f1)), out),
                ),
                Ok((t, out, Some(g))) => rule_step(s) == Ok::<(VmState, StepModel), VmError>(
                    (t.with_frames(s.frames.drop_last().push(f1).push(g)), out),
                ),
                Err(e) => rule_step(s) == Err::<(VmState, StepModel), VmError>(e),
            }
        }),
{
}

} // verus!
