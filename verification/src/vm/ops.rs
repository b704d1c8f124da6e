//! Arithmetic of the NaN-boxed machine. Integer results are boxed back to
//! 48 bits; float arithmetic is handed back to the caller; two heap strings
//! add up to a new heap string.
use vstd::prelude::*;

use crate::compiler::chunk::trunc_div;
use crate::vm::rules::ArithOp;
use crate::vm::types::{spec_int48, Val, QNAN};
use vstd::string::StringExecFns;

verus! {

/// A heap object.
#[derive(Debug)]
pub enum Obj {
    Str(String),
}

/// The text of a string object.
pub open spec fn obj_text(o: Obj) -> Seq<char> {
    match o {
        Obj::Str(s) => s@,
    }
}

/// The boxed reference to heap object `idx`.
pub open spec fn heap_ref_bits(idx: u64) -> u64 {
    QNAN | (idx << 4u64) | 4
}

/// Heap objects, numbered from 0.
pub struct ObjHeap {
    objects: Vec<Obj>,
}

impl View for ObjHeap {
    type V = Seq<Seq<char>>;

    closed spec fn view(&self) -> Seq<Seq<char>> {
        self.objects@.map_values(|o: Obj| obj_text(o))
    }
}

/// The most objects a boxed reference can number.
pub const MAX_OBJECTS: usize = 0x1000_0000;

/// A boxed heap reference refers to the object it was made for.
pub proof fn lemma_heap_ref(v: Val, idx: u64)
    requires
        idx < 0x1000_0000,
        v.bits() == heap_ref_bits(idx),
    ensures
        v.spec_is_heap(),
        v.spec_as_heap() == idx,
{
    assert(((0x7FFC_0000_0000_0000u64 | (idx << 4u64) | 4u64) & 0x7FFC_0000_0000_0000u64)
        == 0x7FFC_0000_0000_0000u64) by (bit_vector)
        requires
            idx < 0x1000_0000u64,
    ;
    assert(((0x7FFC_0000_0000_0000u64 | (idx << 4u64) | 4u64) & 0x8000_0000_0000_0000u64) == 0u64)
        by (bit_vector)
        requires
            idx < 0x1000_0000u64,
    ;
    assert(((0x7FFC_0000_0000_0000u64 | (idx << 4u64) | 4u64) & 0xFu64) == 4u64) by (bit_vector)
        requires
            idx < 0x1000_0000u64,
    ;
    assert((((0x7FFC_0000_0000_0000u64 | (idx << 4u64) | 4u64) >> 4u64) & 0x0FFF_FFFFu64) == idx)
        by (bit_vector)
        requires
            idx < 0x1000_0000u64,
    ;
}

impl ObjHeap {
    pub fn new() -> (r: Self)
        ensures
            r@ == Seq::<Seq<char>>::empty(),
    {
        let r = ObjHeap { objects: Vec::new() };
        assert(r@ =~= Seq::<Seq<char>>::empty());
        r
    }

    /// Stores `obj` and returns the boxed reference to it; `None` when the
    /// heap holds as many objects as a reference can number.
    pub fn alloc_obj(&mut self, obj: Obj) -> (r: Option<Val>)
        ensures
            old(self)@.len() >= MAX_OBJECTS ==> r is None && final(self)@ == old(self)@,
            old(self)@.len() < MAX_OBJECTS ==> r is Some && r->0.bits() == heap_ref_bits(
                old(self)@.len() as u64,
            ) && final(self)@ == old(self)@.push(obj_text(obj)),
    {
        let n = self.objects.len();
        if n >= MAX_OBJECTS {
            return None;
        }
        let ghost m = obj_text(obj);
        self.objects.push(obj);
        assert(self@ =~= old(self)@.push(m));
        let idx = n as u64;
        Some(Val::from_bits(QNAN | (idx << 4) | 4))
    }

    /// The string that `v` refers to, if it refers to one.
    pub fn get_str(&self, v: Val) -> (r: Option<&String>)
        ensures
            match r {
                Some(s) => v.spec_is_heap() && (v.spec_as_heap() as int) < self@.len() && s@
                    == self@[v.spec_as_heap() as int],
                None => !v.spec_is_heap() || v.spec_as_heap() as int >= self@.len(),
            },
    {
        if !v.is_heap() {
            return None;
        }
        let idx = v.as_heap() as usize;
        if idx >= self.objects.len() {
            return None;
        }
        match &self.objects[idx] {
            Obj::Str(s) => Some(s),
        }
    }
}

/// What an arithmetic operation gives.
#[derive(Debug)]
pub enum Arith {
    Value(Val),
    /// Float arithmetic on these operands (at least one a float, the other
    /// a float or an integer); the caller computes it.
    Float { op: ArithOp, lhs: Val, rhs: Val },
}

/// Why an arithmetic operation failed.
#[derive(Debug, Clone, Copy, PartialEq, Eq, Structural)]
pub enum ArithError {
    /// The operands are of kinds the operation does not take.
    WrongType,
    /// A heap operand refers to no object.
    BadReference,
    /// The heap cannot number another object.
    HeapFull,
}

/// Both numeric, not both integers: float arithmetic.
pub open spec fn float_pair(a: Val, b: Val) -> bool {
    (a.spec_is_int() || a.spec_is_float()) && (b.spec_is_int() || b.spec_is_float()) && !(
    a.spec_is_int() && b.spec_is_int())
}

/// The result of a numeric operation on `a` and `b` whose integer case
/// boxes `exact`.
pub open spec fn numeric_result(a: Val, b: Val, op: ArithOp, exact: int, r: Result<Arith, ArithError>) -> bool {
    if a.spec_is_int() && b.spec_is_int() {
        r matches Ok(Arith::Value(v)) && v.bits() == Val::spec_int_bits(exact as i64)
    } else if float_pair(a, b) {
        r matches Ok(Arith::Float { op: o, lhs, rhs }) && o == op && lhs == a && rhs == b
    } else {
        r == Err::<Arith, ArithError>(ArithError::WrongType)
    }
}

pub struct VirtualMachine {
    pub heap: ObjHeap,
}

impl VirtualMachine {
    pub fn new() -> (r: Self)
        ensures
            r.heap@ == Seq::<Seq<char>>::empty(),
    {
        VirtualMachine { heap: ObjHeap::new() }
    }

    /// `a + b`. Two heap strings give a new heap string, their
    /// concatenation.
    pub fn add(&mut self, a: Val, b: Val) -> (r: Result<Arith, ArithError>)
        ensures
            (a.spec_is_int() && b.spec_is_int()) || float_pair(a, b) ==> numeric_result(
                a,
                b,
                ArithOp::Add,
                a.spec_as_int() + b.spec_as_int(),
                r,
            ) && final(self).heap@ == old(self).heap@,
            !(a.spec_is_int() || a.spec_is_float()) || !(b.spec_is_int() || b.spec_is_float())
                ==> {
                if a.spec_is_heap() && b.spec_is_heap() {
                    let h = old(self).heap@;
                    let (i, j) = (a.spec_as_heap() as int, b.spec_as_heap() as int);
                    if i >= h.len() || j >= h.len() {
                        r == Err::<Arith, ArithError>(ArithError::BadReference)
                            && final(self).heap@ == h
                    } else if h.len() >= MAX_OBJECTS {
                        r == Err::<Arith, ArithError>(ArithError::HeapFull) && final(self).heap@
                            == h
                    } else {
                        r matches Ok(Arith::Value(v)) && v.bits() == heap_ref_bits(h.len() as u64)
                            && final(self).heap@ == h.push(h[i] + h[j])
                    }
                } else {
                    r == Err::<Arith, ArithError>(ArithError::WrongType) && final(self).heap@
                        == old(self).heap@
                }
            },
    {
        if a.is_int() && b.is_int() {
            let x = a.as_int();
            let y = b.as_int();
            proof {
                lemma_int48_bounds(a.bits());
                lemma_int48_bounds(b.bits());
            }
            return Ok(Arith::Value(Val::from_int(x + y)));
        }
        if a.is_float() && b.is_float() {
            return Ok(Arith::Float { op: ArithOp::Add, lhs: a, rhs: b });
        }
        if a.is_int() && b.is_float() {
            return Ok(Arith::Float { op: ArithOp::Add, lhs: a, rhs: b });
        }
        if a.is_float() && b.is_int() {
            return Ok(Arith::Float { op: ArithOp::Add, lhs: a, rhs: b });
        }
        proof {
            lemma_kinds_disjoint(a);
            lemma_kinds_disjoint(b);
        }
        if a.is_heap() && b.is_heap() {
            let joined = match (self.heap.get_str(a), self.heap.get_str(b)) {
                (Some(x), Some(y)) => x.clone().concat(y.as_str()),
                _ => {
                    return Err(ArithError::BadReference);
                },
            };
            return match self.heap.alloc_obj(Obj::Str(joined)) {
                Some(v) => Ok(Arith::Value(v)),
                None => Err(ArithError::HeapFull),
            };
        }
        Err(ArithError::WrongType)
    }

    /// `a - b`.
    pub fn sub(&self, a: Val, b: Val) -> (r: Result<Arith, ArithError>)
        ensures
            numeric_result(a, b, ArithOp::Sub, a.spec_as_int() - b.spec_as_int(), r),
    {
        if a.is_int() && b.is_int() {
            let x = a.as_int();
            let y = b.as_int();
            proof {
                lemma_int48_bounds(a.bits());
                lemma_int48_bounds(b.bits());
            }
            return Ok(Arith::Value(Val::from_int(x - y)));
        }
        if a.is_float() && b.is_float() {
            return Ok(Arith::Float { op: ArithOp::Sub, lhs: a, rhs: b });
        }
        if a.is_int() && b.is_float() {
            return Ok(Arith::Float { op: ArithOp::Sub, lhs: a, rhs: b });
        }
        if a.is_float() && b.is_int() {
            return Ok(Arith::Float { op: ArithOp::Sub, lhs: a, rhs: b });
        }
        Err(ArithError::WrongType)
    }

    /// `a * b`.
    pub fn mul(&self, a: Val, b: Val) -> (r: Result<Arith, ArithError>)
        requires
            a.spec_is_int() && b.spec_is_int() ==> i64::MIN <= a.spec_as_int() * b.spec_as_int()
                <= i64::MAX,
        ensures
            numeric_result(a, b, ArithOp::Mul, a.spec_as_int() * b.spec_as_int(), r),
    {
        if a.is_int() && b.is_int() {
            let x = a.as_int();
            let y = b.as_int();
            return Ok(Arith::Value(Val::from_int(x * y)));
        }
        if a.is_float() && b.is_float() {
            return Ok(Arith::Float { op: ArithOp::Mul, lhs: a, rhs: b });
        }
        if a.is_int() && b.is_float() {
            return Ok(Arith::Float { op: ArithOp::Mul, lhs: a, rhs: b });
        }
        if a.is_float() && b.is_int() {
            return Ok(Arith::Float { op: ArithOp::Mul, lhs: a, rhs: b });
        }
        Err(ArithError::WrongType)
    }

    /// `a / b`, rounding toward zero on integers.
    pub fn div(&self, a: Val, b: Val) -> (r: Result<Arith, ArithError>)
        requires
            a.spec_is_int() && b.spec_is_int() ==> b.spec_as_int() != 0,
        ensures
            numeric_result(
                a,
                b,
                ArithOp::Div,
                trunc_div(a.spec_as_int(), b.spec_as_int()),
                r,
            ),
    {
        if a.is_int() && b.is_int() {
            let x = a.as_int();
            let y = b.as_int();
            proof {
                lemma_int48_bounds(a.bits());
                lemma_int48_bounds(b.bits());
            }
            let q = match x.checked_div(y) {
                Some(q) => q,
                None => {
                    assert(false);
                    0
                },
            };
            return Ok(Arith::Value(Val::from_int(q)));
        }
        if a.is_float() && b.is_float() {
            return Ok(Arith::Float { op: ArithOp::Div, lhs: a, rhs: b });
        }
        if a.is_int() && b.is_float() {
            return Ok(Arith::Float { op: ArithOp::Div, lhs: a, rhs: b });
        }
        if a.is_float() && b.is_int() {
            return Ok(Arith::Float { op: ArithOp::Div, lhs: a, rhs: b });
        }
        Err(ArithError::WrongType)
    }
}

/// A boxed integer is a signed 48-bit number.
pub proof fn lemma_int48_bounds(bits: u64)
    ensures
        -0x8000_0000_0000 <= spec_int48(bits) < 0x8000_0000_0000,
{
    assert((bits & 0x0000_FFFF_FFFF_FFFFu64) <= 0x0000_FFFF_FFFF_FFFFu64) by (bit_vector);
}

/// Integers, floats, booleans and heap references are told apart by their bits.
pub proof fn lemma_kinds_disjoint(v: Val)
    ensures
        v.spec_is_heap() ==> !v.spec_is_int() && !v.spec_is_float() && !v.spec_is_bool(),
        v.spec_is_int() ==> !v.spec_is_float() && !v.spec_is_bool(),
        v.spec_is_bool() ==> !v.spec_is_float(),
{
    let x = v.bits();
    assert((x & 0x7FFC_0000_0000_0000u64) == 0x7FFC_0000_0000_0000u64 && (x
        & 0x8000_0000_0000_0000u64) == 0 ==> (x & (0x7FFC_0000_0000_0000u64
        | 0x8000_0000_0000_0000u64)) != (0x7FFC_0000_0000_0000u64 | 0x8000_0000_0000_0000u64))
        by (bit_vector);
    assert((x & (0x7FFC_0000_0000_0000u64 | 0x8000_0000_0000_0000u64)) == (0x7FFC_0000_0000_0000u64
        | 0x8000_0000_0000_0000u64) ==> (x & 0x7FFC_0000_0000_0000u64) == 0x7FFC_0000_0000_0000u64)
        by (bit_vector);
    assert((x & 0xFu64) >= 4 ==> x != (0x7FFC_0000_0000_0000u64 | 2u64) && x != (
    0x7FFC_0000_0000_0000u64 | 3u64)) by (bit_vector);
    assert(x == (0x7FFC_0000_0000_0000u64 | 2u64) || x == (0x7FFC_0000_0000_0000u64 | 3u64) ==> (x
        & 0x7FFC_0000_0000_0000u64) == 0x7FFC_0000_0000_0000u64 && (x & (0x7FFC_0000_0000_0000u64
        | 0x8000_0000_0000_0000u64)) != (0x7FFC_0000_0000_0000u64 | 0x8000_0000_0000_0000u64))
        by (bit_vector);
}

} // verus!
