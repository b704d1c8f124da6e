//! NaN-boxed values of the register-free virtual machine.
use vstd::prelude::*;

verus! {

/// Quiet-NaN pattern: every non-float value carries these bits.
pub const QNAN: u64 = 0x7FFC_0000_0000_0000;
/// The sign bit, which tags integers.
pub const SIGN: u64 = 0x8000_0000_0000_0000;
/// Encoding of `true`.
pub const TAG_TRUE: u64 = QNAN | 2;
/// Encoding of `false`.
pub const TAG_FALSE: u64 = QNAN | 3;
/// Tag of 48-bit integers.
pub const TAG_INT: u64 = QNAN | SIGN;

/// Mask of the 48 payload bits of an integer.
pub const INT_PAYLOAD: u64 = 0x0000_FFFF_FFFF_FFFF;

/// A NaN-boxed value: floats are stored as their own bits; integers,
/// booleans and heap references live in the quiet-NaN space.
#[derive(Clone, Copy, Debug, PartialEq, Eq, Structural, Hash)]
pub struct Val(pub(crate) u64);

/// The signed 48-bit integer whose two's complement form is the low 48 bits of `bits`.
pub open spec fn spec_int48(bits: u64) -> int {
    let raw = (bits & INT_PAYLOAD) as int;
    if raw >= 0x8000_0000_0000 { raw - 0x1_0000_0000_0000 } else { raw }
}

impl Val {
    /// The raw 64 bits of the value.
    pub closed spec fn bits(self) -> u64 {
        self.0
    }

    pub open spec fn spec_is_float(self) -> bool {
        (self.bits() & QNAN) != QNAN
    }

    pub open spec fn spec_is_int(self) -> bool {
        (self.bits() & (QNAN | SIGN)) == TAG_INT
    }

    pub open spec fn spec_is_true(self) -> bool {
        self.bits() == TAG_TRUE
    }

    pub open spec fn spec_is_false(self) -> bool {
        self.bits() == TAG_FALSE
    }

    pub open spec fn spec_is_bool(self) -> bool {
        self.bits() == TAG_TRUE || self.bits() == TAG_FALSE
    }

    pub open spec fn spec_is_heap(self) -> bool {
        (self.bits() & QNAN) == QNAN && (self.bits() & SIGN) == 0 && (self.bits() & 0xF) >= 4
    }

    pub open spec fn spec_as_int(self) -> int {
        spec_int48(self.bits())
    }

    pub open spec fn spec_as_heap(self) -> u32 {
        ((self.bits() >> 4u64) & 0x0FFF_FFFF) as u32
    }

    pub open spec fn spec_int_bits(i: i64) -> u64 {
        TAG_INT | ((i as u64) & INT_PAYLOAD)
    }

    /// Canonical boxing of a float given by its IEEE-754 bits: every NaN
    /// pattern that would collide with the tag space becomes `QNAN`.
    pub open spec fn spec_float_box_bits(bits: u64) -> u64 {
        if (bits & QNAN) == QNAN { QNAN } else { bits }
    }

    /// Boxes the float whose IEEE-754 bits are `bits`.
    pub fn from_float_bits(bits: u64) -> (r: Val)
        ensures
            r.bits() == Val::spec_float_box_bits(bits),
    {
        if (bits & QNAN) == QNAN { Val(QNAN) } else { Val(bits) }
    }

    /// The value whose raw bits are `bits`.
    pub(crate) fn from_bits(bits: u64) -> (r: Val)
        ensures
            r.bits() == bits,
    {
        Val(bits)
    }

    /// The raw bits of the value (for a float: its IEEE-754 bits).
    pub fn to_bits(&self) -> (r: u64)
        ensures
            r == self.bits(),
    {
        self.0
    }

    pub fn is_numeric(&self) -> (r: bool)
        ensures
            r == (self.spec_is_int() || self.spec_is_float()),
    {
        self.is_int() || self.is_float()
    }

    pub const INT_MAX: i64 = 0x0000_7FFF_FFFF_FFFF;

    pub const INT_MIN: i64 = -0x0000_8000_0000_0000;

    /// Boxes an integer, keeping its low 48 bits.
    pub fn from_int(i: i64) -> (r: Val)
        ensures
            r.bits() == Val::spec_int_bits(i),
            r.spec_is_int(),
            r.spec_as_int() == spec_int48(i as u64),
    {
        proof {
            lemma_int_box(i);
        }
        Val(TAG_INT | (i as u64 & INT_PAYLOAD))
    }

    /// Boxes an integer when it fits in 48 signed bits.
    pub fn int_checked(i: i64) -> (r: Option<Val>)
        ensures
            (Val::INT_MIN <= i <= Val::INT_MAX) ==> r is Some && r->0.bits() == Val::spec_int_bits(i),
            !(Val::INT_MIN <= i <= Val::INT_MAX) ==> r.is_none(),
    {
        if i > Self::INT_MAX || i < Self::INT_MIN {
            None
        } else {
            Some(Self::from_int(i))
        }
    }

    pub fn bool(b: bool) -> (r: Val)
        ensures
            r.bits() == (if b { TAG_TRUE } else { TAG_FALSE }),
    {
        Val(if b { TAG_TRUE } else { TAG_FALSE })
    }

    pub fn is_float(&self) -> (r: bool)
        ensures
            r == self.spec_is_float(),
    {
        (self.0 & QNAN) != QNAN
    }

    pub fn is_int(&self) -> (r: bool)
        ensures
            r == self.spec_is_int(),
    {
        (self.0 & (QNAN | SIGN)) == TAG_INT
    }

    pub fn is_true(&self) -> (r: bool)
        ensures
            r == self.spec_is_true(),
    {
        self.0 == TAG_TRUE
    }

    pub fn is_false(&self) -> (r: bool)
        ensures
            r == self.spec_is_false(),
    {
        self.0 == TAG_FALSE
    }

    pub fn is_bool(&self) -> (r: bool)
        ensures
            r == self.spec_is_bool(),
    {
        self.0 == TAG_TRUE || self.0 == TAG_FALSE
    }

    pub fn is_heap(&self) -> (r: bool)
        ensures
            r == self.spec_is_heap(),
    {
        (self.0 & QNAN) == QNAN && (self.0 & SIGN) == 0 && (self.0 & 0xF) >= 4
    }

    /// The 48-bit integer payload, sign-extended.
    pub fn as_int(&self) -> (r: i64)
        ensures
            r == self.spec_as_int(),
    {
        let raw: u64 = self.0 & INT_PAYLOAD;
        let x = self.0;
        assert((x & 0x0000_FFFF_FFFF_FFFFu64) <= 0x0000_FFFF_FFFF_FFFFu64) by (bit_vector);
        let r: i64 = if raw >= 0x8000_0000_0000 {
            (raw as i64) - 0x1_0000_0000_0000
        } else {
            raw as i64
        };
        r
    }

    pub fn as_bool(&self) -> (r: bool)
        ensures
            r == self.spec_is_true(),
    {
        self.0 == TAG_TRUE
    }

    pub fn as_heap(&self) -> (r: u32)
        ensures
            r == self.spec_as_heap(),
    {
        ((self.0 >> 4) & 0x0FFF_FFFF) as u32
    }
}

proof fn lemma_int_box(i: i64)
    ensures
        (Val::spec_int_bits(i) & (QNAN | SIGN)) == TAG_INT,
        (Val::spec_int_bits(i) & INT_PAYLOAD) == ((i as u64) & INT_PAYLOAD),
{
    let u = i as u64;
    assert((((0x7FFC_0000_0000_0000u64 | 0x8000_0000_0000_0000u64) | (u & 0x0000_FFFF_FFFF_FFFFu64)) & (0x7FFC_0000_0000_0000u64 | 0x8000_0000_0000_0000u64)) == (0x7FFC_0000_0000_0000u64 | 0x8000_0000_0000_0000u64)) by (bit_vector);
    assert((((0x7FFC_0000_0000_0000u64 | 0x8000_0000_0000_0000u64) | (u & 0x0000_FFFF_FFFF_FFFFu64)) & 0x0000_FFFF_FFFF_FFFFu64) == (u & 0x0000_FFFF_FFFF_FFFFu64)) by (bit_vector);
}

/// Boxing an integer of 48 signed bits and reading it back gives it back.
pub proof fn lemma_int_round_trip(i: i64)
    requires
        Val::INT_MIN <= i <= Val::INT_MAX,
    ensures
        spec_int48(i as u64) == i,
{
    if i >= 0 {
        assert(((i as u64) & 0x0000_FFFF_FFFF_FFFFu64) == i as u64 && (i as u64) < 0x8000_0000_0000u64)
            by (bit_vector)
            requires
                0 <= i <= 0x0000_7FFF_FFFF_FFFFi64,
        ;
    } else {
        assert(((i as u64) & 0x0000_FFFF_FFFF_FFFFu64) >= 0x8000_0000_0000u64 && (((i as u64)
            & 0x0000_FFFF_FFFF_FFFFu64) as i64) - 0x1_0000_0000_0000i64 == i) by (bit_vector)
            requires
                -0x0000_8000_0000_0000i64 <= i < 0,
        ;
        let raw = (i as u64) & 0x0000_FFFF_FFFF_FFFFu64;
        assert(raw <= 0x0000_FFFF_FFFF_FFFFu64) by (bit_vector)
            requires
                raw == (i as u64) & 0x0000_FFFF_FFFF_FFFFu64,
        ;
        assert(raw as i64 as int == raw as int);
    }
    lemma_int_box(i);
}

/// The two booleans are boxed apart from each other and from every other
/// kind of value, and read back as themselves.
pub proof fn lemma_bool_round_trip(v: Val, b: bool)
    requires
        v.bits() == (if b { TAG_TRUE } else { TAG_FALSE }),
    ensures
        v.spec_is_bool(),
        v.spec_is_true() == b,
        v.spec_is_false() == !b,
        !v.spec_is_int(),
        !v.spec_is_float(),
        !v.spec_is_heap(),
{
    assert(((0x7FFC_0000_0000_0000u64 | 2u64) & 0x7FFC_0000_0000_0000u64) == 0x7FFC_0000_0000_0000u64)
        by (bit_vector);
    assert(((0x7FFC_0000_0000_0000u64 | 3u64) & 0x7FFC_0000_0000_0000u64) == 0x7FFC_0000_0000_0000u64)
        by (bit_vector);
    assert(((0x7FFC_0000_0000_0000u64 | 2u64) & (0x7FFC_0000_0000_0000u64 | 0x8000_0000_0000_0000u64))
        != (0x7FFC_0000_0000_0000u64 | 0x8000_0000_0000_0000u64)) by (bit_vector);
    assert(((0x7FFC_0000_0000_0000u64 | 3u64) & (0x7FFC_0000_0000_0000u64 | 0x8000_0000_0000_0000u64))
        != (0x7FFC_0000_0000_0000u64 | 0x8000_0000_0000_0000u64)) by (bit_vector);
    assert((0x7FFC_0000_0000_0000u64 | 2u64) != (0x7FFC_0000_0000_0000u64 | 3u64)) by (bit_vector);
    assert(((0x7FFC_0000_0000_0000u64 | 2u64) & 0xFu64) < 4) by (bit_vector);
    assert(((0x7FFC_0000_0000_0000u64 | 3u64) & 0xFu64) < 4) by (bit_vector);
}

} // verus!
