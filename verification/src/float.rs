//! Binary64 values as bit patterns, the comparisons that depend on the bits
//! alone, and the tasks that need binary64 arithmetic from the host.
use vstd::prelude::*;

verus! {

/// Mask of every bit but the sign bit.
pub const MAGNITUDE_MASK: u64 = 0x7fff_ffff_ffff_ffffu64;

/// Mask of the significand bits.
pub const SIGNIFICAND_MASK: u64 = 0x000f_ffff_ffff_ffffu64;

/// Mask of the exponent bits, in place.
pub const EXPONENT_MASK: u64 = 0x7ff0_0000_0000_0000u64;

/// Bits of 1.0.
pub const ONE_BITS: u64 = 0x3ff0_0000_0000_0000u64;

/// A NaN has all exponent bits set and a nonzero significand.
pub open spec fn float_is_nan(bits: u64) -> bool {
    bits & EXPONENT_MASK == EXPONENT_MASK && bits & SIGNIFICAND_MASK != 0
}

/// +0.0 and -0.0 are the two patterns whose magnitude bits are all clear.
pub open spec fn float_is_zero(bits: u64) -> bool {
    bits & MAGNITUDE_MASK == 0
}

/// An integer that orders non-NaN binary64 values as the reals they stand for
/// (both zeros map to 0).
pub open spec fn float_key(bits: u64) -> int {
    if bits & MAGNITUDE_MASK == bits {
        bits as int
    } else {
        -((bits & MAGNITUDE_MASK) as int)
    }
}

/// IEEE-754 equality: false on NaN, true for the two zeros.
pub open spec fn float_eq(a: u64, b: u64) -> bool {
    !float_is_nan(a) && !float_is_nan(b) && float_key(a) == float_key(b)
}

/// IEEE-754 less-than.
pub open spec fn float_lt(a: u64, b: u64) -> bool {
    !float_is_nan(a) && !float_is_nan(b) && float_key(a) < float_key(b)
}

/// IEEE-754 less-or-equal.
pub open spec fn float_le(a: u64, b: u64) -> bool {
    !float_is_nan(a) && !float_is_nan(b) && float_key(a) <= float_key(b)
}

/// Whether the pattern is a NaN.
pub fn is_nan(bits: u64) -> (r: bool)
    ensures r == float_is_nan(bits),
{
    bits & EXPONENT_MASK == EXPONENT_MASK && bits & SIGNIFICAND_MASK != 0
}

/// Whether the pattern is +0.0 or -0.0.
pub fn is_zero(bits: u64) -> (r: bool)
    ensures r == float_is_zero(bits),
{
    bits & MAGNITUDE_MASK == 0
}

/// IEEE-754 equality of two patterns.
pub fn bits_eq(a: u64, b: u64) -> (r: bool)
    ensures r == float_eq(a, b),
{
    if is_nan(a) || is_nan(b) {
        return false;
    }
    let ma = a & MAGNITUDE_MASK;
    let mb = b & MAGNITUDE_MASK;
    if ma == a && mb == b {
        a == b
    } else if ma != a && mb != b {
        ma == mb
    } else {
        ma == 0 && mb == 0
    }
}

/// IEEE-754 less-than (`strict`) or less-or-equal (`!strict`) of two patterns.
pub fn bits_less(a: u64, b: u64, strict: bool) -> (r: bool)
    ensures r == (if strict { float_lt(a, b) } else { float_le(a, b) }),
{
    if is_nan(a) || is_nan(b) {
        return false;
    }
    let ma = a & MAGNITUDE_MASK;
    let mb = b & MAGNITUDE_MASK;
    let a_pos = ma == a;
    let b_pos = mb == b;
    if a_pos && b_pos {
        if strict { a < b } else { a <= b }
    } else if !a_pos && !b_pos {
        if strict { mb < ma } else { mb <= ma }
    } else if a_pos {
        // a >= 0 >= b: only the two zeros compare as equal
        if strict { false } else { ma == 0 && mb == 0 }
    } else {
        // a <= 0 <= b
        if strict { !(ma == 0 && mb == 0) } else { true }
    }
}

/// A binary64 number: its bit pattern and the texts that the host renders for
/// it (`text` as `Display` writes it, `repr` as `Debug` writes it).
#[derive(Debug, PartialEq)]
pub struct FloatValue {
    /// IEEE-754 binary64 bit pattern.
    pub bits: u64,
    /// `Display` rendering.
    pub text: String,
    /// `Debug` rendering.
    pub repr: String,
}

impl Clone for FloatValue {
    fn clone(&self) -> (r: Self)
        ensures r == *self,
    {
        FloatValue { bits: self.bits, text: self.text.clone(), repr: self.repr.clone() }
    }
}

impl FloatValue {
    /// The value 0.0.
    pub fn zero() -> (r: Self)
        ensures r.bits == 0, r.text@ == "0"@, r.repr@ == "0.0"@,
    {
        FloatValue { bits: 0, text: String::from_str("0"), repr: String::from_str("0.0") }
    }

    /// The value 1.0.
    pub fn one() -> (r: Self)
        ensures r.bits == ONE_BITS, r.text@ == "1"@, r.repr@ == "1.0"@,
    {
        FloatValue { bits: ONE_BITS, text: String::from_str("1"), repr: String::from_str("1.0") }
    }
}

/// An operand of a binary64 task.
#[derive(Debug, PartialEq)]
pub enum Number {
    /// An integer operand, converted with `as f64` where the task needs a float.
    Int(i64),
    /// A float operand.
    Float(FloatValue),
}

/// What a binary64 task computes; operands are converted to `f64` first.
#[derive(Debug, PartialEq)]
pub enum FloatOp {
    /// `a + b`, a float.
    Add,
    /// `a - b`, a float.
    Sub,
    /// `a * b`, a float.
    Mul,
    /// `a / b`, a float.
    Div,
    /// `(a / b).floor()`, a float.
    FloorDiv,
    /// `(a / b).floor() as i64`, an integer.
    IntFloorDiv,
    /// `a.rem_euclid(b)`, a float.
    Rem,
    /// `a.powf(b)`, a float.
    Pow,
    /// `a == b`, a boolean.
    Eq,
    /// `a != b`, a boolean.
    Ne,
    /// `a < b`, a boolean.
    Lt,
    /// `a <= b`, a boolean.
    Le,
    /// `a > b`, a boolean.
    Gt,
    /// `a >= b`, a boolean.
    Ge,
    /// `a as i64`, an integer (`b` is unused).
    ToInt,
    /// `a as f64`, a float (`b` is unused).
    ToFloat,
}

/// A computation that the library leaves to the host's binary64 unit.
#[derive(Debug, PartialEq)]
pub struct FloatTask {
    /// The operation.
    pub op: FloatOp,
    /// Left operand.
    pub lhs: Number,
    /// Right operand.
    pub rhs: Number,
}

/// Either a result or the binary64 task that the result waits for.
#[derive(Debug, PartialEq)]
pub enum Outcome<T> {
    /// The result.
    Ready(T),
    /// The host computes this float operation; its answer is the result.
    Float(FloatTask),
}

} // verus!
