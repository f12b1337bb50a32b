//! Fixed-point scalar with four fractional bits, stored as its raw `i32` bits.
use fixed::types::extra::U4;
use fixed::FixedI32;
use vstd::prelude::*;

verus! {

/// Number of raw units in one whole unit (four fractional bits).
pub const SCALE: i32 = 16;

pub open spec fn fits_i32(v: int) -> bool {
    i32::MIN <= v && v <= i32::MAX
}

/// `v` clamped to the range of `i32`.
pub open spec fn saturate(v: int) -> int {
    if v < i32::MIN {
        i32::MIN as int
    } else if v > i32::MAX {
        i32::MAX as int
    } else {
        v
    }
}

pub open spec fn abs(v: int) -> int {
    if v < 0 {
        -v
    } else {
        v
    }
}

/// Integer division rounding toward zero.
pub open spec fn trunc_div(n: int, d: int) -> int {
    if (n < 0) != (d < 0) {
        -(abs(n) / abs(d))
    } else {
        abs(n) / abs(d)
    }
}

/// Raw bits of the exact product, rounded toward negative infinity.
pub open spec fn mul_bits(a: int, b: int) -> int {
    (a * b) / 16
}

/// Raw bits of the exact quotient, rounded toward zero.
pub open spec fn div_bits(a: int, b: int) -> int {
    trunc_div(16 * a, b)
}

/// Relies on `FixedI32::<U4>::checked_from_num` for an `i32`: the integer
/// times sixteen when that fits, else `None`.
#[verifier::external_body]
fn fixed_checked_from_int(n: i32) -> (r: Option<i32>)
    ensures
        r == (if fits_i32(16 * n) {
            Some((16 * n) as i32)
        } else {
            None::<i32>
        }),
{
    match FixedI32::<U4>::checked_from_num(n) {
        Some(f) => Some(f.to_bits()),
        None => None,
    }
}

/// Relies on `FixedI32::<U4>::to_num::<i32>`: fractional bits are discarded,
/// rounding toward negative infinity.
#[verifier::external_body]
fn fixed_to_int(bits: i32) -> (r: i32)
    ensures
        r == bits as int / 16,
{
    FixedI32::<U4>::from_bits(bits).to_num::<i32>()
}

/// Relies on `FixedI32::<U4>::saturating_add`: the raw sum, clamped.
#[verifier::external_body]
fn fixed_saturating_add(a: i32, b: i32) -> (r: i32)
    ensures
        r == saturate(a + b),
{
    FixedI32::<U4>::from_bits(a).saturating_add(FixedI32::<U4>::from_bits(b)).to_bits()
}

/// Relies on `FixedI32::<U4>::saturating_sub`: the raw difference, clamped.
#[verifier::external_body]
fn fixed_saturating_sub(a: i32, b: i32) -> (r: i32)
    ensures
        r == saturate(a - b),
{
    FixedI32::<U4>::from_bits(a).saturating_sub(FixedI32::<U4>::from_bits(b)).to_bits()
}

/// Relies on `FixedI32::<U4>::saturating_mul`: the product rounded toward
/// negative infinity, clamped.
#[verifier::external_body]
fn fixed_saturating_mul(a: i32, b: i32) -> (r: i32)
    ensures
        r == saturate(mul_bits(a as int, b as int)),
{
    FixedI32::<U4>::from_bits(a).saturating_mul(FixedI32::<U4>::from_bits(b)).to_bits()
}

/// Relies on `FixedI32::<U4>::saturating_div`: the quotient rounded toward
/// zero, clamped. It panics on a zero divisor, which `requires` excludes.
#[verifier::external_body]
fn fixed_saturating_div(a: i32, b: i32) -> (r: i32)
    requires
        b != 0,
    ensures
        r == saturate(div_bits(a as int, b as int)),
{
    FixedI32::<U4>::from_bits(a).saturating_div(FixedI32::<U4>::from_bits(b)).to_bits()
}

/// Relies on `FixedI32::<U4>::saturating_neg`: the negation, clamped.
#[verifier::external_body]
fn fixed_saturating_neg(a: i32) -> (r: i32)
    ensures
        r == saturate(-a),
{
    FixedI32::<U4>::from_bits(a).saturating_neg().to_bits()
}

/// Failure of a numeric operation.
#[derive(Clone, Copy, Debug, PartialEq, Eq, Structural)]
pub enum NumericError {
    DivisionByZero,
    OutOfRange,
}

/// A fixed-point number: `bits / 16`. Every operation works on the raw bits,
/// and add, subtract, multiply and negate saturate at the ends of the range.
#[derive(Clone, Copy, Debug, PartialEq, Eq, Structural, PartialOrd, Ord, Hash)]
pub struct Number {
    pub bits: i32,
}

impl Default for Number {
    fn default() -> (r: Number)
        ensures
            r.bits == 0,
    {
        Number { bits: 0 }
    }
}

/// Smallest integer that converts to a `Number`.
pub const MIN_INT: i32 = -134217728;

/// Largest integer that converts to a `Number`.
pub const MAX_INT: i32 = 134217727;

impl Number {
    pub open spec fn int_in_range(n: int) -> bool {
        MIN_INT <= n && n <= MAX_INT
    }

    pub fn zero() -> (r: Number)
        ensures
            r.bits == 0,
    {
        Number { bits: 0 }
    }

    pub fn one() -> (r: Number)
        ensures
            r.bits == 16,
    {
        Number { bits: SCALE }
    }

    pub fn from_bits(bits: i32) -> (r: Number)
        ensures
            r.bits == bits,
    {
        Number { bits }
    }

    /// The integer `n` as a number; fails when `n` is out of range.
    pub fn from_int(n: i32) -> (r: Result<Number, NumericError>)
        ensures
            Self::int_in_range(n as int) ==> r == Ok::<Number, NumericError>(
                Number { bits: (16 * n) as i32 },
            ),
            !Self::int_in_range(n as int) ==> r == Err::<Number, NumericError>(
                NumericError::OutOfRange,
            ),
    {
        match fixed_checked_from_int(n) {
            Some(bits) => Ok(Number { bits }),
            None => Err(NumericError::OutOfRange),
        }
    }

    /// The integer part, rounded toward negative infinity.
    pub fn to_int(self) -> (r: i32)
        ensures
            r == self.bits as int / 16,
    {
        fixed_to_int(self.bits)
    }

    pub fn add(self, rhs: Number) -> (r: Number)
        ensures
            r.bits == saturate(self.bits + rhs.bits),
    {
        Number { bits: fixed_saturating_add(self.bits, rhs.bits) }
    }

    pub fn sub(self, rhs: Number) -> (r: Number)
        ensures
            r.bits == saturate(self.bits - rhs.bits),
    {
        Number { bits: fixed_saturating_sub(self.bits, rhs.bits) }
    }

    pub fn mul(self, rhs: Number) -> (r: Number)
        ensures
            r.bits == saturate(mul_bits(self.bits as int, rhs.bits as int)),
    {
        Number { bits: fixed_saturating_mul(self.bits, rhs.bits) }
    }

    /// Quotient rounded toward zero and saturated; a zero divisor is an error.
    pub fn div(self, rhs: Number) -> (r: Result<Number, NumericError>)
        ensures
            rhs.bits == 0 ==> r == Err::<Number, NumericError>(NumericError::DivisionByZero),
            rhs.bits != 0 ==> r == Ok::<Number, NumericError>(
                Number { bits: saturate(div_bits(self.bits as int, rhs.bits as int)) as i32 },
            ),
    {
        if rhs.bits == 0 {
            Err(NumericError::DivisionByZero)
        } else {
            Ok(Number { bits: fixed_saturating_div(self.bits, rhs.bits) })
        }
    }

    pub fn neg(self) -> (r: Number)
        ensures
            r.bits == saturate(-self.bits),
    {
        Number { bits: fixed_saturating_neg(self.bits) }
    }

    /// `self < rhs`, by value.
    pub fn less_than(self, rhs: Number) -> (r: bool)
        ensures
            r == (self.bits < rhs.bits),
    {
        self.bits < rhs.bits
    }
}

/// Converting an in-range integer to a number (`from_int`) and back
/// (`to_int`) gives the integer.
pub proof fn lemma_int_round_trip(n: i32)
    requires
        Number::int_in_range(n as int),
    ensures
        fits_i32(16 * n),
        (Number { bits: (16 * n) as i32 }).bits as int / 16 == n,
{
}

} // verus!
