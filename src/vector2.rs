//! Pair of fixed-point numbers with componentwise arithmetic.
use crate::number::{saturate, mul_bits, Number, NumericError};
use vstd::prelude::*;

verus! {

#[derive(Clone, Copy, Debug, PartialEq, Eq, Structural, PartialOrd, Ord, Hash)]
pub struct Vector2 {
    pub x: Number,
    pub y: Number,
}

impl Default for Vector2 {
    fn default() -> (r: Vector2)
        ensures
            r.x.bits == 0 && r.y.bits == 0,
    {
        Vector2::zero()
    }
}

impl Vector2 {
    pub fn zero() -> (r: Vector2)
        ensures
            r.x.bits == 0 && r.y.bits == 0,
    {
        Vector2 { x: Number::zero(), y: Number::zero() }
    }

    /// The vector with integer components `x` and `y`; fails when either is
    /// out of range.
    pub fn new(x: i32, y: i32) -> (r: Result<Vector2, NumericError>)
        ensures
            (Number::int_in_range(x as int) && Number::int_in_range(y as int)) ==> r
                == Ok::<Vector2, NumericError>(
                Vector2 { x: Number { bits: (16 * x) as i32 }, y: Number { bits: (16 * y) as i32 } },
            ),
            !(Number::int_in_range(x as int) && Number::int_in_range(y as int)) ==> r
                == Err::<Vector2, NumericError>(NumericError::OutOfRange),
    {
        let nx = Number::from_int(x)?;
        let ny = Number::from_int(y)?;
        Ok(Vector2 { x: nx, y: ny })
    }

    pub fn add(self, rhs: Vector2) -> (r: Vector2)
        ensures
            r.x.bits == saturate(self.x.bits + rhs.x.bits),
            r.y.bits == saturate(self.y.bits + rhs.y.bits),
    {
        Vector2 { x: self.x.add(rhs.x), y: self.y.add(rhs.y) }
    }

    pub fn sub(self, rhs: Vector2) -> (r: Vector2)
        ensures
            r.x.bits == saturate(self.x.bits - rhs.x.bits),
            r.y.bits == saturate(self.y.bits - rhs.y.bits),
    {
        Vector2 { x: self.x.sub(rhs.x), y: self.y.sub(rhs.y) }
    }

    /// Both components multiplied by `k`.
    pub fn scale(self, k: Number) -> (r: Vector2)
        ensures
            r.x.bits == saturate(mul_bits(self.x.bits as int, k.bits as int)),
            r.y.bits == saturate(mul_bits(self.y.bits as int, k.bits as int)),
    {
        Vector2 { x: self.x.mul(k), y: self.y.mul(k) }
    }
}

} // verus!
