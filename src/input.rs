//! Fixed-width per-player input record and its effect on velocity.
use crate::number::Number;
use crate::vector2::Vector2;
use vstd::prelude::*;

verus! {

pub const INPUT_UP: u8 = 1;

pub const INPUT_DOWN: u8 = 2;

pub const INPUT_LEFT: u8 = 4;

pub const INPUT_RIGHT: u8 = 8;

/// Raw units of speed that one pressed direction contributes (two whole
/// units per tick).
pub const MOVE_SPEED_BITS: i32 = 32;

/// One player's input for one tick: bit 0 up, bit 1 down, bit 2 left,
/// bit 3 right.
#[derive(Clone, Copy, Debug, PartialEq, Eq, Structural, Hash)]
pub struct GameInput {
    pub mask: u8,
}

pub open spec fn pressed(mask: u8, bit: u8) -> bool {
    mask & bit != 0
}

/// Contribution of one pair of opposite directions to a velocity component.
pub open spec fn axis_speed(positive: bool, negative: bool) -> int {
    (if positive {
        MOVE_SPEED_BITS as int
    } else {
        0
    }) - (if negative {
        MOVE_SPEED_BITS as int
    } else {
        0
    })
}

impl GameInput {
    pub open spec fn velocity_x(self) -> int {
        axis_speed(pressed(self.mask, INPUT_RIGHT), pressed(self.mask, INPUT_LEFT))
    }

    pub open spec fn velocity_y(self) -> int {
        axis_speed(pressed(self.mask, INPUT_UP), pressed(self.mask, INPUT_DOWN))
    }

    pub fn empty() -> (r: GameInput)
        ensures
            r.mask == 0,
    {
        GameInput { mask: 0 }
    }

    /// The velocity that this input gives a player's body.
    pub fn velocity(self) -> (r: Vector2)
        ensures
            r.x.bits == self.velocity_x(),
            r.y.bits == self.velocity_y(),
    {
        let mut vx: i32 = 0;
        let mut vy: i32 = 0;
        if self.mask & INPUT_UP != 0 {
            vy = vy + MOVE_SPEED_BITS;
        }
        if self.mask & INPUT_DOWN != 0 {
            vy = vy - MOVE_SPEED_BITS;
        }
        if self.mask & INPUT_LEFT != 0 {
            vx = vx - MOVE_SPEED_BITS;
        }
        if self.mask & INPUT_RIGHT != 0 {
            vx = vx + MOVE_SPEED_BITS;
        }
        Vector2 { x: Number::from_bits(vx), y: Number::from_bits(vy) }
    }
}

/// Packs the four key states of one frame.
pub fn game_input_system(up: bool, down: bool, left: bool, right: bool) -> (r: GameInput)
    ensures
        pressed(r.mask, INPUT_UP) == up,
        pressed(r.mask, INPUT_DOWN) == down,
        pressed(r.mask, INPUT_LEFT) == left,
        pressed(r.mask, INPUT_RIGHT) == right,
        r.mask < 16,
{
    let a: u8 = if up { INPUT_UP } else { 0 };
    let b: u8 = if down { INPUT_DOWN } else { 0 };
    let c: u8 = if left { INPUT_LEFT } else { 0 };
    let d: u8 = if right { INPUT_RIGHT } else { 0 };
    let mask: u8 = a | b | c | d;
    assert(a == 0 || a == 1u8);
    assert(((a | b | c | d) & 1u8 != 0) == (a == 1u8) && ((a | b | c | d) & 2u8 != 0) == (b == 2u8)
        && ((a | b | c | d) & 4u8 != 0) == (c == 4u8) && ((a | b | c | d) & 8u8 != 0) == (d == 8u8)
        && (a | b | c | d) < 16u8) by (bit_vector)
        requires
            a == 0 || a == 1u8,
            b == 0 || b == 2u8,
            c == 0 || c == 4u8,
            d == 0 || d == 8u8,
    ;
    GameInput { mask }
}

} // verus!
