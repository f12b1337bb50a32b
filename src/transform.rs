//! Per-entity spatial transform, kept apart from the presentation transform.
use crate::number::Number;
use crate::vector2::Vector2;
use vstd::prelude::*;

verus! {

#[derive(Clone, Copy, Debug, PartialEq, Eq, Structural)]
pub struct Transform2 {
    pub pos: Vector2,
    pub scale: Vector2,
    pub rotation: Number,
}

impl Transform2 {
    /// Position, scale and rotation all zero.
    pub open spec fn is_zero(self) -> bool {
        self.pos.x.bits == 0 && self.pos.y.bits == 0 && self.scale.x.bits == 0
            && self.scale.y.bits == 0 && self.rotation.bits == 0
    }

    pub fn zero() -> (r: Transform2)
        ensures
            r.is_zero(),
    {
        Transform2 { pos: Vector2::zero(), scale: Vector2::zero(), rotation: Number::zero() }
    }

    pub fn from_pos(pos: Vector2) -> (r: Transform2)
        ensures
            r.pos == pos,
            r.scale.x.bits == 0 && r.scale.y.bits == 0 && r.rotation.bits == 0,
    {
        Transform2 { pos, ..Transform2::zero() }
    }

    pub fn from_scale(scale: Vector2) -> (r: Transform2)
        ensures
            r.scale == scale,
            r.pos.x.bits == 0 && r.pos.y.bits == 0 && r.rotation.bits == 0,
    {
        Transform2 { scale, ..Transform2::zero() }
    }

    pub fn from_rotation(rotation: Number) -> (r: Transform2)
        ensures
            r.rotation == rotation,
            r.pos.x.bits == 0 && r.pos.y.bits == 0,
            r.scale.x.bits == 0 && r.scale.y.bits == 0,
    {
        Transform2 { rotation, ..Transform2::zero() }
    }
}

impl Default for Transform2 {
    fn default() -> (r: Transform2)
        ensures
            r.is_zero(),
    {
        Transform2::zero()
    }
}

/// What the renderer reads of an entity: raw bits of its position and
/// rotation.
#[derive(Clone, Copy, Debug, PartialEq, Eq, Structural)]
pub struct PresentationTransform {
    pub entity: u64,
    pub x: Number,
    pub y: Number,
    pub rotation: Number,
}

} // verus!
