//! Deterministic fixed-point physics world of axis-aligned box bodies.
use crate::number::{abs, mul_bits, saturate, Number};
use crate::transform::Transform2;
use crate::vector2::Vector2;
use vstd::prelude::*;

verus! {

/// Collision participation of a body: `size` holds the half extents of its
/// box; two bodies collide when each one's `layer` meets the other's
/// `layer_mask`.
#[derive(Clone, Copy, Debug, PartialEq, Eq, Structural)]
pub struct PhysicsCollider {
    pub size: Vector2,
    pub layer: u32,
    pub layer_mask: u32,
}

#[derive(Clone, Copy, Debug, PartialEq, Eq, Structural)]
pub enum BodyKind {
    Static,
    Kinematic,
}

#[derive(Clone, Copy, Debug, PartialEq, Eq, Structural, Hash)]
pub struct PhysicsHandle {
    pub id: u64,
}

#[derive(Clone, Copy, Debug, PartialEq, Eq, Structural)]
pub struct RigidBody {
    pub entity: u64,
    pub handle: PhysicsHandle,
    pub kind: BodyKind,
    pub pos: Vector2,
    pub rotation: Number,
    /// Half extents of the box, never negative.
    pub half: Vector2,
    pub layer: u32,
    pub layer_mask: u32,
    pub velocity: Vector2,
    pub is_on_wall: bool,
    pub is_on_floor: bool,
    pub is_on_ceiling: bool,
}

/// Length of the fixed timestep that one step integrates over.
#[derive(Clone, Copy, Debug, PartialEq, Eq, Structural)]
pub struct IntegrationParameters {
    pub dt: Number,
}

/// The physics world. Bodies are kept in order of registration, which fixes
/// the order in which a step moves them.
#[derive(Debug, PartialEq, Eq)]
pub struct PhysicsWorld {
    pub bodies: Vec<RigidBody>,
    pub next_handle: u64,
    /// Kept with the world's state; static and kinematic bodies, the only
    /// kinds there are, do not fall.
    pub gravity: Vector2,
    pub params: IntegrationParameters,
}

/// Non-negative half extent for a collider size component.
pub open spec fn half_extent(size: int) -> int {
    if size < 0 {
        saturate(-size)
    } else {
        size
    }
}

pub open spec fn coord(b: RigidBody, axis_x: bool) -> int {
    if axis_x {
        b.pos.x.bits as int
    } else {
        b.pos.y.bits as int
    }
}

pub open spec fn extent(b: RigidBody, axis_x: bool) -> int {
    if axis_x {
        b.half.x.bits as int
    } else {
        b.half.y.bits as int
    }
}

/// The projections of the two boxes on the axis share an open interval.
pub open spec fn overlap_on(a: RigidBody, b: RigidBody, axis_x: bool) -> bool {
    abs(coord(a, axis_x) - coord(b, axis_x)) < extent(a, axis_x) + extent(b, axis_x)
}

/// The two boxes share interior points (touching is no overlap).
pub open spec fn overlaps(a: RigidBody, b: RigidBody) -> bool {
    overlap_on(a, b, true) && overlap_on(a, b, false)
}

pub open spec fn interacts(a: RigidBody, b: RigidBody) -> bool {
    a.layer & b.layer_mask != 0 && b.layer & a.layer_mask != 0
}

/// `o` lies ahead of `m` on the axis, in the direction of travel.
pub open spec fn ahead(m: RigidBody, o: RigidBody, axis_x: bool, forward: bool) -> bool {
    if forward {
        coord(o, axis_x) - extent(o, axis_x) >= coord(m, axis_x) + extent(m, axis_x)
    } else {
        coord(o, axis_x) + extent(o, axis_x) <= coord(m, axis_x) - extent(m, axis_x)
    }
}

/// Distance `m` can travel toward `o` before touching it.
pub open spec fn gap(m: RigidBody, o: RigidBody, axis_x: bool, forward: bool) -> int {
    if forward {
        (coord(o, axis_x) - extent(o, axis_x)) - (coord(m, axis_x) + extent(m, axis_x))
    } else {
        (coord(m, axis_x) - extent(m, axis_x)) - (coord(o, axis_x) + extent(o, axis_x))
    }
}

/// `o` stands in the way of `m` moving along the axis.
pub open spec fn blocks(m: RigidBody, o: RigidBody, axis_x: bool, forward: bool) -> bool {
    interacts(m, o) && overlap_on(m, o, !axis_x) && ahead(m, o, axis_x, forward)
}

pub open spec fn min_int(a: int, b: int) -> int {
    if a <= b {
        a
    } else {
        b
    }
}

pub open spec fn max_int(a: int, b: int) -> int {
    if a >= b {
        a
    } else {
        b
    }
}

/// Signed distance that body `i` travels along the axis when it asks for
/// `d`, taking the bodies before index `k` into account: it stops at the
/// first blocking surface and at the end of the coordinate range.
pub open spec fn travel(s: Seq<RigidBody>, i: int, axis_x: bool, d: int, k: int) -> int
    decreases k,
{
    if k <= 0 {
        if d > 0 {
            min_int(d, i32::MAX - coord(s[i], axis_x))
        } else {
            max_int(d, i32::MIN - coord(s[i], axis_x))
        }
    } else {
        let t = travel(s, i, axis_x, d, k - 1);
        let j = k - 1;
        if j != i && d != 0 && blocks(s[i], s[j], axis_x, d > 0) {
            if d > 0 {
                min_int(t, gap(s[i], s[j], axis_x, true))
            } else {
                max_int(t, -gap(s[i], s[j], axis_x, false))
            }
        } else {
            t
        }
    }
}

pub open spec fn with_coord(b: RigidBody, axis_x: bool, v: int) -> RigidBody {
    if axis_x {
        RigidBody { pos: Vector2 { x: Number { bits: v as i32 }, ..b.pos }, ..b }
    } else {
        RigidBody { pos: Vector2 { y: Number { bits: v as i32 }, ..b.pos }, ..b }
    }
}

/// Body `i` moved along one axis as far as `travel` allows.
pub open spec fn move_axis(s: Seq<RigidBody>, i: int, axis_x: bool, d: int) -> Seq<RigidBody> {
    let t = travel(s, i, axis_x, d, s.len() as int);
    s.update(i, with_coord(s[i], axis_x, coord(s[i], axis_x) + t))
}

/// Requested displacement of a body over one timestep.
pub open spec fn displacement(v: Number, dt: Number) -> int {
    saturate(mul_bits(v.bits as int, dt.bits as int))
}

/// Body `i` after its move: first along x, then along y; the contact flags
/// record which moves were cut short.
pub open spec fn move_body(s: Seq<RigidBody>, i: int, dt: Number) -> Seq<RigidBody> {
    let b = s[i];
    if b.kind == BodyKind::Static {
        s
    } else {
        let dx = displacement(b.velocity.x, dt);
        let dy = displacement(b.velocity.y, dt);
        let tx = travel(s, i, true, dx, s.len() as int);
        let s1 = move_axis(s, i, true, dx);
        let ty = travel(s1, i, false, dy, s1.len() as int);
        let s2 = move_axis(s1, i, false, dy);
        s2.update(
            i,
            RigidBody {
                is_on_wall: tx != dx,
                is_on_floor: dy < 0 && ty != dy,
                is_on_ceiling: dy > 0 && ty != dy,
                ..s2[i]
            },
        )
    }
}

/// The bodies before index `k` moved, in order.
pub open spec fn step_bodies(s: Seq<RigidBody>, dt: Number, k: int) -> Seq<RigidBody>
    decreases k,
{
    if k <= 0 {
        s
    } else {
        move_body(step_bodies(s, dt, k - 1), k - 1, dt)
    }
}

pub open spec fn has_entity(s: Seq<RigidBody>, e: u64) -> bool {
    exists|k: int| 0 <= k < s.len() && s[k].entity == e
}

/// `s` without the body of entity `e`, if it has one.
pub open spec fn without(s: Seq<RigidBody>, e: u64) -> Seq<RigidBody> {
    if has_entity(s, e) {
        s.remove(choose|k: int| 0 <= k < s.len() && s[k].entity == e)
    } else {
        s
    }
}

/// The body with handle `h`, if there is one.
pub open spec fn body_with_handle(s: Seq<RigidBody>, h: PhysicsHandle) -> Option<RigidBody> {
    if exists|k: int| 0 <= k < s.len() && s[k].handle == h {
        Some(s[choose|k: int| 0 <= k < s.len() && s[k].handle == h])
    } else {
        None
    }
}

/// `s` with the velocity of the body of entity `e` set to `v`.
pub open spec fn with_velocity(s: Seq<RigidBody>, e: u64, v: Vector2) -> Seq<RigidBody> {
    Seq::new(
        s.len(),
        |k: int|
            if s[k].entity == e {
                RigidBody { velocity: v, ..s[k] }
            } else {
                s[k]
            },
    )
}

pub open spec fn bodies_wf(s: Seq<RigidBody>, next_handle: u64) -> bool {
    &&& extents_ok(s)
    &&& forall|k: int| 0 <= k < s.len() ==> s[k].handle.id < next_handle
    &&& forall|a: int, b: int|
        0 <= a < s.len() && 0 <= b < s.len() && a != b ==> s[a].entity != s[b].entity
            && s[a].handle != s[b].handle
}

/// Body built for a newly registered entity.
pub open spec fn new_body(
    entity: u64,
    handle: u64,
    collider: PhysicsCollider,
    kind: BodyKind,
    t: Transform2,
) -> RigidBody {
    RigidBody {
        entity,
        handle: PhysicsHandle { id: handle },
        kind,
        pos: t.pos,
        rotation: t.rotation,
        half: Vector2 {
            x: Number { bits: half_extent(collider.size.x.bits as int) as i32 },
            y: Number { bits: half_extent(collider.size.y.bits as int) as i32 },
        },
        layer: collider.layer,
        layer_mask: collider.layer_mask,
        velocity: Vector2 { x: Number { bits: 0 }, y: Number { bits: 0 } },
        is_on_wall: false,
        is_on_floor: false,
        is_on_ceiling: false,
    }
}

/// Handle that `register` returns for `entity`.
pub open spec fn registered_handle(s: Seq<RigidBody>, next_handle: u64, entity: u64) -> Option<
    PhysicsHandle,
> {
    if has_entity(s, entity) {
        Some(s[choose|k: int| 0 <= k < s.len() && s[k].entity == entity].handle)
    } else if next_handle < u64::MAX {
        Some(PhysicsHandle { id: next_handle })
    } else {
        None
    }
}

/// Bodies after `register` for `entity`.
pub open spec fn registered_bodies(
    s: Seq<RigidBody>,
    next_handle: u64,
    entity: u64,
    collider: PhysicsCollider,
    kind: BodyKind,
    t: Transform2,
) -> Seq<RigidBody> {
    if !has_entity(s, entity) && next_handle < u64::MAX {
        s.push(new_body(entity, next_handle, collider, kind, t))
    } else {
        s
    }
}

fn half_extent_of(size: Number) -> (r: Number)
    ensures
        r.bits == half_extent(size.bits as int),
{
    if size.bits < 0 {
        size.neg()
    } else {
        size
    }
}

fn coord_of(b: &RigidBody, axis_x: bool) -> (r: i64)
    ensures
        r == coord(*b, axis_x),
{
    if axis_x {
        b.pos.x.bits as i64
    } else {
        b.pos.y.bits as i64
    }
}

fn extent_of(b: &RigidBody, axis_x: bool) -> (r: i64)
    ensures
        r == extent(*b, axis_x),
{
    if axis_x {
        b.half.x.bits as i64
    } else {
        b.half.y.bits as i64
    }
}

fn overlap_on_exec(a: &RigidBody, b: &RigidBody, axis_x: bool) -> (r: bool)
    ensures
        r == overlap_on(*a, *b, axis_x),
{
    let d = coord_of(a, axis_x) - coord_of(b, axis_x);
    let ad = if d < 0 {
        -d
    } else {
        d
    };
    ad < extent_of(a, axis_x) + extent_of(b, axis_x)
}

fn blocks_exec(m: &RigidBody, o: &RigidBody, axis_x: bool, forward: bool) -> (r: bool)
    ensures
        r == blocks(*m, *o, axis_x, forward),
{
    if m.layer & o.layer_mask == 0 || o.layer & m.layer_mask == 0 {
        return false;
    }
    if !overlap_on_exec(m, o, !axis_x) {
        return false;
    }
    if forward {
        coord_of(o, axis_x) - extent_of(o, axis_x) >= coord_of(m, axis_x) + extent_of(m, axis_x)
    } else {
        coord_of(o, axis_x) + extent_of(o, axis_x) <= coord_of(m, axis_x) - extent_of(m, axis_x)
    }
}

fn gap_exec(m: &RigidBody, o: &RigidBody, axis_x: bool, forward: bool) -> (r: i64)
    ensures
        r == gap(*m, *o, axis_x, forward),
{
    if forward {
        (coord_of(o, axis_x) - extent_of(o, axis_x)) - (coord_of(m, axis_x) + extent_of(m, axis_x))
    } else {
        (coord_of(m, axis_x) - extent_of(m, axis_x)) - (coord_of(o, axis_x) + extent_of(o, axis_x))
    }
}

/// Distance body `i` may travel along the axis when it asks for `d`.
fn travel_exec(s: &Vec<RigidBody>, i: usize, axis_x: bool, d: i64) -> (t: i64)
    requires
        i < s@.len(),
        extents_ok(s@),
        i32::MIN <= d <= i32::MAX,
    ensures
        t == travel(s@, i as int, axis_x, d as int, s@.len() as int),
        d >= 0 ==> 0 <= t <= d,
        d <= 0 ==> d <= t <= 0,
        i32::MIN <= coord(s@[i as int], axis_x) + t <= i32::MAX,
{
    let c = coord_of(&s[i], axis_x);
    let mut t: i64 = if d > 0 {
        if d <= i32::MAX as i64 - c {
            d
        } else {
            i32::MAX as i64 - c
        }
    } else {
        if d >= i32::MIN as i64 - c {
            d
        } else {
            i32::MIN as i64 - c
        }
    };
    let mut j: usize = 0;
    while j < s.len()
        invariant
            i < s@.len(),
            j <= s@.len(),
            extents_ok(s@),
            i32::MIN <= d <= i32::MAX,
            c == coord(s@[i as int], axis_x),
            t == travel(s@, i as int, axis_x, d as int, j as int),
            d >= 0 ==> 0 <= t <= d,
            d <= 0 ==> d <= t <= 0,
            i32::MIN <= c + t <= i32::MAX,
        decreases s@.len() - j,
    {
        if j != i && d != 0 && blocks_exec(&s[i], &s[j], axis_x, d > 0) {
            let g = gap_exec(&s[i], &s[j], axis_x, d > 0);
            if d > 0 {
                if g < t {
                    t = g;
                }
            } else {
                if -g > t {
                    t = -g;
                }
            }
        }
        j = j + 1;
    }
    t
}

fn set_coord(b: RigidBody, axis_x: bool, v: i64) -> (r: RigidBody)
    requires
        i32::MIN <= v <= i32::MAX,
    ensures
        r == with_coord(b, axis_x, v as int),
{
    if axis_x {
        RigidBody { pos: Vector2 { x: Number::from_bits(v as i32), ..b.pos }, ..b }
    } else {
        RigidBody { pos: Vector2 { y: Number::from_bits(v as i32), ..b.pos }, ..b }
    }
}

/// Removing an entity's body a second time changes nothing, and neither does
/// removing an entity that never had one.
pub proof fn lemma_remove_idempotent(s: Seq<RigidBody>, next_handle: u64, e: u64)
    requires
        bodies_wf(s, next_handle),
    ensures
        without(without(s, e), e) == without(s, e),
        !has_entity(s, e) ==> without(s, e) == s,
{
    if has_entity(s, e) {
        let k = choose|k: int| 0 <= k < s.len() && s[k].entity == e;
        let r = s.remove(k);
        assert forall|j: int| 0 <= j < r.len() implies r[j].entity != e by {
            if j < k {
                assert(r[j] == s[j]);
            } else {
                assert(r[j] == s[j + 1]);
            }
        }
    }
}

/// Extents never negative.
pub open spec fn extents_ok(s: Seq<RigidBody>) -> bool {
    forall|k: int| 0 <= k < s.len() ==> s[k].half.x.bits >= 0 && s[k].half.y.bits >= 0
}

/// `r` has the boxes and layers of `s`, and no two interacting bodies apart
/// in `s` overlap in `r`.
pub open spec fn keeps_apart(s: Seq<RigidBody>, r: Seq<RigidBody>) -> bool {
    &&& r.len() == s.len()
    &&& forall|k: int|
        0 <= k < s.len() ==> r[k].half == s[k].half && r[k].layer == s[k].layer
            && r[k].layer_mask == s[k].layer_mask
    &&& forall|a: int, b: int|
        0 <= a < s.len() && 0 <= b < s.len() && a != b && interacts(s[a], s[b]) && !overlaps(
            s[a],
            s[b],
        ) ==> !overlaps(r[a], r[b])
}

proof fn lemma_travel(s: Seq<RigidBody>, i: int, axis_x: bool, d: int, k: int)
    requires
        0 <= i < s.len(),
        k <= s.len(),
    ensures
        d > 0 ==> 0 <= travel(s, i, axis_x, d, k) <= d,
        d < 0 ==> d <= travel(s, i, axis_x, d, k) <= 0,
        d == 0 ==> travel(s, i, axis_x, d, k) == 0,
        i32::MIN <= coord(s[i], axis_x) + travel(s, i, axis_x, d, k) <= i32::MAX,
        forall|j: int|
            0 <= j < k && j != i && d > 0 && blocks(s[i], s[j], axis_x, true) ==> travel(
                s,
                i,
                axis_x,
                d,
                k,
            ) <= gap(s[i], s[j], axis_x, true),
        forall|j: int|
            0 <= j < k && j != i && d < 0 && blocks(s[i], s[j], axis_x, false) ==> travel(
                s,
                i,
                axis_x,
                d,
                k,
            ) >= -gap(s[i], s[j], axis_x, false),
    decreases k,
{
    if k > 0 {
        lemma_travel(s, i, axis_x, d, k - 1);
    }
}

proof fn lemma_move_axis(s: Seq<RigidBody>, i: int, axis_x: bool, d: int)
    requires
        0 <= i < s.len(),
        extents_ok(s),
    ensures
        keeps_apart(s, move_axis(s, i, axis_x, d)),
        extents_ok(move_axis(s, i, axis_x, d)),
        coord(move_axis(s, i, axis_x, d)[i], !axis_x) == coord(s[i], !axis_x),
{
    let n = s.len() as int;
    lemma_travel(s, i, axis_x, d, n);
    let t = travel(s, i, axis_x, d, n);
    let r = move_axis(s, i, axis_x, d);
    assert(coord(r[i], axis_x) == coord(s[i], axis_x) + t);
    assert forall|a: int, b: int|
        0 <= a < n && 0 <= b < n && a != b && interacts(s[a], s[b]) && !overlaps(
            s[a],
            s[b],
        ) implies !overlaps(r[a], r[b]) by {
        if a == i || b == i {
            let j = if a == i {
                b
            } else {
                a
            };
            assert(interacts(s[i], s[j]));
            assert(!overlaps(s[i], s[j]));
            if overlap_on(s[i], s[j], !axis_x) {
                if coord(s[j], axis_x) >= coord(s[i], axis_x) {
                    assert(ahead(s[i], s[j], axis_x, true));
                    if d > 0 {
                        assert(blocks(s[i], s[j], axis_x, true));
                    }
                } else {
                    assert(ahead(s[i], s[j], axis_x, false));
                    if d < 0 {
                        assert(blocks(s[i], s[j], axis_x, false));
                    }
                }
                assert(!overlap_on(r[i], r[j], axis_x));
            } else {
                assert(!overlap_on(r[i], r[j], !axis_x));
            }
        } else {
            assert(r[a] == s[a] && r[b] == s[b]);
        }
    }
}

proof fn lemma_move_body(s: Seq<RigidBody>, i: int, dt: Number)
    requires
        0 <= i < s.len(),
        extents_ok(s),
    ensures
        keeps_apart(s, move_body(s, i, dt)),
        extents_ok(move_body(s, i, dt)),
{
    let b = s[i];
    if b.kind != BodyKind::Static {
        let dx = displacement(b.velocity.x, dt);
        let dy = displacement(b.velocity.y, dt);
        let s1 = move_axis(s, i, true, dx);
        lemma_move_axis(s, i, true, dx);
        lemma_move_axis(s1, i, false, dy);
        let s2 = move_axis(s1, i, false, dy);
        let r = move_body(s, i, dt);
        assert forall|a: int, c: int|
            0 <= a < s.len() && 0 <= c < s.len() && a != c && interacts(s[a], s[c])
                && !overlaps(s[a], s[c]) implies !overlaps(r[a], r[c]) by {
            assert(interacts(s1[a], s1[c]));
            assert(!overlaps(s2[a], s2[c]));
            assert(r[a].pos == s2[a].pos && r[c].pos == s2[c].pos);
        }
    }
}

proof fn lemma_step_keeps_apart(s: Seq<RigidBody>, dt: Number, k: int)
    requires
        extents_ok(s),
        k <= s.len(),
    ensures
        keeps_apart(s, step_bodies(s, dt, k)),
        extents_ok(step_bodies(s, dt, k)),
    decreases k,
{
    if k > 0 {
        lemma_step_keeps_apart(s, dt, k - 1);
        let p = step_bodies(s, dt, k - 1);
        lemma_move_body(p, k - 1, dt);
        let r = step_bodies(s, dt, k);
        assert forall|a: int, c: int|
            0 <= a < s.len() && 0 <= c < s.len() && a != c && interacts(s[a], s[c])
                && !overlaps(s[a], s[c]) implies !overlaps(r[a], r[c]) by {
            assert(!overlaps(p[a], p[c]));
            assert(interacts(p[a], p[c]));
        }
    }
}

/// A step never pushes a body into another one that it collides with: two
/// interacting bodies that did not overlap before the step do not overlap
/// after it, and every box keeps its size.
pub proof fn lemma_step_no_new_overlap(s: Seq<RigidBody>, next_handle: u64, dt: Number)
    requires
        bodies_wf(s, next_handle),
    ensures
        keeps_apart(s, step_bodies(s, dt, s.len() as int)),
{
    lemma_step_keeps_apart(s, dt, s.len() as int);
}

impl PhysicsWorld {
    pub open spec fn wf(&self) -> bool {
        bodies_wf(self.bodies@, self.next_handle)
    }

    /// An empty world with gravity pointing down and a timestep of one.
    pub fn new() -> (r: PhysicsWorld)
        ensures
            r.wf(),
            r.bodies@.len() == 0,
            r.next_handle == 0,
            r.params.dt.bits == 16,
            r.gravity.x.bits == 0 && r.gravity.y.bits == -157,
    {
        PhysicsWorld {
            bodies: Vec::new(),
            next_handle: 0,
            gravity: Vector2 { x: Number::zero(), y: Number::from_bits(-157) },
            params: IntegrationParameters { dt: Number::one() },
        }
    }

    /// A deep copy of the world.
    pub fn copy(&self) -> (r: PhysicsWorld)
        ensures
            r.bodies@ == self.bodies@,
            r.next_handle == self.next_handle,
            r.gravity == self.gravity,
            r.params == self.params,
    {
        let bodies = self.bodies.clone();
        assert(bodies@ =~= self.bodies@);
        PhysicsWorld { bodies, next_handle: self.next_handle, gravity: self.gravity, params: self.params }
    }

    /// Index of the body of `entity`, if it has one.
    fn find(&self, entity: u64) -> (r: Option<usize>)
        ensures
            match r {
                Some(k) => k < self.bodies@.len() && self.bodies@[k as int].entity == entity,
                None => !has_entity(self.bodies@, entity),
            },
    {
        let mut k: usize = 0;
        while k < self.bodies.len()
            invariant
                k <= self.bodies@.len(),
                forall|j: int| 0 <= j < k ==> self.bodies@[j].entity != entity,
            decreases self.bodies@.len() - k,
        {
            if self.bodies[k].entity == entity {
                return Some(k);
            }
            k = k + 1;
        }
        None
    }

    /// Adds a body for `entity` and returns its handle. An entity that
    /// already has a body keeps it, and its handle is returned. `None` when
    /// every handle has been given out.
    pub fn register(
        &mut self,
        entity: u64,
        collider: PhysicsCollider,
        kind: BodyKind,
        initial: Transform2,
    ) -> (r: Option<PhysicsHandle>)
        requires
            old(self).wf(),
        ensures
            final(self).wf(),
            r == registered_handle(old(self).bodies@, old(self).next_handle, entity),
            final(self).bodies@ == registered_bodies(
                old(self).bodies@,
                old(self).next_handle,
                entity,
                collider,
                kind,
                initial,
            ),
            final(self).next_handle == (if !has_entity(old(self).bodies@, entity)
                && old(self).next_handle < u64::MAX {
                (old(self).next_handle + 1) as u64
            } else {
                old(self).next_handle
            }),
            final(self).gravity == old(self).gravity,
            final(self).params == old(self).params,
    {
        match self.find(entity) {
            Some(k) => {
                proof {
                    let c = choose|j: int|
                        0 <= j < self.bodies@.len() && self.bodies@[j].entity == entity;
                    assert(c == k);
                }
                Some(self.bodies[k].handle)
            },
            None => {
                if self.next_handle == u64::MAX {
                    return None;
                }
                let handle = PhysicsHandle { id: self.next_handle };
                let body = RigidBody {
                    entity,
                    handle,
                    kind,
                    pos: initial.pos,
                    rotation: initial.rotation,
                    half: Vector2 {
                        x: half_extent_of(collider.size.x),
                        y: half_extent_of(collider.size.y),
                    },
                    layer: collider.layer,
                    layer_mask: collider.layer_mask,
                    velocity: Vector2::zero(),
                    is_on_wall: false,
                    is_on_floor: false,
                    is_on_ceiling: false,
                };
                self.bodies.push(body);
                self.next_handle = self.next_handle + 1;
                Some(handle)
            },
        }
    }

    /// Removes the body of `entity`; an entity without one is left alone.
    pub fn remove(&mut self, entity: u64)
        requires
            old(self).wf(),
        ensures
            final(self).wf(),
            final(self).bodies@ == without(old(self).bodies@, entity),
            final(self).next_handle == old(self).next_handle,
            final(self).gravity == old(self).gravity,
            final(self).params == old(self).params,
    {
        match self.find(entity) {
            Some(k) => {
                proof {
                    let c = choose|j: int|
                        0 <= j < self.bodies@.len() && self.bodies@[j].entity == entity;
                    assert(c == k);
                }
                self.bodies.remove(k);
            },
            None => {},
        }
    }

    /// Sets the velocity of the body of `entity`, if it has one.
    pub fn set_velocity(&mut self, entity: u64, velocity: Vector2)
        requires
            old(self).wf(),
        ensures
            final(self).wf(),
            final(self).next_handle == old(self).next_handle,
            final(self).gravity == old(self).gravity,
            final(self).params == old(self).params,
            final(self).bodies@ == with_velocity(old(self).bodies@, entity, velocity),
    {
        match self.find(entity) {
            Some(k) => {
                let b = self.bodies[k];
                self.bodies.set(k, RigidBody { velocity, ..b });
                assert(self.bodies@ =~= with_velocity(old(self).bodies@, entity, velocity));
            },
            None => {
                assert(self.bodies@ =~= with_velocity(old(self).bodies@, entity, velocity));
            },
        }
    }

    /// The body with handle `h`, if it exists.
    pub fn body(&self, h: PhysicsHandle) -> (r: Option<RigidBody>)
        requires
            self.wf(),
        ensures
            r == body_with_handle(self.bodies@, h),
    {
        let mut k: usize = 0;
        while k < self.bodies.len()
            invariant
                k <= self.bodies@.len(),
                forall|j: int| 0 <= j < k ==> self.bodies@[j].handle != h,
                self.wf(),
            decreases self.bodies@.len() - k,
        {
            if self.bodies[k].handle == h {
                proof {
                    assert(self.bodies@[k as int].handle == h);
                    let c = choose|j: int| 0 <= j < self.bodies@.len() && self.bodies@[j].handle == h;
                    assert(c != k ==> self.bodies@[c].handle != self.bodies@[k as int].handle);
                }
                return Some(self.bodies[k]);
            }
            k = k + 1;
        }
        None
    }

    /// Position and rotation of the body with handle `h`, if it exists.
    pub fn resolved_transform(&self, h: PhysicsHandle) -> (r: Option<(Vector2, Number)>)
        requires
            self.wf(),
        ensures
            r == (match body_with_handle(self.bodies@, h) {
                Some(b) => Some((b.pos, b.rotation)),
                None => None,
            }),
    {
        match self.body(h) {
            Some(b) => Some((b.pos, b.rotation)),
            None => None,
        }
    }

    /// Advances the world by one timestep: every kinematic body, in order of
    /// registration, moves by its velocity times the timestep, along x and
    /// then along y, stopping at the surface of any body it collides with.
    pub fn step(&mut self)
        requires
            old(self).wf(),
        ensures
            final(self).wf(),
            final(self).bodies@ == step_bodies(
                old(self).bodies@,
                old(self).params.dt,
                old(self).bodies@.len() as int,
            ),
            final(self).next_handle == old(self).next_handle,
            final(self).gravity == old(self).gravity,
            final(self).params == old(self).params,
    {
        let dt = self.params.dt;
        let n = self.bodies.len();
        let mut i: usize = 0;
        while i < n
            invariant
                n == old(self).bodies@.len(),
                i <= n,
                dt == old(self).params.dt,
                self.bodies@.len() == n,
                self.next_handle == old(self).next_handle,
                self.gravity == old(self).gravity,
                self.params == old(self).params,
                self.wf(),
                forall|k: int| 0 <= k < n ==> (#[trigger] self.bodies@[k]).entity == old(self).bodies@[k].entity
                    && self.bodies@[k].handle == old(self).bodies@[k].handle
                    && self.bodies@[k].half == old(self).bodies@[k].half,
                self.bodies@ == step_bodies(old(self).bodies@, dt, i as int),
            decreases n - i,
        {
            let b = self.bodies[i];
            if b.kind == BodyKind::Kinematic {
                let dx = b.velocity.x.mul(dt).bits as i64;
                let dy = b.velocity.y.mul(dt).bits as i64;
                let tx = travel_exec(&self.bodies, i, true, dx);
                let b1 = set_coord(b, true, b.pos.x.bits as i64 + tx);
                self.bodies.set(i, b1);
                let ty = travel_exec(&self.bodies, i, false, dy);
                let b2 = set_coord(b1, false, b1.pos.y.bits as i64 + ty);
                self.bodies.set(
                    i,
                    RigidBody {
                        is_on_wall: tx != dx,
                        is_on_floor: dy < 0 && ty != dy,
                        is_on_ceiling: dy > 0 && ty != dy,
                        ..b2
                    },
                );
            }
            i = i + 1;
        }
    }
}

} // verus!
