use vstd::prelude::*;

verus! {

/// Micro-units in one world unit.
pub const UNIT: i64 = 1_000_000;

/// The world extends over `[-WORLD_LIMIT, WORLD_LIMIT]` on every axis.
pub const WORLD_LIMIT: i64 = 0x1000_0000_0000_0000;

/// Largest magnitude of a velocity or acceleration component.
pub const SPEED_LIMIT: i64 = 0x100_0000_0000;

/// Largest collision radius.
pub const RADIUS_LIMIT: u64 = 0x1000_0000_0000_0000;

/// A point or a vector in world space.
#[derive(Clone, Copy, Debug, PartialEq, Eq, Structural)]
pub struct Vec3 {
    pub x: i64,
    pub y: i64,
    pub z: i64,
}

pub open spec fn in_world(p: Vec3) -> bool {
    &&& -WORLD_LIMIT <= p.x <= WORLD_LIMIT
    &&& -WORLD_LIMIT <= p.y <= WORLD_LIMIT
    &&& -WORLD_LIMIT <= p.z <= WORLD_LIMIT
}

pub open spec fn within_speed(v: Vec3) -> bool {
    &&& -SPEED_LIMIT <= v.x <= SPEED_LIMIT
    &&& -SPEED_LIMIT <= v.y <= SPEED_LIMIT
    &&& -SPEED_LIMIT <= v.z <= SPEED_LIMIT
}

pub open spec fn sq(d: int) -> int {
    d * d
}

/// Squared Euclidean distance between two points.
pub open spec fn dist_sq(a: Vec3, b: Vec3) -> int {
    sq(a.x - b.x) + sq(a.y - b.y) + sq(a.z - b.z)
}

/// The Euclidean distance between `a` and `b` is strictly below `reach`
/// (for a non-negative `reach`).
pub open spec fn closer_than(a: Vec3, b: Vec3, reach: int) -> bool {
    dist_sq(a, b) < sq(reach)
}

/// `v` clipped to `[-limit, limit]`.
pub open spec fn clip(v: int, limit: int) -> int {
    if v < -limit {
        -limit
    } else if v > limit {
        limit
    } else {
        v
    }
}

impl Vec3 {
    pub fn zero() -> (r: Vec3)
        ensures
            r == (Vec3 { x: 0, y: 0, z: 0 }),
    {
        Vec3 { x: 0, y: 0, z: 0 }
    }

    pub fn new(x: i64, y: i64, z: i64) -> (r: Vec3)
        ensures
            r == (Vec3 { x, y, z }),
    {
        Vec3 { x, y, z }
    }
}

fn square_of_difference(a: i64, b: i64) -> (r: i128)
    requires
        -WORLD_LIMIT <= a <= WORLD_LIMIT,
        -WORLD_LIMIT <= b <= WORLD_LIMIT,
    ensures
        r == sq(a - b),
        0 <= r <= 0x2000_0000_0000_0000 * 0x2000_0000_0000_0000,
{
    let d: i128 = a as i128 - b as i128;
    assert(0 <= d * d <= 0x2000_0000_0000_0000 * 0x2000_0000_0000_0000) by (nonlinear_arith)
        requires
            -0x2000_0000_0000_0000 <= d <= 0x2000_0000_0000_0000,
    ;
    d * d
}

/// Squared distance between two points of the world.
pub fn distance_squared(a: Vec3, b: Vec3) -> (r: i128)
    requires
        in_world(a),
        in_world(b),
    ensures
        r == dist_sq(a, b),
{
    let dx = square_of_difference(a.x, b.x);
    let dy = square_of_difference(a.y, b.y);
    let dz = square_of_difference(a.z, b.z);
    dx + dy + dz
}

/// Whether the distance between `a` and `b` is strictly less than `reach`.
pub fn is_closer_than(a: Vec3, b: Vec3, reach: u64) -> (r: bool)
    requires
        in_world(a),
        in_world(b),
        reach <= 2 * RADIUS_LIMIT,
    ensures
        r == closer_than(a, b, reach as int),
{
    let d = distance_squared(a, b);
    let k: i128 = reach as i128;
    assert(0 <= k * k <= 0x2000_0000_0000_0000 * 0x2000_0000_0000_0000) by (nonlinear_arith)
        requires
            0 <= k <= 0x2000_0000_0000_0000,
    ;
    d < k * k
}

/// `v` clipped to `[-limit, limit]`.
pub fn clip_to(v: i128, limit: i64) -> (r: i64)
    requires
        limit >= 0,
    ensures
        r == clip(v as int, limit as int),
{
    if v < -(limit as i128) {
        -limit
    } else if v > limit as i128 {
        limit
    } else {
        v as i64
    }
}

} // verus!
