use vstd::prelude::*;

verus! {

/// A planar vector of fixed-point lengths or velocities (thousandths).
#[derive(Clone, Copy, Debug, PartialEq, Eq, Structural)]
pub struct Fixed2 {
    pub x: i64,
    pub y: i64,
}

/// A planar impulse or force in mass-times-velocity units (millionths).
#[derive(Clone, Copy, Debug, PartialEq, Eq, Structural)]
pub struct Wide2 {
    pub x: i128,
    pub y: i128,
}

/// An axis-aligned bounding box in fixed-point coordinates.
#[derive(Clone, Copy, Debug, PartialEq, Eq, Structural)]
pub struct Aabb {
    pub min: Fixed2,
    pub max: Fixed2,
}

/// Microseconds in one second.
pub const MICROS_PER_SECOND: u64 = 1_000_000;

/// A velocity component after the physics engine applies an impulse
/// component to a body of the given mass: the velocity changes by impulse
/// over mass.
pub open spec fn after_impulse(v: int, impulse: int, mass: int) -> int {
    v + impulse / mass
}

/// A velocity component after the physics engine integrates a constant force
/// component over `dt_us` microseconds: the velocity changes by force over
/// mass times the elapsed seconds.
pub open spec fn after_force(v: int, force: int, mass: int, dt_us: int) -> int {
    v + (force / mass) * dt_us / (MICROS_PER_SECOND as int)
}

} // verus!
