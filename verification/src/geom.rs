//! Integer geometry for the simulation.
//!
//! Positions and offsets are measured in milli-units: one thousand counts
//! one world unit. Coordinates of world positions stay within
//! [`COORD_LIMIT`] in magnitude, which keeps every difference and sum the
//! controller forms far inside the machine range.

use vstd::prelude::*;

verus! {

/// Magnitude bound on each coordinate of a world position, in milli-units.
pub const COORD_LIMIT: i64 = 1_000_000_000_000;

/// A point or offset in space, each coordinate in milli-units.
#[derive(Clone, Copy, Debug, PartialEq, Eq, Structural)]
pub struct Vec3 {
    pub x: i64,
    pub y: i64,
    pub z: i64,
}

impl Vec3 {
    /// Whether every coordinate is within the world bound.
    pub open spec fn in_world(self) -> bool {
        &&& -COORD_LIMIT <= self.x <= COORD_LIMIT
        &&& -COORD_LIMIT <= self.y <= COORD_LIMIT
        &&& -COORD_LIMIT <= self.z <= COORD_LIMIT
    }

    /// Whether every coordinate is at most `bound` in magnitude.
    pub open spec fn bounded_by(self, bound: i64) -> bool {
        &&& -bound <= self.x <= bound
        &&& -bound <= self.y <= bound
        &&& -bound <= self.z <= bound
    }

    /// Componentwise sum.
    pub fn translated(self, other: Vec3) -> (v: Vec3)
        requires
            self.x + other.x <= i64::MAX,
            i64::MIN <= self.x + other.x,
            self.y + other.y <= i64::MAX,
            i64::MIN <= self.y + other.y,
            self.z + other.z <= i64::MAX,
            i64::MIN <= self.z + other.z,
        ensures
            v.x == self.x + other.x,
            v.y == self.y + other.y,
            v.z == self.z + other.z,
    {
        Vec3 { x: self.x + other.x, y: self.y + other.y, z: self.z + other.z }
    }
}

/// The horizontal offset an attack aims along: from the attacker toward the
/// point at the target's horizontal position and the attacker's own height.
/// The offset is degenerate — and the attack carries no direction — exactly
/// when the two stand at the same horizontal position. The unit vector the
/// attack uses is this offset divided by its length, which is left to the
/// presentation layer.
pub open spec fn spec_attack_offset(attacker: Vec3, target: Vec3) -> Option<Vec3> {
    if target.x == attacker.x && target.z == attacker.z {
        None
    } else {
        Some(
            Vec3 {
                x: (target.x - attacker.x) as i64,
                y: 0i64,
                z: (target.z - attacker.z) as i64,
            },
        )
    }
}

/// Compute the attack offset of [`spec_attack_offset`].
pub fn attack_offset(attacker: Vec3, target: Vec3) -> (r: Option<Vec3>)
    requires
        attacker.in_world(),
        target.in_world(),
    ensures
        r == spec_attack_offset(attacker, target),
{
    let dx = target.x - attacker.x;
    let dz = target.z - attacker.z;
    if dx == 0 && dz == 0 {
        None
    } else {
        Some(Vec3 { x: dx, y: 0, z: dz })
    }
}

} // verus!
