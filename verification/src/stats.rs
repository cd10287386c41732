//! Static per-NPC tunables.
//!
//! A stat profile is immutable after creation. Speeds and sizes are in
//! milli-units (one thousand counts 1.0), durations in milliseconds, and the
//! stagger chance in parts per thousand. Both ranges run from their minimum
//! to their maximum inclusively, and a well-formed profile has each minimum
//! at most its maximum, a size greater than zero, and a stagger chance of at
//! most [`CHANCE_SCALE`].

use vstd::prelude::*;

verus! {

/// A probability of one: chances are counted in parts per thousand.
pub const CHANCE_SCALE: u32 = 1000;

/// Shape constant: an NPC's capsule radius at size 1.0, in milli-units.
pub const NPC_RADIUS_MILLI: u64 = 400;

/// Shape constant: an NPC's capsule cylinder length at size 1.0, in
/// milli-units.
pub const NPC_CAPSULE_LENGTH_MILLI: u64 = 600;

/// Upper bound on a stat profile's size factor, in milli-units. Generous
/// enough for any giant, small enough that every derived measure fits
/// comfortably in its integer type.
pub const SIZE_LIMIT: u32 = 1_000_000;

/// Static tunables of one NPC.
#[derive(Clone, Copy, Debug, PartialEq, Eq, Structural)]
pub struct NpcStats {
    /// Starting health of the NPC's pool.
    pub health: u32,
    /// Navigation speed the NPC asks for, milli-units per second.
    pub desired_speed: u64,
    /// Navigation speed the NPC never exceeds, milli-units per second.
    pub max_speed: u64,
    /// Damage one attack deals.
    pub attack_damage: u32,
    /// Slowest attack speed that can be sampled, milli-units per second.
    pub attack_speed_min: u64,
    /// Fastest attack speed that can be sampled, milli-units per second.
    pub attack_speed_max: u64,
    /// Size factor, milli-units; 1000 is a regular specimen.
    pub size: u32,
    /// Chance that a hit staggers, in parts per thousand.
    pub stagger_chance: u32,
    /// Shortest stagger that can be sampled, in milliseconds.
    pub stagger_min_ms: u64,
    /// Longest stagger that can be sampled, in milliseconds.
    pub stagger_max_ms: u64,
}

impl NpcStats {
    /// The profile's invariant: ranges ordered, size positive and bounded,
    /// chance a probability.
    pub open spec fn wf(self) -> bool {
        &&& self.attack_speed_min <= self.attack_speed_max
        &&& self.stagger_min_ms <= self.stagger_max_ms
        &&& 0 < self.size <= SIZE_LIMIT
        &&& self.stagger_chance <= CHANCE_SCALE
    }

    /// The capsule radius scaled by size, in milli-units.
    pub fn radius(&self) -> (r: u64)
        requires
            self.wf(),
        ensures
            r == NPC_RADIUS_MILLI * self.size / 1000,
    {
        NPC_RADIUS_MILLI * self.size as u64 / 1000
    }

    /// The capsule cylinder length scaled by size, in milli-units.
    pub fn capsule_length(&self) -> (r: u64)
        requires
            self.wf(),
        ensures
            r == NPC_CAPSULE_LENGTH_MILLI * self.size / 1000,
    {
        NPC_CAPSULE_LENGTH_MILLI * self.size as u64 / 1000
    }

    /// The full capsule height: cylinder length plus a radius at each cap.
    pub fn height(&self) -> (r: u64)
        requires
            self.wf(),
        ensures
            r == NPC_CAPSULE_LENGTH_MILLI * self.size / 1000 + 2 * (NPC_RADIUS_MILLI * self.size
                / 1000),
    {
        self.capsule_length() + 2 * self.radius()
    }

    /// Half the capsule height: distance from the center to the lowest point.
    pub fn half_height(&self) -> (r: u64)
        requires
            self.wf(),
        ensures
            r == (NPC_CAPSULE_LENGTH_MILLI * self.size / 1000 + 2 * (NPC_RADIUS_MILLI * self.size
                / 1000)) / 2,
    {
        self.height() / 2
    }

    /// The height the floating character controller keeps above ground:
    /// half the capsule plus half a unit of padding.
    pub fn float_height(&self) -> (r: u64)
        requires
            self.wf(),
        ensures
            r == (NPC_CAPSULE_LENGTH_MILLI * self.size / 1000 + 2 * (NPC_RADIUS_MILLI * self.size
                / 1000)) / 2 + 500,
    {
        self.half_height() + 500
    }
}

impl Default for NpcStats {
    /// The stock profile: 100 health, speed 10.0, damage 10 per attack,
    /// attack speed sampled in [1.2, 2.1], regular size, a 10% stagger
    /// chance with durations sampled in [0.1 s, 0.3 s].
    fn default() -> (d: Self)
        ensures
            d == (NpcStats {
                health: 100u32,
                desired_speed: 10_000u64,
                max_speed: 10_000u64,
                attack_damage: 10u32,
                attack_speed_min: 1200u64,
                attack_speed_max: 2100u64,
                size: 1000u32,
                stagger_chance: 100u32,
                stagger_min_ms: 100u64,
                stagger_max_ms: 300u64,
            }),
            d.wf(),
    {
        NpcStats {
            health: 100,
            desired_speed: 10_000,
            max_speed: 10_000,
            attack_damage: 10,
            attack_speed_min: 1200,
            attack_speed_max: 2100,
            size: 1000,
            stagger_chance: 100,
            stagger_min_ms: 100,
            stagger_max_ms: 300,
        }
    }
}

} // verus!
