//! Debris spawned by the death reaction.
//!
//! When an NPC dies, a fixed count of debris objects is spawned. Each one
//! independently samples a kind from a weighted pool — with replacement, so
//! the same kind may repeat — and lands at the NPC's position plus an
//! offset drawn from within a fixed-radius ball, scaled to the NPC's size.

use vstd::prelude::*;

use crate::geom::Vec3;

verus! {

/// How many debris objects one death spawns.
pub const DEBRIS_PER_DEATH: usize = 5;

/// The number of tickets in the weighted kind pool: head 1, torso 1,
/// arm 2, leg 2, foot 2, pelvis 1.
pub const DEBRIS_POOL_SIZE: u64 = 9;

/// Radius of the ball a debris offset is drawn from, in milli-units.
pub const DEBRIS_OFFSET_RADIUS: u64 = 500;

/// How long a debris object lingers before it is despawned, milliseconds.
pub const DEBRIS_LIFETIME_MS: u64 = 10_000;

/// One kind of debris.
#[derive(Clone, Copy, Debug, PartialEq, Eq, Structural)]
pub enum DebrisKind {
    Head,
    Torso,
    Arm,
    Leg,
    Foot,
    Pelvis,
}

/// The weighted pool, as a function from a ticket below
/// [`DEBRIS_POOL_SIZE`] to the kind holding that ticket: one ticket each
/// for head, torso and pelvis, two each for arm, leg and foot.
pub open spec fn spec_debris_kind(ticket: u64) -> DebrisKind {
    if ticket == 0 {
        DebrisKind::Head
    } else if ticket == 1 {
        DebrisKind::Torso
    } else if ticket <= 3 {
        DebrisKind::Arm
    } else if ticket <= 5 {
        DebrisKind::Leg
    } else if ticket <= 7 {
        DebrisKind::Foot
    } else {
        DebrisKind::Pelvis
    }
}

/// Resolve a drawn ticket to its kind in the weighted pool.
pub fn debris_kind_of_ticket(ticket: u64) -> (k: DebrisKind)
    requires
        ticket < DEBRIS_POOL_SIZE,
    ensures
        k == spec_debris_kind(ticket),
{
    if ticket == 0 {
        DebrisKind::Head
    } else if ticket == 1 {
        DebrisKind::Torso
    } else if ticket <= 3 {
        DebrisKind::Arm
    } else if ticket <= 5 {
        DebrisKind::Leg
    } else if ticket <= 7 {
        DebrisKind::Foot
    } else {
        DebrisKind::Pelvis
    }
}

/// A request to spawn one debris object, handed to the scene layer.
#[derive(Clone, Copy, Debug, PartialEq)]
pub struct DebrisSpawn {
    /// The sampled kind.
    pub kind: DebrisKind,
    /// Where the object appears: the dead NPC's position plus the sampled
    /// offset.
    pub position: Vec3,
    /// The dead NPC's size factor, milli-units; the object is scaled by it.
    pub scale: u32,
    /// How long the object lingers, milliseconds.
    pub lifetime_ms: u64,
}

} // verus!
