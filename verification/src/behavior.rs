//! The Chase / Stagger / Attack behavior state machine.
//!
//! Each simulation tick evaluates exactly one transition rule per NPC,
//! gated by the current state:
//!
//! - `Chase` turns into `Attack` when the navigation agent reports that it
//!   reached its target, and the attack intent is created at that moment;
//! - `Stagger` counts its remaining time down and turns into `Chase` the
//!   tick the countdown is used up;
//! - `Attack` turns back into `Chase` once no attack is in progress any
//!   more.
//!
//! When the navigation agent has no status for the entity this tick —
//! for instance because it is not yet initialized — the entity is skipped
//! entirely: no transition fires, not even the stagger countdown, and
//! nothing is emitted. Every other entity of the same tick is still
//! processed normally.
//!
//! A damage event rolls for a stagger, but only out of `Chase`: the roll's
//! outcome and the sampled duration enter [`apply_stagger_roll`] as
//! arguments, so forcing either outcome is a matter of passing it.

use vstd::prelude::*;

use crate::geom::Vec3;
use crate::geom::spec_attack_offset;
use crate::geom::attack_offset;
use crate::stats::NpcStats;

verus! {

/// What the navigation link reports of an agent that has a status at all.
#[derive(Clone, Copy, Debug, PartialEq, Eq, Structural)]
pub enum NavStatus {
    /// The agent is still on its way toward the target.
    Moving,
    /// The agent arrived at its target.
    ReachedTarget,
}

/// The behavior state of one NPC. Exactly one variant is active at a time;
/// a fresh NPC starts in `Chase`.
#[derive(Clone, Copy, Debug, PartialEq, Eq, Structural)]
pub enum BehaviorState {
    /// Pursuing the player.
    Chase,
    /// Incapacitated; the payload counts the remaining milliseconds down.
    Stagger { remaining_ms: u64 },
    /// Executing an attack; its completion is signaled from outside.
    Attack,
}

/// Transient data describing one attack, created on entering `Attack` and
/// removed when the attack finishes.
#[derive(Clone, Copy, Debug, PartialEq)]
pub struct AttackIntent {
    /// The horizontal offset toward the player the attack aims along, or
    /// `None` when attacker and player share a horizontal position and no
    /// direction exists; see [`spec_attack_offset`].
    pub direction: Option<Vec3>,
    /// Attack speed, milli-units per second, sampled once from the
    /// profile's attack speed range.
    pub speed: u64,
    /// Damage the attack deals, copied from the profile.
    pub damage: u32,
}

/// The state a tick of `dt_ms` leaves an NPC in, given the navigation
/// report (`None` when the agent has no status this tick) and whether an
/// attack is currently in progress. Without a report the entity is
/// skipped entirely and keeps its state.
pub open spec fn spec_step_state(
    state: BehaviorState,
    dt_ms: u64,
    nav: Option<NavStatus>,
    attacking: bool,
) -> BehaviorState {
    if nav is None {
        state
    } else {
        match state {
            BehaviorState::Chase => {
                if nav == Some(NavStatus::ReachedTarget) {
                    BehaviorState::Attack
                } else {
                    BehaviorState::Chase
                }
            },
            BehaviorState::Stagger { remaining_ms } => {
                if dt_ms >= remaining_ms {
                    BehaviorState::Chase
                } else {
                    BehaviorState::Stagger { remaining_ms: (remaining_ms - dt_ms) as u64 }
                }
            },
            BehaviorState::Attack => {
                if attacking {
                    BehaviorState::Attack
                } else {
                    BehaviorState::Chase
                }
            },
        }
    }
}

/// Whether this tick begins an attack: only a chasing NPC whose agent
/// reached its target starts one.
pub open spec fn spec_starts_attack(state: BehaviorState, nav: Option<NavStatus>) -> bool {
    state is Chase && nav == Some(NavStatus::ReachedTarget)
}

/// Run one tick of the state machine for one NPC.
///
/// `speed_draw` is the attack speed sampled from the profile's range; it is
/// taken as an argument so that the transition itself is fully specified.
/// The returned intent exists exactly when the tick begins an attack, and
/// then carries the horizontal offset toward the player, the sampled speed,
/// and the profile's attack damage. With no navigation report the entity
/// is skipped: the state comes back unchanged and no intent is created.
pub fn step_behavior(
    state: BehaviorState,
    dt_ms: u64,
    nav: Option<NavStatus>,
    attacking: bool,
    npc_pos: Vec3,
    player_pos: Vec3,
    stats: &NpcStats,
    speed_draw: u64,
) -> (r: (BehaviorState, Option<AttackIntent>))
    requires
        stats.wf(),
        stats.attack_speed_min <= speed_draw <= stats.attack_speed_max,
        npc_pos.in_world(),
        player_pos.in_world(),
    ensures
        r.0 == spec_step_state(state, dt_ms, nav, attacking),
        spec_starts_attack(state, nav) ==> r.1 == Some(
            AttackIntent {
                direction: spec_attack_offset(npc_pos, player_pos),
                speed: speed_draw,
                damage: stats.attack_damage,
            },
        ),
        !spec_starts_attack(state, nav) ==> r.1 is None,
{
    if nav.is_none() {
        return (state, None);
    }
    match state {
        BehaviorState::Chase => {
            if nav == Some(NavStatus::ReachedTarget) {
                let intent = AttackIntent {
                    direction: attack_offset(npc_pos, player_pos),
                    speed: speed_draw,
                    damage: stats.attack_damage,
                };
                (BehaviorState::Attack, Some(intent))
            } else {
                (BehaviorState::Chase, None)
            }
        },
        BehaviorState::Stagger { remaining_ms } => {
            if dt_ms >= remaining_ms {
                (BehaviorState::Chase, None)
            } else {
                (BehaviorState::Stagger { remaining_ms: remaining_ms - dt_ms }, None)
            }
        },
        BehaviorState::Attack => {
            if attacking {
                (BehaviorState::Attack, None)
            } else {
                (BehaviorState::Chase, None)
            }
        },
    }
}

/// Apply the outcome of a stagger roll to a state.
///
/// Only a chasing NPC can be staggered: a successful roll sends it to
/// `Stagger` for the sampled duration, a failed roll leaves it untouched,
/// and an NPC already attacking or staggered is left untouched whatever the
/// roll said — no second timer is ever started.
pub fn apply_stagger_roll(state: BehaviorState, roll_success: bool, duration_ms: u64) -> (next:
    BehaviorState)
    ensures
        state is Chase && roll_success ==> next == (BehaviorState::Stagger {
            remaining_ms: duration_ms,
        }),
        state is Chase && !roll_success ==> next == state,
        !(state is Chase) ==> next == state,
{
    match state {
        BehaviorState::Chase => {
            if roll_success {
                BehaviorState::Stagger { remaining_ms: duration_ms }
            } else {
                state
            }
        },
        _ => state,
    }
}

/// Law: under any present navigation report, a stagger of `d`
/// milliseconds ticked by `dt < d` becomes a stagger of `d - dt`; ticked
/// by `dt >= d` it becomes `Chase`. (With no report the entity is not
/// ticked at all; see [`lemma_no_nav_status_skips`].)
pub proof fn lemma_stagger_countdown(d: u64, dt_ms: u64, nav: NavStatus, attacking: bool)
    ensures
        dt_ms < d ==> spec_step_state(BehaviorState::Stagger { remaining_ms: d }, dt_ms, Some(
            nav,
        ), attacking) == (BehaviorState::Stagger { remaining_ms: (d - dt_ms) as u64 }),
        dt_ms >= d ==> spec_step_state(BehaviorState::Stagger { remaining_ms: d }, dt_ms, Some(
            nav,
        ), attacking) == BehaviorState::Chase,
{
}

/// Law: an entity whose navigation link has no valid status this tick is
/// skipped entirely — whatever its state, the tick leaves it unchanged,
/// and no attack begins.
pub proof fn lemma_no_nav_status_skips(state: BehaviorState, dt_ms: u64, attacking: bool)
    ensures
        spec_step_state(state, dt_ms, None, attacking) == state,
        !spec_starts_attack(state, None),
{
}

/// Law: a chasing NPC whose agent reached its target attacks; on any other
/// report, or none, it keeps chasing.
pub proof fn lemma_chase_transitions(dt_ms: u64, nav: Option<NavStatus>, attacking: bool)
    ensures
        spec_step_state(BehaviorState::Chase, dt_ms, nav, attacking) == if nav == Some(
            NavStatus::ReachedTarget,
        ) {
            BehaviorState::Attack
        } else {
            BehaviorState::Chase
        },
{
}

} // verus!
