//! Tests of the pure state machine: one transition per tick, stagger
//! countdown, the stagger roll, and the attack offset.

use npc_combat::behavior::{apply_stagger_roll, step_behavior, BehaviorState, NavStatus};
use npc_combat::geom::{attack_offset, Vec3};
use npc_combat::stats::NpcStats;

fn stock_stats() -> NpcStats {
    NpcStats::default()
}

#[test]
fn chase_reached_target_attacks_with_pinned_intent() {
    let stats = stock_stats();
    let npc_pos = Vec3 { x: 0, y: 0, z: 0 };
    let player_pos = Vec3 { x: 3000, y: 0, z: 4000 };
    let (state, intent) = step_behavior(
        BehaviorState::Chase,
        16,
        Some(NavStatus::ReachedTarget),
        false,
        npc_pos,
        player_pos,
        &stats,
        1500,
    );
    assert_eq!(state, BehaviorState::Attack);
    let intent = intent.expect("entering Attack must create an intent");
    assert_eq!(intent.damage, stats.attack_damage);
    assert_eq!(intent.speed, 1500);
    assert!(stats.attack_speed_min <= intent.speed && intent.speed <= stats.attack_speed_max);
    assert_eq!(intent.direction, Some(Vec3 { x: 3000, y: 0, z: 4000 }));
}

#[test]
fn chase_still_moving_keeps_chasing() {
    let stats = stock_stats();
    let pos = Vec3 { x: 0, y: 0, z: 0 };
    let (state, intent) = step_behavior(
        BehaviorState::Chase,
        16,
        Some(NavStatus::Moving),
        false,
        pos,
        pos,
        &stats,
        1200,
    );
    assert_eq!(state, BehaviorState::Chase);
    assert!(intent.is_none());
}

#[test]
fn chase_without_nav_status_is_skipped() {
    let stats = stock_stats();
    let pos = Vec3 { x: 0, y: 0, z: 0 };
    let (state, intent) =
        step_behavior(BehaviorState::Chase, 16, None, false, pos, pos, &stats, 1200);
    assert_eq!(state, BehaviorState::Chase);
    assert!(intent.is_none());
}

#[test]
fn no_nav_status_skips_the_entity_entirely() {
    // agent not yet initialized: no transition, not even the countdown
    let stats = stock_stats();
    let pos = Vec3 { x: 0, y: 0, z: 0 };
    for state in [
        BehaviorState::Chase,
        BehaviorState::Stagger { remaining_ms: 50 },
        BehaviorState::Attack,
    ] {
        for attacking in [false, true] {
            let (next, intent) =
                step_behavior(state, 200, None, attacking, pos, pos, &stats, 1200);
            assert_eq!(next, state);
            assert!(intent.is_none());
        }
    }
}

#[test]
fn stagger_countdown_partial() {
    let stats = stock_stats();
    let pos = Vec3 { x: 0, y: 0, z: 0 };
    let (state, intent) = step_behavior(
        BehaviorState::Stagger { remaining_ms: 100 },
        50,
        Some(NavStatus::ReachedTarget),
        false,
        pos,
        pos,
        &stats,
        1200,
    );
    assert_eq!(state, BehaviorState::Stagger { remaining_ms: 50 });
    assert!(intent.is_none());
}

#[test]
fn stagger_countdown_expires_to_chase() {
    let stats = stock_stats();
    let pos = Vec3 { x: 0, y: 0, z: 0 };
    let (state, _) = step_behavior(
        BehaviorState::Stagger { remaining_ms: 50 },
        200,
        Some(NavStatus::Moving),
        false,
        pos,
        pos,
        &stats,
        1200,
    );
    assert_eq!(state, BehaviorState::Chase);
    let (exact, _) = step_behavior(
        BehaviorState::Stagger { remaining_ms: 50 },
        50,
        Some(NavStatus::Moving),
        false,
        pos,
        pos,
        &stats,
        1200,
    );
    assert_eq!(exact, BehaviorState::Chase);
}

#[test]
fn attack_ends_when_no_attack_in_progress() {
    let stats = stock_stats();
    let pos = Vec3 { x: 0, y: 0, z: 0 };
    let (still, _) = step_behavior(
        BehaviorState::Attack,
        16,
        Some(NavStatus::ReachedTarget),
        true,
        pos,
        pos,
        &stats,
        1200,
    );
    assert_eq!(still, BehaviorState::Attack);
    let (done, intent) = step_behavior(
        BehaviorState::Attack,
        16,
        Some(NavStatus::ReachedTarget),
        false,
        pos,
        pos,
        &stats,
        1200,
    );
    assert_eq!(done, BehaviorState::Chase);
    assert!(intent.is_none());
}

#[test]
fn stagger_roll_forced_fail_never_changes_state() {
    let next = apply_stagger_roll(BehaviorState::Chase, false, 150);
    assert_eq!(next, BehaviorState::Chase);
}

#[test]
fn stagger_roll_forced_success_staggers_a_chaser() {
    let next = apply_stagger_roll(BehaviorState::Chase, true, 150);
    assert_eq!(next, BehaviorState::Stagger { remaining_ms: 150 });
}

#[test]
fn no_double_stagger_out_of_attack_or_stagger() {
    let from_attack = apply_stagger_roll(BehaviorState::Attack, true, 150);
    assert_eq!(from_attack, BehaviorState::Attack);
    let from_stagger = apply_stagger_roll(BehaviorState::Stagger { remaining_ms: 70 }, true, 150);
    assert_eq!(from_stagger, BehaviorState::Stagger { remaining_ms: 70 });
}

#[test]
fn attack_offset_matches_normalized_direction() {
    // player at offset (3, 0, 4) in world units from the NPC at the origin
    let npc = Vec3 { x: 0, y: 0, z: 0 };
    let player = Vec3 { x: 3000, y: 500, z: 4000 };
    let offset = attack_offset(npc, player).expect("offset must exist");
    assert_eq!(offset, Vec3 { x: 3000, y: 0, z: 4000 });
    let len = ((offset.x as f64).powi(2) + (offset.y as f64).powi(2) + (offset.z as f64).powi(2))
        .sqrt();
    let unit = (
        offset.x as f64 / len,
        offset.y as f64 / len,
        offset.z as f64 / len,
    );
    assert!((unit.0 - 0.6).abs() < 1e-9);
    assert!(unit.1.abs() < 1e-9);
    assert!((unit.2 - 0.8).abs() < 1e-9);
}

#[test]
fn attack_offset_degenerate_is_none() {
    let npc = Vec3 { x: 7, y: 0, z: -2 };
    let player = Vec3 { x: 7, y: 900, z: -2 };
    assert!(attack_offset(npc, player).is_none());
}
