//! Scenario tests through the world: the damage pipeline, the one-shot
//! death reaction, deferred removal, and the attack life cycle.

use npc_combat::behavior::{BehaviorState, NavStatus};
use npc_combat::debris::{DebrisKind, DEBRIS_PER_DEATH};
use npc_combat::geom::Vec3;
use npc_combat::stats::NpcStats;
use npc_combat::world::{CombatWorld, CueKind, Effect};

fn origin() -> Vec3 {
    Vec3 { x: 0, y: 0, z: 0 }
}

fn certain_stagger_stats() -> NpcStats {
    NpcStats {
        health: 100,
        attack_damage: 10,
        stagger_chance: 1000,
        stagger_min_ms: 100,
        stagger_max_ms: 100,
        ..NpcStats::default()
    }
}

fn count_debris(effects: &[Effect]) -> usize {
    effects
        .iter()
        .filter(|e| matches!(e, Effect::SpawnDebris { .. }))
        .count()
}

#[test]
fn damage_staggers_then_ticks_down_then_chases() {
    // stats: health 100, attack damage 10, certain stagger of 0.1 s
    let mut w = CombatWorld::new(origin());
    let id = w.spawn_npc(certain_stagger_stats(), origin(), false);
    w.set_nav_status(id, Some(NavStatus::Moving));
    w.queue_damage(id, 40);
    w.tick(0);
    assert_eq!(w.npcs[id].health.current, 60);
    assert_eq!(w.npcs[id].state, BehaviorState::Stagger { remaining_ms: 100 });
    // the successful roll announced itself with exactly one stagger cue
    let effects = w.drain_effects();
    let stagger_cues = effects
        .iter()
        .filter(|e| matches!(e, Effect::AudioCue { kind: CueKind::Stagger, .. }))
        .count();
    assert_eq!(stagger_cues, 1);
    w.tick(50);
    assert_eq!(w.npcs[id].state, BehaviorState::Stagger { remaining_ms: 50 });
    w.tick(200);
    assert_eq!(w.npcs[id].state, BehaviorState::Chase);
    assert_eq!(w.npcs[id].health.current, 60);
}

#[test]
fn nav_unavailable_npc_keeps_its_stagger_while_others_tick() {
    let mut w = CombatWorld::new(origin());
    let stuck = w.spawn_npc(certain_stagger_stats(), origin(), false);
    let moving = w.spawn_npc(certain_stagger_stats(), origin(), false);
    w.set_nav_status(moving, Some(NavStatus::Moving));
    w.queue_damage(stuck, 10);
    w.queue_damage(moving, 10);
    w.tick(0);
    assert_eq!(w.npcs[stuck].state, BehaviorState::Stagger { remaining_ms: 100 });
    assert_eq!(w.npcs[moving].state, BehaviorState::Stagger { remaining_ms: 100 });
    // the agent without a status is skipped entirely; the other counts down
    w.tick(60);
    assert_eq!(w.npcs[stuck].state, BehaviorState::Stagger { remaining_ms: 100 });
    assert_eq!(w.npcs[moving].state, BehaviorState::Stagger { remaining_ms: 40 });
}

#[test]
fn zero_chance_never_staggers() {
    let stats = NpcStats { stagger_chance: 0, ..NpcStats::default() };
    let mut w = CombatWorld::new(origin());
    let id = w.spawn_npc(stats, origin(), false);
    for _ in 0..20 {
        w.queue_damage(id, 1);
        w.tick(0);
        assert_eq!(w.npcs[id].state, BehaviorState::Chase);
    }
    assert_eq!(w.npcs[id].health.current, 80);
}

#[test]
fn lethal_damage_fires_death_reaction_once() {
    let mut w = CombatWorld::new(origin());
    let id = w.spawn_npc(certain_stagger_stats(), origin(), false);
    w.queue_damage(id, 100);
    w.tick(16);
    assert_eq!(w.npcs[id].health.current, 0);
    assert!(w.npcs[id].removal_scheduled);
    // still queryable in the tick that killed it, absent the next tick
    assert!(w.npcs[id].present);
    let effects = w.drain_effects();
    assert_eq!(count_debris(&effects), DEBRIS_PER_DEATH);
    w.tick(16);
    assert!(!w.npcs[id].present);
    // no further reaction on later ticks
    assert_eq!(count_debris(&w.drain_effects()), 0);
}

#[test]
fn overkill_across_two_events_fires_once() {
    let mut w = CombatWorld::new(origin());
    let id = w.spawn_npc(certain_stagger_stats(), origin(), false);
    // together the two events exceed the remaining health
    w.queue_damage(id, 60);
    w.queue_damage(id, 60);
    w.tick(16);
    assert_eq!(w.npcs[id].health.current, 0);
    let effects = w.drain_effects();
    assert_eq!(count_debris(&effects), DEBRIS_PER_DEATH);
}

#[test]
fn damage_after_death_is_a_no_op() {
    let mut w = CombatWorld::new(origin());
    let id = w.spawn_npc(certain_stagger_stats(), origin(), false);
    w.queue_damage(id, 100);
    w.tick(16);
    let _ = w.drain_effects();
    // the slot is still present this tick; more damage must not re-fire
    w.queue_damage(id, 50);
    w.tick(16);
    assert_eq!(count_debris(&w.drain_effects()), 0);
}

#[test]
fn debris_is_scaled_and_placed_near_the_corpse() {
    let stats = NpcStats { size: 2000, ..certain_stagger_stats() };
    let position = Vec3 { x: 10_000, y: 0, z: -4_000 };
    let mut w = CombatWorld::new(origin());
    let id = w.spawn_npc(stats, position, false);
    w.queue_damage(id, 100);
    w.tick(16);
    let effects = w.drain_effects();
    let mut seen = 0;
    for e in &effects {
        if let Effect::SpawnDebris { debris } = e {
            seen += 1;
            assert_eq!(debris.scale, 2000);
            assert_eq!(debris.lifetime_ms, 10_000);
            let dx = debris.position.x - position.x;
            let dy = debris.position.y - position.y;
            let dz = debris.position.z - position.z;
            assert!(dx * dx + dy * dy + dz * dz <= 500 * 500);
            assert!(matches!(
                debris.kind,
                DebrisKind::Head
                    | DebrisKind::Torso
                    | DebrisKind::Arm
                    | DebrisKind::Leg
                    | DebrisKind::Foot
                    | DebrisKind::Pelvis
            ));
        }
    }
    assert_eq!(seen, DEBRIS_PER_DEATH);
}

#[test]
fn explode_marker_fires_exactly_one_explosion() {
    let mut w = CombatWorld::new(origin());
    let marked = w.spawn_npc(certain_stagger_stats(), origin(), true);
    let plain = w.spawn_npc(certain_stagger_stats(), origin(), false);
    w.queue_damage(marked, 100);
    w.queue_damage(plain, 100);
    w.tick(16);
    let effects = w.drain_effects();
    let explosions: Vec<&Effect> = effects
        .iter()
        .filter(|e| matches!(e, Effect::Explode { .. }))
        .collect();
    assert_eq!(explosions.len(), 1);
    assert!(matches!(explosions[0], Effect::Explode { npc } if *npc == marked));
}

#[test]
fn attack_lifecycle_reaches_target_and_returns_to_chase() {
    let mut w = CombatWorld::new(Vec3 { x: 3000, y: 0, z: 4000 });
    let stats = NpcStats { stagger_chance: 0, ..NpcStats::default() };
    let id = w.spawn_npc(stats, origin(), false);
    w.set_nav_status(id, Some(NavStatus::ReachedTarget));
    w.tick(16);
    assert_eq!(w.npcs[id].state, BehaviorState::Attack);
    let intent = w.npcs[id].attack.expect("intent attached on entering Attack");
    assert_eq!(intent.damage, stats.attack_damage);
    assert!(stats.attack_speed_min <= intent.speed && intent.speed <= stats.attack_speed_max);
    assert_eq!(intent.direction, Some(Vec3 { x: 3000, y: 0, z: 4000 }));
    // one attack vocalization was emitted
    let effects = w.drain_effects();
    let cues: Vec<&Effect> = effects
        .iter()
        .filter(|e| matches!(e, Effect::AudioCue { kind: CueKind::Attack, .. }))
        .collect();
    assert_eq!(cues.len(), 1);
    if let Effect::AudioCue { npc, pitch, .. } = cues[0] {
        assert_eq!(*npc, id);
        assert!(900 <= *pitch && *pitch <= 1100);
    }
    // while the resolver still runs the attack, the state stays Attack
    w.tick(16);
    assert_eq!(w.npcs[id].state, BehaviorState::Attack);
    assert!(w.npcs[id].attack.is_some());
    // the resolver reports completion; the intent goes, then the state
    w.queue_attack_finished(id);
    w.tick(16);
    assert!(w.npcs[id].attack.is_none());
    assert_eq!(w.npcs[id].state, BehaviorState::Attack);
    w.tick(16);
    assert_eq!(w.npcs[id].state, BehaviorState::Chase);
}

#[test]
fn damage_in_attack_or_stagger_never_restarts_the_timer() {
    let mut w = CombatWorld::new(Vec3 { x: 3000, y: 0, z: 4000 });
    let id = w.spawn_npc(certain_stagger_stats(), origin(), false);
    w.set_nav_status(id, Some(NavStatus::Moving));
    // stagger it once, then hit it again mid-stagger: the timer keeps going
    w.queue_damage(id, 10);
    w.tick(0);
    assert_eq!(w.npcs[id].state, BehaviorState::Stagger { remaining_ms: 100 });
    w.queue_damage(id, 10);
    w.tick(40);
    assert_eq!(w.npcs[id].state, BehaviorState::Stagger { remaining_ms: 60 });
    // and an attacking NPC is never staggered, even with a certain chance
    let attacker = w.spawn_npc(certain_stagger_stats(), origin(), false);
    w.set_nav_status(attacker, Some(NavStatus::ReachedTarget));
    w.tick(0);
    assert_eq!(w.npcs[attacker].state, BehaviorState::Attack);
    w.queue_damage(attacker, 10);
    w.tick(0);
    assert_eq!(w.npcs[attacker].state, BehaviorState::Attack);
    assert_eq!(w.npcs[attacker].health.current, 90);
}

#[test]
fn events_for_missing_targets_are_ignored() {
    let mut w = CombatWorld::new(origin());
    let id = w.spawn_npc(NpcStats::default(), origin(), false);
    w.queue_damage(77, 40);
    w.queue_attack_finished(77);
    w.queue_vocalization_finished(77);
    w.tick(16);
    assert_eq!(w.npcs[id].health.current, 100);
    assert_eq!(w.events.len(), 0);
}

#[test]
fn vocalization_finished_clears_the_flag() {
    let mut w = CombatWorld::new(origin());
    let id = w.spawn_npc(NpcStats::default(), origin(), false);
    // force the flag with one very long tick: the chance reaches one
    for _ in 0..3 {
        w.tick(20_000);
    }
    assert!(w.npcs[id].vocalizing);
    w.queue_vocalization_finished(id);
    w.tick(0);
    assert!(!w.npcs[id].vocalizing);
}

#[test]
fn drain_effects_empties_the_list() {
    let mut w = CombatWorld::new(origin());
    let id = w.spawn_npc(certain_stagger_stats(), origin(), false);
    w.queue_damage(id, 100);
    w.tick(16);
    let first = w.drain_effects();
    assert!(!first.is_empty());
    assert!(w.drain_effects().is_empty());
}
