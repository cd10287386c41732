//! Tests of the leaf components: stat profiles, the health pool, the
//! weighted debris pool, and the samplers.

use npc_combat::debris::{debris_kind_of_ticket, DebrisKind};
use npc_combat::health::Health;
use npc_combat::sampling::{roll_chance, sample_offset_in_ball};
use npc_combat::stats::NpcStats;
use npc_combat::world::vocal_tick_chance;

#[test]
fn stock_profile_matches_the_tunables() {
    let d = NpcStats::default();
    assert_eq!(d.health, 100);
    assert_eq!(d.desired_speed, 10_000);
    assert_eq!(d.max_speed, 10_000);
    assert_eq!(d.attack_damage, 10);
    assert_eq!(d.attack_speed_min, 1200);
    assert_eq!(d.attack_speed_max, 2100);
    assert_eq!(d.size, 1000);
    assert_eq!(d.stagger_chance, 100);
    assert_eq!(d.stagger_min_ms, 100);
    assert_eq!(d.stagger_max_ms, 300);
}

#[test]
fn capsule_measures_scale_with_size() {
    let d = NpcStats::default();
    assert_eq!(d.radius(), 400);
    assert_eq!(d.capsule_length(), 600);
    assert_eq!(d.height(), 1400);
    assert_eq!(d.half_height(), 700);
    assert_eq!(d.float_height(), 1200);
    let big = NpcStats { size: 2000, ..d };
    assert_eq!(big.radius(), 800);
    assert_eq!(big.capsule_length(), 1200);
    assert_eq!(big.height(), 2800);
    assert_eq!(big.half_height(), 1400);
    assert_eq!(big.float_height(), 1900);
}

#[test]
fn health_damage_saturates_and_reports_the_edge_once() {
    let mut h = Health::new(100);
    assert!(!h.is_dead());
    assert!(!h.apply_damage(40));
    assert_eq!(h.current, 60);
    assert!(h.apply_damage(200));
    assert_eq!(h.current, 0);
    assert!(h.is_dead());
    // the edge fired; further damage must not fire again
    assert!(!h.apply_damage(10));
    assert_eq!(h.current, 0);
}

#[test]
fn health_exact_kill_reports_the_edge() {
    let mut h = Health::new(100);
    assert!(h.apply_damage(100));
    assert_eq!(h.current, 0);
}

#[test]
fn heal_full_restores_capacity() {
    let mut h = Health::new(80);
    let _ = h.apply_damage(79);
    assert_eq!(h.current, 1);
    h.heal_full();
    assert_eq!(h.current, 80);
    assert_eq!(h.max, 80);
}

#[test]
fn debris_pool_weights_are_one_one_two_two_two_one() {
    let kinds: Vec<DebrisKind> = (0u64..9).map(debris_kind_of_ticket).collect();
    assert_eq!(
        kinds,
        vec![
            DebrisKind::Head,
            DebrisKind::Torso,
            DebrisKind::Arm,
            DebrisKind::Arm,
            DebrisKind::Leg,
            DebrisKind::Leg,
            DebrisKind::Foot,
            DebrisKind::Foot,
            DebrisKind::Pelvis,
        ]
    );
}

#[test]
fn chance_endpoints_are_certain() {
    for _ in 0..50 {
        assert!(!roll_chance(0));
        assert!(roll_chance(1000));
    }
}

#[test]
fn sampled_offsets_stay_inside_the_ball() {
    for _ in 0..200 {
        let v = sample_offset_in_ball(500);
        assert!(v.x * v.x + v.y * v.y + v.z * v.z <= 500 * 500);
    }
    // a zero radius pins the center
    let z = sample_offset_in_ball(0);
    assert_eq!((z.x, z.y, z.z), (0, 0, 0));
}

#[test]
fn sampled_offsets_vary() {
    // the sampler must not hand a constant back: over many draws from a
    // wide ball, at least two must differ
    let first = sample_offset_in_ball(500);
    let mut saw_other = false;
    for _ in 0..200 {
        let v = sample_offset_in_ball(500);
        if v != first {
            saw_other = true;
        }
    }
    assert!(saw_other);
}

#[test]
fn vocal_chance_compounds_per_millisecond() {
    assert_eq!(vocal_tick_chance(0), 0);
    // 1 - 0.7^0.016 is about 5.7 per thousand
    assert_eq!(vocal_tick_chance(16), 5);
    // after one whole second the chance is the per-second tunable, 0.3
    assert_eq!(vocal_tick_chance(1000), 300);
    // after two seconds it compounds: about 1 - 0.49
    assert_eq!(vocal_tick_chance(2000), 511);
    // long ticks approach certainty
    assert_eq!(vocal_tick_chance(20_000), 1000);
}

#[test]
fn vocal_chance_is_nearly_tick_size_independent() {
    // ten 100 ms ticks survive about as often as one 1000 ms tick
    let mut survival_ppm: u64 = 1_000_000;
    for _ in 0..10 {
        let per_tick = vocal_tick_chance(100) as u64;
        survival_ppm = survival_ppm * (1000 - per_tick) / 1000;
    }
    let one_shot = vocal_tick_chance(1000) as u64;
    let diff = (1_000_000 - survival_ppm) / 1000;
    assert!(diff.abs_diff(one_shot) <= 5);
}
