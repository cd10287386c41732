//! The combat controller's world: an entity registry, an event queue, and
//! the tick loop.
//!
//! NPCs live in a dense registry indexed by spawn order. Signals from
//! collaborators — damage, an attack resolver finishing, a vocalization
//! ending — are queued as events and processed in order at a fixed point of
//! each tick, after every entity's behavior step. Side effects the
//! controller asks of its collaborators — audio cues, debris spawns,
//! explosion signals — are appended to an effect list the caller drains.
//! An entity that dies is only scheduled for removal: it stays queryable
//! for the rest of its tick and vanishes at the barrier when the next tick
//! begins.

use vstd::prelude::*;

use crate::behavior::AttackIntent;
use crate::behavior::BehaviorState;
use crate::behavior::NavStatus;
use crate::behavior::spec_starts_attack;
use crate::behavior::spec_step_state;
use crate::behavior::step_behavior;
use crate::behavior::apply_stagger_roll;
use crate::debris::DEBRIS_LIFETIME_MS;
use crate::debris::DEBRIS_OFFSET_RADIUS;
use crate::debris::DEBRIS_PER_DEATH;
use crate::debris::DEBRIS_POOL_SIZE;
use crate::debris::DebrisSpawn;
use crate::debris::debris_kind_of_ticket;
use crate::geom::Vec3;
use crate::geom::spec_attack_offset;
use crate::health::Health;
use crate::health::lemma_damaged_by_all_is_total;
use crate::health::lemma_death_edge_fires_exactly_once;
use crate::health::spec_damaged;
use crate::health::spec_damaged_by_all;
use crate::health::spec_damage_total;
use crate::health::spec_death_edges;
use crate::health::spec_dies_now;
use crate::sampling::roll_chance;
use crate::sampling::sample_offset_in_ball;
use crate::sampling::sample_u64_inclusive;
use crate::stats::CHANCE_SCALE;
use crate::stats::NpcStats;

verus! {

/// Lowest playback pitch a sampled cue can get, parts per thousand.
pub const CUE_PITCH_MIN: u64 = 900;

/// Highest playback pitch a sampled cue can get, parts per thousand.
pub const CUE_PITCH_MAX: u64 = 1100;

/// Per-millisecond survival of the idle-vocalization roll, in parts per
/// million: with an idle-vocalization chance of 3/10 per second, the
/// chance that one millisecond passes silently is (1 - 3/10) to the power
/// 1/1000, which is 999_643 ppm to the nearest integer.
pub const IDLE_VOCAL_SURVIVAL_PPM: u64 = 999_643;

/// One NPC's slot in the registry.
#[derive(Clone, Copy, Debug, PartialEq)]
pub struct Npc {
    /// The immutable stat profile.
    pub stats: NpcStats,
    /// The health pool, created full from the profile.
    pub health: Health,
    /// The behavior state; a fresh NPC chases.
    pub state: BehaviorState,
    /// The attack in progress, while one is.
    pub attack: Option<AttackIntent>,
    /// Where the NPC stands; moved by the navigation collaborator.
    pub position: Vec3,
    /// What the navigation link reports this tick; `None` when the agent
    /// has no status, in which case the state machine skips the entity.
    pub nav: Option<NavStatus>,
    /// Whether an idle vocalization is still playing.
    pub vocalizing: bool,
    /// Whether death additionally fires an explosion signal.
    pub explode_on_death: bool,
    /// Set by the death reaction; the removal barrier acts on it.
    pub removal_scheduled: bool,
    /// Whether the slot still holds its entity. Cleared at the barrier,
    /// never set again.
    pub present: bool,
}

impl Npc {
    /// The slot's invariant.
    pub open spec fn wf(self) -> bool {
        &&& self.stats.wf()
        &&& self.health.wf()
        &&& self.position.in_world()
    }
}

/// A signal from a collaborator, queued and processed in order at the
/// event point of the tick.
#[derive(Clone, Copy, Debug, PartialEq)]
pub enum Event {
    /// Damage aimed at an NPC's health pool.
    Damage { target: usize, amount: u32 },
    /// The attack resolver finished the target's attack.
    AttackFinished { target: usize },
    /// The target's idle vocalization ended.
    VocalizationFinished { target: usize },
}

/// Which vocalization an audio cue plays.
#[derive(Clone, Copy, Debug, PartialEq, Eq, Structural)]
pub enum CueKind {
    /// Emitted once on entering `Attack`.
    Attack,
    /// Emitted once on a successful stagger roll.
    Stagger,
    /// Emitted when the idle vocalization roll succeeds.
    Idle,
}

/// A side effect the controller asks of its collaborators.
#[derive(Clone, Copy, Debug, PartialEq)]
pub enum Effect {
    /// Play a vocalization for an NPC. `pitch` is the sampled playback
    /// pitch in parts per thousand; the audio layer additionally divides
    /// by the NPC's size factor, so bigger specimens sound deeper.
    AudioCue { npc: usize, kind: CueKind, pitch: u64 },
    /// Spawn one debris object.
    SpawnDebris { debris: DebrisSpawn },
    /// Fire the explosion signal for an NPC that explodes on death.
    Explode { npc: usize },
}

/// Whether a point lies within the ball of radius `r` around `center`.
pub open spec fn spec_in_ball(center: Vec3, p: Vec3, r: int) -> bool {
    let dx = p.x - center.x;
    let dy = p.y - center.y;
    let dz = p.z - center.z;
    dx * dx + dy * dy + dz * dz <= r * r
}

/// The bounds every emitted effect obeys: cue pitches stay within the
/// sampled band and debris carries the fixed lifetime.
pub open spec fn spec_effect_wf(e: Effect) -> bool {
    match e {
        Effect::AudioCue { pitch, .. } => CUE_PITCH_MIN <= pitch <= CUE_PITCH_MAX,
        Effect::SpawnDebris { debris } => debris.lifetime_ms == DEBRIS_LIFETIME_MS,
        Effect::Explode { .. } => true,
    }
}

/// How many of the first `m` effects are debris spawns.
pub open spec fn spec_debris_count(effs: Seq<Effect>, m: int) -> int
    decreases m,
{
    if m <= 0 {
        0int
    } else {
        spec_debris_count(effs, m - 1) + if effs[m - 1] is SpawnDebris {
            1int
        } else {
            0int
        }
    }
}

/// How many debris spawns the whole effect list holds.
pub open spec fn spec_debris_total(effs: Seq<Effect>) -> int {
    spec_debris_count(effs, effs.len() as int)
}

/// How many of the first `m` effects are audio cues of `kind` for `npc`.
pub open spec fn spec_cue_count(effs: Seq<Effect>, npc: int, kind: CueKind, m: int) -> int
    decreases m,
{
    if m <= 0 {
        0int
    } else {
        spec_cue_count(effs, npc, kind, m - 1) + if effs[m - 1] matches Effect::AudioCue {
            npc: n,
            kind: k,
            ..
        } && n == npc && k == kind {
            1int
        } else {
            0int
        }
    }
}

/// How many audio cues of `kind` for `npc` the whole effect list holds.
pub open spec fn spec_cue_total(effs: Seq<Effect>, npc: int, kind: CueKind) -> int {
    spec_cue_count(effs, npc, kind, effs.len() as int)
}

/// Counting ignores everything past `m`: two lists that agree on their
/// first `m` effects hold the same counts there.
proof fn lemma_debris_count_congruent(e1: Seq<Effect>, e2: Seq<Effect>, m: int)
    requires
        forall|j: int| 0 <= j < m ==> e1[j] == e2[j],
    ensures
        spec_debris_count(e1, m) == spec_debris_count(e2, m),
    decreases m,
{
    if m > 0 {
        lemma_debris_count_congruent(e1, e2, m - 1);
    }
}

/// Cue counting ignores everything past `m` as well.
proof fn lemma_cue_count_congruent(
    e1: Seq<Effect>,
    e2: Seq<Effect>,
    npc: int,
    kind: CueKind,
    m: int,
)
    requires
        forall|j: int| 0 <= j < m ==> e1[j] == e2[j],
    ensures
        spec_cue_count(e1, npc, kind, m) == spec_cue_count(e2, npc, kind, m),
    decreases m,
{
    if m > 0 {
        lemma_cue_count_congruent(e1, e2, npc, kind, m - 1);
    }
}

/// How many of the first `n` slots had their removal newly scheduled
/// between the two registry snapshots.
pub open spec fn spec_new_removals(pre: Seq<Npc>, post: Seq<Npc>, n: int) -> int
    decreases n,
{
    if n <= 0 {
        0int
    } else {
        spec_new_removals(pre, post, n - 1) + if !pre[n - 1].removal_scheduled && post[n
            - 1].removal_scheduled {
            1int
        } else {
            0int
        }
    }
}

/// Moving the later snapshot from `a` to `b` while touching only slot `t`
/// — and never withdrawing a scheduled removal — changes the count of new
/// removals exactly by what happened at `t`.
proof fn lemma_new_removals_update(pre: Seq<Npc>, a: Seq<Npc>, b: Seq<Npc>, t: int, n: int)
    requires
        forall|j: int| 0 <= j < n && j != t ==> a[j] == b[j],
        forall|j: int|
            0 <= j < n ==> ((#[trigger] a[j]).removal_scheduled ==> b[j].removal_scheduled),
    ensures
        spec_new_removals(pre, b, n) == spec_new_removals(pre, a, n) + if 0 <= t < n
            && !pre[t].removal_scheduled && b[t].removal_scheduled
            && !a[t].removal_scheduled {
            1int
        } else {
            0int
        },
    decreases n,
{
    if n > 0 {
        lemma_new_removals_update(pre, a, b, t, n - 1);
    }
}

/// New removals only look at the scheduled flags: two earlier snapshots
/// that agree on them see the same count against any later snapshot.
proof fn lemma_new_removals_pre_congruent(pre1: Seq<Npc>, pre2: Seq<Npc>, post: Seq<Npc>, n: int)
    requires
        forall|j: int|
            0 <= j < n ==> (#[trigger] pre1[j]).removal_scheduled
                == pre2[j].removal_scheduled,
    ensures
        spec_new_removals(pre1, post, n) == spec_new_removals(pre2, post, n),
    decreases n,
{
    if n > 0 {
        lemma_new_removals_pre_congruent(pre1, pre2, post, n - 1);
    }
}

/// A registry compared with itself has no new removals.
proof fn lemma_new_removals_refl(pre: Seq<Npc>, n: int)
    ensures
        spec_new_removals(pre, pre, n) == 0,
    decreases n,
{
    if n > 0 {
        lemma_new_removals_refl(pre, n - 1);
    }
}

/// The damage an event deals to the NPC in slot `i`: the event's amount if
/// it is a damage event aimed there, zero otherwise.
pub open spec fn spec_damage_to(e: Event, i: int) -> u32 {
    match e {
        Event::Damage { target, amount } => {
            if target == i {
                amount
            } else {
                0u32
            }
        },
        _ => 0u32,
    }
}

/// The current health left in slot `i`'s pool after the whole event
/// sequence, each damage event saturating at zero.
pub open spec fn spec_health_after(cur: u32, evs: Seq<Event>, i: int) -> u32
    decreases evs.len(),
{
    if evs.len() == 0 {
        cur
    } else {
        spec_damaged(spec_health_after(cur, evs.drop_last(), i), spec_damage_to(evs.last(), i))
    }
}

/// Damage only ever lowers a pool: after any event sequence the current
/// value is at most what it started as.
pub proof fn lemma_health_after_le(cur: u32, evs: Seq<Event>, i: int)
    ensures
        spec_health_after(cur, evs, i) <= cur,
    decreases evs.len(),
{
    if evs.len() > 0 {
        lemma_health_after_le(cur, evs.drop_last(), i);
    }
}

/// The damage amounts aimed at slot `i`, in queue order.
pub open spec fn spec_damages_for(evs: Seq<Event>, i: int) -> Seq<u32>
    decreases evs.len(),
{
    if evs.len() == 0 {
        Seq::empty()
    } else {
        let rest = spec_damages_for(evs.drop_last(), i);
        match evs.last() {
            Event::Damage { target, amount } => {
                if target == i {
                    rest.push(amount)
                } else {
                    rest
                }
            },
            _ => rest,
        }
    }
}

/// The world's pool arithmetic is the health module's: what the event
/// sequence leaves of a slot's pool equals applying exactly the damage
/// amounts aimed at that slot, in order.
pub proof fn lemma_health_after_is_damaged_by_all(cur: u32, evs: Seq<Event>, i: int)
    ensures
        spec_health_after(cur, evs, i) == spec_damaged_by_all(cur, spec_damages_for(evs, i)),
    decreases evs.len(),
{
    if evs.len() > 0 {
        lemma_health_after_is_damaged_by_all(cur, evs.drop_last(), i);
        let rest = spec_damages_for(evs.drop_last(), i);
        match evs.last() {
            Event::Damage { target, amount } => {
                if target == i {
                    assert(rest.push(amount).drop_last() =~= rest);
                    assert(rest.push(amount).last() == amount);
                }
            },
            _ => {},
        }
    }
}

/// The one-shot death law at the world level: a slot alive when the tick
/// began has its removal scheduled exactly when the total damage aimed at
/// it reaches its pool — however that total is split over events — and
/// the death reaction fires exactly on that crossing edge.
pub proof fn lemma_lethal_total_schedules_removal(cur: u32, evs: Seq<Event>, i: int)
    requires
        cur > 0,
    ensures
        (spec_health_after(cur, evs, i) == 0) <==> spec_damage_total(spec_damages_for(evs, i))
            >= cur,
        spec_death_edges(cur, spec_damages_for(evs, i)) == if spec_damage_total(
            spec_damages_for(evs, i),
        ) >= cur {
            1nat
        } else {
            0nat
        },
{
    lemma_health_after_is_damaged_by_all(cur, evs, i);
    lemma_damaged_by_all_is_total(cur, spec_damages_for(evs, i));
    lemma_death_edge_fires_exactly_once(cur, spec_damages_for(evs, i));
}

/// Whether the sequence holds a damage event aimed at slot `i`.
pub open spec fn spec_has_damage(evs: Seq<Event>, i: int) -> bool
    decreases evs.len(),
{
    if evs.len() == 0 {
        false
    } else {
        spec_has_damage(evs.drop_last(), i) || (evs.last() matches Event::Damage {
            target,
            ..
        } && target == i)
    }
}

/// Whether the sequence reports slot `i`'s attack as finished.
pub open spec fn spec_has_attack_finished(evs: Seq<Event>, i: int) -> bool
    decreases evs.len(),
{
    if evs.len() == 0 {
        false
    } else {
        spec_has_attack_finished(evs.drop_last(), i) || (evs.last()
            matches Event::AttackFinished { target } && target == i)
    }
}

/// Whether the sequence reports slot `i`'s vocalization as ended.
pub open spec fn spec_has_vocal_finished(evs: Seq<Event>, i: int) -> bool
    decreases evs.len(),
{
    if evs.len() == 0 {
        false
    } else {
        spec_has_vocal_finished(evs.drop_last(), i) || (evs.last()
            matches Event::VocalizationFinished { target } && target == i)
    }
}

/// The chance that `dt_ms` milliseconds pass without an idle
/// vocalization, in parts per million: the per-millisecond survival
/// compounded once per millisecond, in truncating integer arithmetic.
pub open spec fn spec_vocal_survival_ppm(dt_ms: u64) -> u64
    decreases dt_ms,
{
    if dt_ms == 0 {
        1_000_000u64
    } else {
        (spec_vocal_survival_ppm((dt_ms - 1) as u64) * IDLE_VOCAL_SURVIVAL_PPM
            / 1_000_000) as u64
    }
}

/// The survival fraction never exceeds one.
pub proof fn lemma_vocal_survival_le_one(dt_ms: u64)
    ensures
        spec_vocal_survival_ppm(dt_ms) <= 1_000_000,
    decreases dt_ms,
{
    if dt_ms > 0 {
        lemma_vocal_survival_le_one((dt_ms - 1) as u64);
        let prev = spec_vocal_survival_ppm((dt_ms - 1) as u64);
        assert(prev * IDLE_VOCAL_SURVIVAL_PPM / 1_000_000 <= 1_000_000) by (nonlinear_arith)
            requires
                0 <= prev <= 1_000_000,
                IDLE_VOCAL_SURVIVAL_PPM == 999_643,
        ;
    }
}

/// Once the survival fraction has been rounded down to nothing it stays
/// there.
pub proof fn lemma_vocal_survival_zero_absorbing(i: u64, j: u64)
    requires
        i <= j,
        spec_vocal_survival_ppm(i) == 0,
    ensures
        spec_vocal_survival_ppm(j) == 0,
    decreases j,
{
    if j > i {
        lemma_vocal_survival_zero_absorbing(i, (j - 1) as u64);
    }
}

/// The chance, in parts per thousand, that a tick of `dt_ms` triggers an
/// idle vocalization: one minus the compounded per-millisecond survival.
/// Compounding makes the trigger rate independent of how time is cut
/// into ticks — two ticks roll the same overall chance as one tick of
/// their combined length, up to integer rounding.
pub open spec fn spec_vocal_tick_chance(dt_ms: u64) -> u32 {
    ((1_000_000 - spec_vocal_survival_ppm(dt_ms)) / 1000) as u32
}

/// Compute the idle vocalization chance of [`spec_vocal_tick_chance`].
pub fn vocal_tick_chance(dt_ms: u64) -> (c: u32)
    ensures
        c == spec_vocal_tick_chance(dt_ms),
        c <= CHANCE_SCALE,
{
    let mut survival: u64 = 1_000_000;
    let mut elapsed: u64 = 0;
    while elapsed < dt_ms && survival > 0
        invariant
            elapsed <= dt_ms,
            survival == spec_vocal_survival_ppm(elapsed),
            survival <= 1_000_000,
        decreases dt_ms - elapsed,
    {
        assert(survival * IDLE_VOCAL_SURVIVAL_PPM <= 1_000_000_000_000) by (nonlinear_arith)
            requires
                survival <= 1_000_000,
                IDLE_VOCAL_SURVIVAL_PPM == 999_643,
        ;
        survival = survival * IDLE_VOCAL_SURVIVAL_PPM / 1_000_000;
        elapsed = elapsed + 1;
        proof {
            lemma_vocal_survival_le_one(elapsed);
        }
    }
    proof {
        if survival == 0 {
            lemma_vocal_survival_zero_absorbing(elapsed, dt_ms);
        }
        lemma_vocal_survival_le_one(dt_ms);
    }
    ((1_000_000 - survival) / 1000) as u32
}

/// How one tick's behavior step turns slot `s` into slot `t`: an absent
/// slot is untouched; a present one runs the state machine once — which
/// skips it entirely when the navigation report is absent — gains a
/// pinned attack intent when the step begins an attack, and may begin an
/// idle vocalization only if it was chasing and silent. Health,
/// position, profile and bookkeeping are untouched.
pub open spec fn spec_behavior_stepped(s: Npc, t: Npc, dt_ms: u64, player_pos: Vec3) -> bool {
    if !s.present {
        t == s
    } else {
        &&& t.stats == s.stats
        &&& t.health == s.health
        &&& t.position == s.position
        &&& t.nav == s.nav
        &&& t.explode_on_death == s.explode_on_death
        &&& t.removal_scheduled == s.removal_scheduled
        &&& t.present
        &&& t.state == spec_step_state(s.state, dt_ms, s.nav, s.attack is Some)
        &&& (spec_starts_attack(s.state, s.nav) ==> (t.attack matches Some(it)
            && it.direction == spec_attack_offset(s.position, player_pos)
            && it.damage == s.stats.attack_damage
            && s.stats.attack_speed_min <= it.speed <= s.stats.attack_speed_max))
        &&& (!spec_starts_attack(s.state, s.nav) ==> t.attack == s.attack)
        &&& (s.vocalizing ==> t.vocalizing)
        &&& (t.vocalizing ==> s.vocalizing || s.state is Chase)
    }
}

/// What the death reaction of the NPC in slot `s` (index `target`)
/// appends to the effect list: exactly [`DEBRIS_PER_DEATH`] debris spawns,
/// each scaled to the NPC's size, carrying the fixed lifetime, and placed
/// within the fixed-radius ball around the NPC; then, exactly when the NPC
/// carries the explode-on-death marker, one explosion signal.
pub open spec fn spec_death_effects_appended(
    pre: Seq<Effect>,
    post: Seq<Effect>,
    s: Npc,
    target: int,
) -> bool {
    &&& post.len() == pre.len() + DEBRIS_PER_DEATH + if s.explode_on_death {
        1int
    } else {
        0int
    }
    &&& pre.is_prefix_of(post)
    &&& forall|k: int|
        pre.len() <= k < pre.len() + DEBRIS_PER_DEATH ==> (#[trigger] post[k]
            matches Effect::SpawnDebris { debris } && debris.scale == s.stats.size
            && debris.lifetime_ms == DEBRIS_LIFETIME_MS && spec_in_ball(
            s.position,
            debris.position,
            DEBRIS_OFFSET_RADIUS as int,
        ))
    &&& (s.explode_on_death ==> (post.last() matches Effect::Explode { npc } && npc == target))
}

/// How one damage event turns world `pre` into world `post`.
///
/// An event aimed outside the registry, or at a slot whose entity is gone,
/// changes nothing. Otherwise the amount always comes off the target's
/// health pool, saturating at zero — a stagger is a behavioral side
/// effect, never a damage gate. When the event is the crossing edge the
/// death reaction fires: debris, scheduled removal, the explosion signal
/// for marked slots, and no state change. When the target survives and is
/// chasing, the stagger roll may send it to `Stagger` for a duration
/// sampled from its profile's range, announced by one stagger cue; a
/// chance of zero never staggers and a chance of one always does. A
/// target already attacking or staggered keeps its state whatever the
/// roll said. Already-dead targets are left entirely untouched.
pub open spec fn spec_damage_event_rel(
    pre: CombatWorld,
    post: CombatWorld,
    target: int,
    amount: u32,
) -> bool {
    &&& post.player_pos == pre.player_pos
    &&& post.events == pre.events
    &&& post.npcs@.len() == pre.npcs@.len()
    &&& if !(0 <= target < pre.npcs@.len() && pre.npcs@[target].present) {
        post.npcs == pre.npcs && post.effects == pre.effects
    } else {
        let s = pre.npcs@[target];
        let t = post.npcs@[target];
        &&& forall|j: int|
            0 <= j < pre.npcs@.len() && j != target ==> post.npcs@[j] == pre.npcs@[j]
        &&& t.stats == s.stats
        &&& t.position == s.position
        &&& t.nav == s.nav
        &&& t.explode_on_death == s.explode_on_death
        &&& t.present == s.present
        &&& t.attack == s.attack
        &&& t.vocalizing == s.vocalizing
        &&& t.health.max == s.health.max
        &&& t.health.current == spec_damaged(s.health.current, amount)
        &&& t.removal_scheduled == (s.removal_scheduled || spec_dies_now(
            s.health.current,
            amount,
        ))
        &&& if spec_dies_now(s.health.current, amount) {
            &&& t.state == s.state
            &&& spec_death_effects_appended(pre.effects@, post.effects@, s, target)
        } else if s.health.current == 0 || !(s.state is Chase) {
            t.state == s.state && post.effects == pre.effects
        } else {
            ||| (t.state == s.state && post.effects == pre.effects
                && s.stats.stagger_chance != CHANCE_SCALE)
            ||| (s.stats.stagger_chance != 0 && (t.state matches BehaviorState::Stagger {
                remaining_ms,
            } && s.stats.stagger_min_ms <= remaining_ms <= s.stats.stagger_max_ms)
                && post.effects@.len() == pre.effects@.len() + 1 && pre.effects@.is_prefix_of(
                post.effects@,
            ) && (post.effects@.last() matches Effect::AudioCue { npc, kind, pitch } && npc
                == target && kind is Stagger && CUE_PITCH_MIN <= pitch <= CUE_PITCH_MAX))
        }
    }
}

/// What one damage event does to the effect list, by count: the crossing
/// edge appends exactly the death batch of debris, a successful stagger
/// roll appends exactly one stagger cue for the target, and nothing else
/// changes any cue or debris count.
pub open spec fn spec_damage_event_effects(
    pre: CombatWorld,
    post: CombatWorld,
    target: int,
    amount: u32,
) -> bool {
    let valid = 0 <= target < pre.npcs@.len() && pre.npcs@[target].present;
    let died = valid && spec_dies_now(pre.npcs@[target].health.current, amount);
    let staggered = valid && post.npcs@[target].state != pre.npcs@[target].state;
    &&& spec_debris_total(post.effects@) == spec_debris_total(pre.effects@) + if died {
        DEBRIS_PER_DEATH as int
    } else {
        0int
    }
    &&& forall|n: int, k: CueKind|
        #[trigger] spec_cue_total(post.effects@, n, k) == spec_cue_total(pre.effects@, n, k)
            + if staggered && n == target && k is Stagger {
            1int
        } else {
            0int
        }
}

/// How the whole event sequence of one tick, processed in order, turns
/// slot `s` (index `i`) into slot `t`. An absent slot is untouched.
/// Otherwise: all damage aimed at the slot comes off its pool in order;
/// removal is scheduled exactly when the pool crosses to zero under that
/// damage; the attack intent is dropped exactly when the resolver reported
/// it finished; the vocalizing flag is cleared exactly when the audio
/// collaborator reported the vocalization over. The state can change only
/// under damage, and only from `Chase` into a `Stagger` whose duration
/// lies in the profile's range — never out of `Attack` or `Stagger`.
pub open spec fn spec_events_applied(s: Npc, t: Npc, evs: Seq<Event>, i: int) -> bool {
    if !s.present {
        t == s
    } else {
        &&& t.stats == s.stats
        &&& t.position == s.position
        &&& t.nav == s.nav
        &&& t.explode_on_death == s.explode_on_death
        &&& t.present
        &&& t.health.max == s.health.max
        &&& t.health.current == spec_health_after(s.health.current, evs, i)
        &&& t.attack == if spec_has_attack_finished(evs, i) {
            None
        } else {
            s.attack
        }
        &&& t.vocalizing == if spec_has_vocal_finished(evs, i) {
            false
        } else {
            s.vocalizing
        }
        &&& t.removal_scheduled == (s.removal_scheduled || (s.health.current > 0
            && spec_health_after(s.health.current, evs, i) == 0))
        &&& (!spec_has_damage(evs, i) ==> t.state == s.state)
        &&& (t.state == s.state || (s.state is Chase && (t.state matches BehaviorState::Stagger {
            remaining_ms,
        } && s.stats.stagger_min_ms <= remaining_ms <= s.stats.stagger_max_ms)))
        &&& (s.stats.stagger_chance == 0 ==> t.state == s.state)
        &&& (s.stats.stagger_chance == CHANCE_SCALE && s.state is Chase && spec_has_damage(evs, i)
            && spec_health_after(s.health.current, evs, i) > 0 ==> t.state is Stagger)
    }
}

/// How one whole tick turns slot `s` (index `i`) into slot `t`, given the
/// events that were queued when the tick began.
///
/// A slot whose removal was scheduled gives up its entity at the barrier
/// and is otherwise untouched; an absent slot stays as it is. A present
/// slot runs the state machine once — which skips it entirely when the
/// navigation report is absent — then the event sequence: damage lands
/// on the pool in order, a surviving chaser
/// may be staggered for a sampled duration, the attack intent appears
/// when the tick begins an attack and disappears when the resolver
/// reported it finished, and removal is scheduled exactly when the pool
/// crosses to zero this tick.
pub open spec fn spec_ticked(
    s: Npc,
    t: Npc,
    evs: Seq<Event>,
    dt_ms: u64,
    player_pos: Vec3,
    i: int,
) -> bool {
    if !s.present || s.removal_scheduled {
        t == (Npc { present: false, ..s })
    } else {
        let stepped = spec_step_state(s.state, dt_ms, s.nav, s.attack is Some);
        &&& t.stats == s.stats
        &&& t.position == s.position
        &&& t.nav == s.nav
        &&& t.explode_on_death == s.explode_on_death
        &&& t.present
        &&& t.health.max == s.health.max
        &&& t.health.current == spec_health_after(s.health.current, evs, i)
        &&& (!spec_has_damage(evs, i) ==> t.state == stepped)
        &&& (t.state == stepped || (stepped is Chase && (t.state matches BehaviorState::Stagger {
            remaining_ms,
        } && s.stats.stagger_min_ms <= remaining_ms <= s.stats.stagger_max_ms)))
        &&& (s.stats.stagger_chance == 0 ==> t.state == stepped)
        &&& (s.stats.stagger_chance == CHANCE_SCALE && stepped is Chase && spec_has_damage(evs, i)
            && spec_health_after(s.health.current, evs, i) > 0 ==> t.state is Stagger)
        &&& (spec_has_attack_finished(evs, i) ==> t.attack is None)
        &&& (!spec_has_attack_finished(evs, i) ==> if spec_starts_attack(s.state, s.nav) {
            t.attack matches Some(it) && it.direction == spec_attack_offset(s.position, player_pos)
                && it.damage == s.stats.attack_damage && s.stats.attack_speed_min <= it.speed
                <= s.stats.attack_speed_max
        } else {
            t.attack == s.attack
        })
        &&& (spec_has_vocal_finished(evs, i) ==> !t.vocalizing)
        &&& (!spec_has_vocal_finished(evs, i) ==> (s.vocalizing ==> t.vocalizing) && (t.vocalizing
            ==> s.vocalizing || s.state is Chase))
        &&& t.removal_scheduled == (s.health.current > 0 && spec_health_after(
            s.health.current,
            evs,
            i,
        ) == 0)
    }
}

/// The audio cues one tick's behavior step appends for slot `n`, by
/// kind: exactly one attack cue when the step begins an attack, exactly
/// one idle cue when the idle roll set the vocalizing flag — which can
/// happen only to a present, silent chaser — and never a stagger cue.
pub open spec fn spec_behavior_cue_delta(pre: Seq<Npc>, post: Seq<Npc>, n: int, k: CueKind) -> int {
    if !(0 <= n < pre.len() && pre[n].present) {
        0int
    } else {
        match k {
            CueKind::Attack => if spec_starts_attack(pre[n].state, pre[n].nav) {
                1int
            } else {
                0int
            },
            CueKind::Idle => if !pre[n].vocalizing && post[n].vocalizing {
                1int
            } else {
                0int
            },
            CueKind::Stagger => 0int,
        }
    }
}

/// The audio cues the event point appends for slot `n`, by kind: exactly
/// one stagger cue when the slot's state changed — which only a damage
/// event's successful roll can do — and nothing else.
pub open spec fn spec_event_cue_delta(pre: Seq<Npc>, post: Seq<Npc>, n: int, k: CueKind) -> int {
    if 0 <= n < pre.len() && pre[n].present && k is Stagger && post[n].state != pre[n].state {
        1int
    } else {
        0int
    }
}

/// The registry, the queue, the effect list, and the player's position.
pub struct CombatWorld {
    /// The NPC registry, indexed by spawn order.
    pub npcs: Vec<Npc>,
    /// The player's position. The world holds exactly one, so the
    /// single-player invariant is structural rather than asserted.
    pub player_pos: Vec3,
    /// Signals queued for the next tick's event point, processed in order.
    pub events: Vec<Event>,
    /// Side effects emitted so far; the caller drains them between ticks.
    pub effects: Vec<Effect>,
}

impl CombatWorld {
    /// The world invariant: every slot is well-formed.
    pub open spec fn wf(self) -> bool {
        &&& self.player_pos.in_world()
        &&& forall|i: int| 0 <= i < self.npcs@.len() ==> (#[trigger] self.npcs@[i]).wf()
    }

    /// An empty world with the player at the given position.
    pub fn new(player_pos: Vec3) -> (w: CombatWorld)
        requires
            player_pos.in_world(),
        ensures
            w.wf(),
            w.npcs@.len() == 0,
            w.events@.len() == 0,
            w.effects@.len() == 0,
            w.player_pos == player_pos,
    {
        CombatWorld { npcs: Vec::new(), player_pos, events: Vec::new(), effects: Vec::new() }
    }

    /// Move the player; the navigation and physics collaborators own the
    /// actual movement, the controller only reads the result.
    pub fn set_player_pos(&mut self, pos: Vec3)
        requires
            old(self).wf(),
            pos.in_world(),
        ensures
            final(self).wf(),
            *final(self) == (CombatWorld { player_pos: pos, ..*old(self) }),
    {
        self.player_pos = pos;
    }

    /// Spawn one NPC: a full health pool taken from the profile, chasing,
    /// with no attack under way. Returns the new slot's index.
    pub fn spawn_npc(&mut self, stats: NpcStats, position: Vec3, explode_on_death: bool) -> (id:
        usize)
        requires
            old(self).wf(),
            stats.wf(),
            position.in_world(),
        ensures
            final(self).wf(),
            id == old(self).npcs@.len(),
            final(self).npcs@ == old(self).npcs@.push(
                Npc {
                    stats,
                    health: Health { current: stats.health, max: stats.health },
                    state: BehaviorState::Chase,
                    attack: None,
                    position,
                    nav: None,
                    vocalizing: false,
                    explode_on_death,
                    removal_scheduled: false,
                    present: true,
                },
            ),
            final(self).player_pos == old(self).player_pos,
            final(self).events == old(self).events,
            final(self).effects == old(self).effects,
    {
        let id = self.npcs.len();
        let slot = Npc {
            stats,
            health: Health::new(stats.health),
            state: BehaviorState::Chase,
            attack: None,
            position,
            nav: None,
            vocalizing: false,
            explode_on_death,
            removal_scheduled: false,
            present: true,
        };
        self.npcs.push(slot);
        id
    }

    /// Record what the navigation link reports for a slot this tick.
    pub fn set_nav_status(&mut self, id: usize, nav: Option<NavStatus>)
        requires
            old(self).wf(),
            id < old(self).npcs@.len(),
        ensures
            final(self).wf(),
            final(self).npcs@ == old(self).npcs@.update(id as int, Npc {
                nav,
                ..old(self).npcs@[id as int]
            }),
            final(self).player_pos == old(self).player_pos,
            final(self).events == old(self).events,
            final(self).effects == old(self).effects,
    {
        let slot = self.npcs[id];
        self.npcs[id] = Npc { nav, ..slot };
    }

    /// Record where the navigation collaborator moved a slot's entity.
    pub fn set_position(&mut self, id: usize, position: Vec3)
        requires
            old(self).wf(),
            id < old(self).npcs@.len(),
            position.in_world(),
        ensures
            final(self).wf(),
            final(self).npcs@ == old(self).npcs@.update(id as int, Npc {
                position,
                ..old(self).npcs@[id as int]
            }),
            final(self).player_pos == old(self).player_pos,
            final(self).events == old(self).events,
            final(self).effects == old(self).effects,
    {
        let slot = self.npcs[id];
        self.npcs[id] = Npc { position, ..slot };
    }

    /// Queue a damage event for the next tick's event point.
    pub fn queue_damage(&mut self, target: usize, amount: u32)
        requires
            old(self).wf(),
        ensures
            final(self).wf(),
            final(self).events@ == old(self).events@.push(Event::Damage { target, amount }),
            final(self).npcs == old(self).npcs,
            final(self).player_pos == old(self).player_pos,
            final(self).effects == old(self).effects,
    {
        self.events.push(Event::Damage { target, amount });
    }

    /// Queue the attack resolver's completion signal for a slot.
    pub fn queue_attack_finished(&mut self, target: usize)
        requires
            old(self).wf(),
        ensures
            final(self).wf(),
            final(self).events@ == old(self).events@.push(Event::AttackFinished { target }),
            final(self).npcs == old(self).npcs,
            final(self).player_pos == old(self).player_pos,
            final(self).effects == old(self).effects,
    {
        self.events.push(Event::AttackFinished { target });
    }

    /// Queue the audio collaborator's notice that a slot's idle
    /// vocalization ended.
    pub fn queue_vocalization_finished(&mut self, target: usize)
        requires
            old(self).wf(),
        ensures
            final(self).wf(),
            final(self).events@ == old(self).events@.push(
                Event::VocalizationFinished { target },
            ),
            final(self).npcs == old(self).npcs,
            final(self).player_pos == old(self).player_pos,
            final(self).effects == old(self).effects,
    {
        self.events.push(Event::VocalizationFinished { target });
    }

    /// Hand the effects emitted so far to the caller, leaving the list
    /// empty.
    pub fn drain_effects(&mut self) -> (out: Vec<Effect>)
        requires
            old(self).wf(),
        ensures
            final(self).wf(),
            out@ == old(self).effects@,
            final(self).effects@.len() == 0,
            final(self).npcs == old(self).npcs,
            final(self).player_pos == old(self).player_pos,
            final(self).events == old(self).events,
    {
        let mut out: Vec<Effect> = Vec::new();
        core::mem::swap(&mut out, &mut self.effects);
        out
    }

    /// The death reaction: the fan-out fired once, at the moment a slot's
    /// health pool crosses to zero. It spawns exactly
    /// [`DEBRIS_PER_DEATH`] debris objects — each sampling a kind from the
    /// weighted pool with replacement and an offset from within the
    /// fixed-radius ball, scaled to the NPC's size — schedules the entity
    /// for removal at the next tick's barrier, and fires the explosion
    /// signal exactly when the slot carries the explode-on-death marker.
    pub fn death_reaction(&mut self, target: usize)
        requires
            old(self).wf(),
            target < old(self).npcs@.len(),
        ensures
            final(self).wf(),
            final(self).npcs@.len() == old(self).npcs@.len(),
            forall|j: int|
                0 <= j < old(self).npcs@.len() && j != target ==> final(self).npcs@[j] == old(
                    self,
                ).npcs@[j],
            final(self).npcs@[target as int] == (Npc {
                removal_scheduled: true,
                ..old(self).npcs@[target as int]
            }),
            spec_death_effects_appended(
                old(self).effects@,
                final(self).effects@,
                old(self).npcs@[target as int],
                target as int,
            ),
            spec_debris_total(final(self).effects@) == spec_debris_total(old(self).effects@)
                + DEBRIS_PER_DEATH,
            forall|n: int, k: CueKind|
                spec_cue_total(#[trigger] final(self).effects@, n, k) == spec_cue_total(
                    old(self).effects@,
                    n,
                    k,
                ),
            final(self).player_pos == old(self).player_pos,
            final(self).events == old(self).events,
    {
        let slot = self.npcs[target];
        let ghost pre = self.effects@;
        let mut spawned: usize = 0;
        while spawned < DEBRIS_PER_DEATH
            invariant
                slot.wf(),
                spawned <= DEBRIS_PER_DEATH,
                self.effects@.len() == pre.len() + spawned,
                pre.is_prefix_of(self.effects@),
                forall|k: int|
                    pre.len() <= k < self.effects@.len() ==> (#[trigger] self.effects@[k]
                        matches Effect::SpawnDebris { debris } && debris.scale == slot.stats.size
                        && debris.lifetime_ms == DEBRIS_LIFETIME_MS && spec_in_ball(
                        slot.position,
                        debris.position,
                        DEBRIS_OFFSET_RADIUS as int,
                    )),
                spec_debris_count(self.effects@, self.effects@.len() as int)
                    == spec_debris_count(pre, pre.len() as int) + spawned,
                forall|n: int, k: CueKind|
                    spec_cue_count(#[trigger] self.effects@, n, k, self.effects@.len() as int)
                        == spec_cue_count(pre, n, k, pre.len() as int),
                self.npcs == old(self).npcs,
                self.player_pos == old(self).player_pos,
                self.events == old(self).events,
                old(self).wf(),
            decreases DEBRIS_PER_DEATH - spawned,
        {
            let ticket = sample_u64_inclusive(0, DEBRIS_POOL_SIZE - 1);
            let kind = debris_kind_of_ticket(ticket);
            let offset = sample_offset_in_ball(DEBRIS_OFFSET_RADIUS);
            let position = slot.position.translated(offset);
            let ghost before = self.effects@;
            self.effects.push(
                Effect::SpawnDebris {
                    debris: DebrisSpawn {
                        kind,
                        position,
                        scale: slot.stats.size,
                        lifetime_ms: DEBRIS_LIFETIME_MS,
                    },
                },
            );
            proof {
                assert(before.is_prefix_of(self.effects@));
                assert(pre.is_prefix_of(self.effects@));
                lemma_debris_count_congruent(before, self.effects@, before.len() as int);
                assert forall|n: int, k: CueKind|
                    spec_cue_count(#[trigger] self.effects@, n, k, self.effects@.len() as int)
                        == spec_cue_count(pre, n, k, pre.len() as int) by {
                    lemma_cue_count_congruent(before, self.effects@, n, k, before.len() as int);
                }
            }
            spawned = spawned + 1;
        }
        if slot.explode_on_death {
            let ghost before = self.effects@;
            self.effects.push(Effect::Explode { npc: target });
            proof {
                assert(before.is_prefix_of(self.effects@));
                assert(pre.is_prefix_of(self.effects@));
                assert forall|k: int|
                    pre.len() <= k < pre.len() + DEBRIS_PER_DEATH implies (
                #[trigger] self.effects@[k] matches Effect::SpawnDebris { debris }
                    && debris.scale == slot.stats.size && debris.lifetime_ms == DEBRIS_LIFETIME_MS
                    && spec_in_ball(
                    slot.position,
                    debris.position,
                    DEBRIS_OFFSET_RADIUS as int,
                )) by {
                    assert(self.effects@[k] == before[k]);
                }
                lemma_debris_count_congruent(before, self.effects@, before.len() as int);
                assert forall|n: int, k: CueKind|
                    spec_cue_count(#[trigger] self.effects@, n, k, self.effects@.len() as int)
                        == spec_cue_count(pre, n, k, pre.len() as int) by {
                    lemma_cue_count_congruent(before, self.effects@, n, k, before.len() as int);
                }
            }
        }
        self.npcs[target] = Npc { removal_scheduled: true, ..slot };
    }

    /// Handle one damage event, as [`spec_damage_event_rel`] lays down:
    /// damage always lands on the health pool; the crossing edge fires the
    /// death reaction exactly once; a surviving chaser rolls for a
    /// stagger.
    pub fn apply_damage_event(&mut self, target: usize, amount: u32)
        requires
            old(self).wf(),
        ensures
            final(self).wf(),
            spec_damage_event_rel(*old(self), *final(self), target as int, amount),
            spec_damage_event_effects(*old(self), *final(self), target as int, amount),
    {
        if target >= self.npcs.len() {
            return ;
        }
        let slot = self.npcs[target];
        if !slot.present {
            return ;
        }
        let mut next = slot;
        let died_now = slot.health.current > 0 && amount >= slot.health.current;
        if amount >= slot.health.current {
            next.health = Health { current: 0, max: slot.health.max };
        } else {
            next.health = Health { current: slot.health.current - amount, max: slot.health.max };
        }
        self.npcs[target] = next;
        if died_now {
            self.death_reaction(target);
            return ;
        }
        if next.health.current == 0 {
            return ;
        }
        if matches!(slot.state, BehaviorState::Chase) {
            let success = roll_chance(slot.stats.stagger_chance);
            if success {
                let duration = sample_u64_inclusive(
                    slot.stats.stagger_min_ms,
                    slot.stats.stagger_max_ms,
                );
                let staggered = apply_stagger_roll(next.state, true, duration);
                let mut after = self.npcs[target];
                after.state = staggered;
                self.npcs[target] = after;
                let pitch = sample_u64_inclusive(CUE_PITCH_MIN, CUE_PITCH_MAX);
                let ghost before = self.effects@;
                self.effects.push(
                    Effect::AudioCue { npc: target, kind: CueKind::Stagger, pitch },
                );
                proof {
                    assert(before.is_prefix_of(self.effects@));
                    lemma_debris_count_congruent(before, self.effects@, before.len() as int);
                    assert forall|n: int, k: CueKind|
                        #[trigger] spec_cue_total(self.effects@, n, k) == spec_cue_total(
                            before,
                            n,
                            k,
                        ) + if n == target && k is Stagger {
                            1int
                        } else {
                            0int
                        } by {
                        lemma_cue_count_congruent(before, self.effects@, n, k, before.len() as int);
                    }
                }
            }
        }
    }

    /// The event point of one tick: process every queued event, oldest
    /// first, then leave the queue empty. Each slot ends up as
    /// [`spec_events_applied`] lays down for the whole sequence.
    fn event_phase(&mut self)
        requires
            old(self).wf(),
            forall|i: int|
                0 <= i < old(self).npcs@.len() ==> ((#[trigger] old(self).npcs@[i]).present
                    ==> !old(self).npcs@[i].removal_scheduled),
        ensures
            final(self).wf(),
            final(self).npcs@.len() == old(self).npcs@.len(),
            final(self).events@.len() == 0,
            final(self).player_pos == old(self).player_pos,
            forall|i: int|
                0 <= i < old(self).npcs@.len() ==> spec_events_applied(
                    old(self).npcs@[i],
                    #[trigger] final(self).npcs@[i],
                    old(self).events@,
                    i,
                ),
            old(self).effects@.is_prefix_of(final(self).effects@),
            forall|k: int|
                old(self).effects@.len() <= k < final(self).effects@.len() ==> spec_effect_wf(
                    #[trigger] final(self).effects@[k],
                ),
            spec_debris_total(final(self).effects@) == spec_debris_total(old(self).effects@)
                + DEBRIS_PER_DEATH * spec_new_removals(
                old(self).npcs@,
                final(self).npcs@,
                old(self).npcs@.len() as int,
            ),
            forall|n: int, k: CueKind|
                #[trigger] spec_cue_total(final(self).effects@, n, k) == spec_cue_total(
                    old(self).effects@,
                    n,
                    k,
                ) + spec_event_cue_delta(old(self).npcs@, final(self).npcs@, n, k),
    {
        let ghost evs = self.events@;
        let n_events = self.events.len();
        proof {
            lemma_new_removals_refl(old(self).npcs@, old(self).npcs@.len() as int);
        }
        let mut k: usize = 0;
        while k < n_events
            invariant
                old(self).wf(),
                self.wf(),
                forall|i: int|
                    0 <= i < old(self).npcs@.len() ==> ((#[trigger] old(self).npcs@[i]).present
                        ==> !old(self).npcs@[i].removal_scheduled),
                evs == old(self).events@,
                n_events == evs.len(),
                k <= n_events,
                self.npcs@.len() == old(self).npcs@.len(),
                self.events == old(self).events,
                self.player_pos == old(self).player_pos,
                forall|i: int|
                    0 <= i < old(self).npcs@.len() ==> spec_events_applied(
                        old(self).npcs@[i],
                        #[trigger] self.npcs@[i],
                        evs.take(k as int),
                        i,
                    ),
                old(self).effects@.is_prefix_of(self.effects@),
                forall|j: int|
                    old(self).effects@.len() <= j < self.effects@.len() ==> spec_effect_wf(
                        #[trigger] self.effects@[j],
                    ),
                spec_debris_total(self.effects@) == spec_debris_total(old(self).effects@)
                    + DEBRIS_PER_DEATH * spec_new_removals(
                    old(self).npcs@,
                    self.npcs@,
                    old(self).npcs@.len() as int,
                ),
                forall|nn: int, kk: CueKind|
                    #[trigger] spec_cue_total(self.effects@, nn, kk) == spec_cue_total(
                        old(self).effects@,
                        nn,
                        kk,
                    ) + spec_event_cue_delta(old(self).npcs@, self.npcs@, nn, kk),
            decreases n_events - k,
        {
            let ghost mid = *self;
            proof {
                assert(evs.take(k + 1).drop_last() =~= evs.take(k as int));
                assert(evs.take(k + 1).last() == evs[k as int]);
            }
            let e = self.events[k];
            match e {
                Event::Damage { target, amount } => {
                    self.apply_damage_event(target, amount);
                    proof {
                        assert(spec_damage_event_rel(mid, *self, target as int, amount));
                        assert forall|i: int|
                            0 <= i < old(self).npcs@.len() implies spec_events_applied(
                            old(self).npcs@[i],
                            #[trigger] self.npcs@[i],
                            evs.take(k + 1),
                            i,
                        ) by {
                            let s0 = old(self).npcs@[i];
                            let sm = mid.npcs@[i];
                            let s1 = self.npcs@[i];
                            assert(spec_events_applied(s0, sm, evs.take(k as int), i));
                            assert(spec_damage_to(evs[k as int], i) == if i == target {
                                amount
                            } else {
                                0u32
                            });
                            if s0.present && i == target {
                                assert(sm.present);
                                lemma_health_after_le(s0.health.current, evs.take(k as int), i);
                                lemma_health_after_le(s0.health.current, evs.take(k + 1), i);
                                assert(s1.health.current == spec_damaged(
                                    sm.health.current,
                                    amount,
                                ));
                                assert(spec_health_after(s0.health.current, evs.take(k + 1), i)
                                    == spec_damaged(
                                    spec_health_after(s0.health.current, evs.take(k as int), i),
                                    amount,
                                ));
                                assert(spec_damaged(0u32, amount) == 0);
                            } else if s0.present {
                                assert(s1 == sm);
                                assert(spec_health_after(s0.health.current, evs.take(k + 1), i)
                                    == spec_health_after(s0.health.current, evs.take(k as int), i));
                            } else {
                                assert(sm == s0);
                                assert(s1 == sm);
                            }
                        }
                        assert forall|j: int|
                            old(self).effects@.len() <= j
                                < self.effects@.len() implies spec_effect_wf(
                            #[trigger] self.effects@[j],
                        ) by {
                            if j < mid.effects@.len() {
                                assert(mid.effects@.is_prefix_of(self.effects@));
                                assert(self.effects@[j] == mid.effects@[j]);
                            }
                        }
                        let n_all = old(self).npcs@.len() as int;
                        let t = target as int;
                        assert(spec_damage_event_effects(mid, *self, t, amount));
                        let died = 0 <= t < n_all && mid.npcs@[t].present && spec_dies_now(
                            mid.npcs@[t].health.current,
                            amount,
                        );
                        assert forall|j: int|
                            0 <= j < n_all && j != t implies self.npcs@[j] == mid.npcs@[j] by {
                        }
                        assert forall|j: int|
                            0 <= j < n_all && (#[trigger] mid.npcs@[j]).removal_scheduled
                                implies self.npcs@[j].removal_scheduled by {
                        }
                        lemma_new_removals_update(
                            old(self).npcs@,
                            mid.npcs@,
                            self.npcs@,
                            t,
                            n_all,
                        );
                        if 0 <= t < n_all && mid.npcs@[t].present {
                            assert(spec_events_applied(
                                old(self).npcs@[t],
                                mid.npcs@[t],
                                evs.take(k as int),
                                t,
                            ));
                            assert(old(self).npcs@[t].present);
                            assert(!old(self).npcs@[t].removal_scheduled);
                            if spec_dies_now(mid.npcs@[t].health.current, amount) {
                                assert(!mid.npcs@[t].removal_scheduled);
                                assert(self.npcs@[t].removal_scheduled);
                            } else {
                                assert(self.npcs@[t].removal_scheduled
                                    == mid.npcs@[t].removal_scheduled);
                            }
                        }
                        assert(spec_new_removals(old(self).npcs@, self.npcs@, n_all)
                            == spec_new_removals(old(self).npcs@, mid.npcs@, n_all) + if died {
                            1int
                        } else {
                            0int
                        });
                        assert forall|nn: int, kk: CueKind|
                            #[trigger] spec_cue_total(self.effects@, nn, kk) == spec_cue_total(
                            old(self).effects@,
                            nn,
                            kk,
                        ) + spec_event_cue_delta(old(self).npcs@, self.npcs@, nn, kk) by {
                            if 0 <= nn < n_all {
                                assert(spec_events_applied(
                                    old(self).npcs@[nn],
                                    mid.npcs@[nn],
                                    evs.take(k as int),
                                    nn,
                                ));
                                if nn != target {
                                    assert(self.npcs@[nn] == mid.npcs@[nn]);
                                }
                            }
                        }
                    }
                },
                Event::AttackFinished { target } => {
                    if target < self.npcs.len() {
                        let slot = self.npcs[target];
                        if slot.present {
                            self.npcs[target] = Npc { attack: None, ..slot };
                        }
                    }
                    proof {
                        assert forall|i: int|
                            0 <= i < old(self).npcs@.len() implies spec_events_applied(
                            old(self).npcs@[i],
                            #[trigger] self.npcs@[i],
                            evs.take(k + 1),
                            i,
                        ) by {
                            assert(spec_events_applied(
                                old(self).npcs@[i],
                                mid.npcs@[i],
                                evs.take(k as int),
                                i,
                            ));
                            assert(spec_damage_to(evs[k as int], i) == 0);
                        }
                        let n_all = old(self).npcs@.len() as int;
                        lemma_new_removals_update(
                            old(self).npcs@,
                            mid.npcs@,
                            self.npcs@,
                            target as int,
                            n_all,
                        );
                        assert forall|nn: int, kk: CueKind|
                            #[trigger] spec_cue_total(self.effects@, nn, kk) == spec_cue_total(
                            old(self).effects@,
                            nn,
                            kk,
                        ) + spec_event_cue_delta(old(self).npcs@, self.npcs@, nn, kk) by {
                            if 0 <= nn < n_all {
                                assert(self.npcs@[nn].state == mid.npcs@[nn].state);
                            }
                        }
                    }
                },
                Event::VocalizationFinished { target } => {
                    if target < self.npcs.len() {
                        let slot = self.npcs[target];
                        if slot.present {
                            self.npcs[target] = Npc { vocalizing: false, ..slot };
                        }
                    }
                    proof {
                        assert forall|i: int|
                            0 <= i < old(self).npcs@.len() implies spec_events_applied(
                            old(self).npcs@[i],
                            #[trigger] self.npcs@[i],
                            evs.take(k + 1),
                            i,
                        ) by {
                            assert(spec_events_applied(
                                old(self).npcs@[i],
                                mid.npcs@[i],
                                evs.take(k as int),
                                i,
                            ));
                            assert(spec_damage_to(evs[k as int], i) == 0);
                        }
                        let n_all = old(self).npcs@.len() as int;
                        lemma_new_removals_update(
                            old(self).npcs@,
                            mid.npcs@,
                            self.npcs@,
                            target as int,
                            n_all,
                        );
                        assert forall|nn: int, kk: CueKind|
                            #[trigger] spec_cue_total(self.effects@, nn, kk) == spec_cue_total(
                            old(self).effects@,
                            nn,
                            kk,
                        ) + spec_event_cue_delta(old(self).npcs@, self.npcs@, nn, kk) by {
                            if 0 <= nn < n_all {
                                assert(self.npcs@[nn].state == mid.npcs@[nn].state);
                            }
                        }
                    }
                },
            }
            k = k + 1;
        }
        proof {
            assert(evs.take(n_events as int) =~= evs);
        }
        self.events.clear();
    }

    /// Run one simulation tick of `dt_ms` milliseconds.
    ///
    /// In order: the removal barrier gives up entities whose removal an
    /// earlier tick scheduled; every present NPC runs the behavior state
    /// machine once (an entity whose navigation link has no status is
    /// skipped entirely); then the queued events are processed oldest
    /// first and the queue is emptied. Every slot ends as [`spec_ticked`]
    /// lays down. The appended effects are accounted for exactly: one
    /// attack cue per transition into `Attack`, one stagger cue per
    /// stagger, idle cues only for silent chasers and tied to the
    /// vocalizing flag, and one debris batch of [`DEBRIS_PER_DEATH`] per
    /// newly scheduled removal — each effect within the bounds of
    /// [`spec_effect_wf`].
    pub fn tick(&mut self, dt_ms: u64)
        requires
            old(self).wf(),
        ensures
            final(self).wf(),
            final(self).npcs@.len() == old(self).npcs@.len(),
            final(self).events@.len() == 0,
            final(self).player_pos == old(self).player_pos,
            forall|i: int|
                0 <= i < old(self).npcs@.len() ==> spec_ticked(
                    old(self).npcs@[i],
                    #[trigger] final(self).npcs@[i],
                    old(self).events@,
                    dt_ms,
                    old(self).player_pos,
                    i,
                ),
            old(self).effects@.is_prefix_of(final(self).effects@),
            forall|k: int|
                old(self).effects@.len() <= k < final(self).effects@.len() ==> spec_effect_wf(
                    #[trigger] final(self).effects@[k],
                ),
            spec_debris_total(final(self).effects@) == spec_debris_total(old(self).effects@)
                + DEBRIS_PER_DEATH * spec_new_removals(
                old(self).npcs@,
                final(self).npcs@,
                old(self).npcs@.len() as int,
            ),
            forall|n: int|
                #[trigger] spec_cue_total(final(self).effects@, n, CueKind::Attack)
                    == spec_cue_total(old(self).effects@, n, CueKind::Attack) + if 0 <= n < old(
                    self,
                ).npcs@.len() && old(self).npcs@[n].present
                    && !old(self).npcs@[n].removal_scheduled && spec_starts_attack(
                    old(self).npcs@[n].state,
                    old(self).npcs@[n].nav,
                ) {
                    1int
                } else {
                    0int
                },
            forall|n: int|
                #[trigger] spec_cue_total(final(self).effects@, n, CueKind::Stagger)
                    == spec_cue_total(old(self).effects@, n, CueKind::Stagger) + if 0 <= n < old(
                    self,
                ).npcs@.len() && old(self).npcs@[n].present
                    && !old(self).npcs@[n].removal_scheduled && final(self).npcs@[n].state
                    != spec_step_state(
                    old(self).npcs@[n].state,
                    dt_ms,
                    old(self).npcs@[n].nav,
                    old(self).npcs@[n].attack is Some,
                ) {
                    1int
                } else {
                    0int
                },
            forall|n: int|
                0 <= #[trigger] spec_cue_total(final(self).effects@, n, CueKind::Idle)
                    - spec_cue_total(old(self).effects@, n, CueKind::Idle) <= 1,
            forall|n: int|
                #[trigger] spec_cue_total(final(self).effects@, n, CueKind::Idle)
                    == spec_cue_total(old(self).effects@, n, CueKind::Idle) + 1 ==> (0 <= n < old(
                    self,
                ).npcs@.len() && old(self).npcs@[n].present
                    && !old(self).npcs@[n].removal_scheduled && old(self).npcs@[n].state is Chase
                    && !old(self).npcs@[n].vocalizing),
            forall|n: int|
                0 <= n < old(self).npcs@.len() && old(self).npcs@[n].present && !old(
                    self,
                ).npcs@[n].removal_scheduled && !spec_has_vocal_finished(
                    old(self).events@,
                    n,
                ) ==> (#[trigger] final(self).npcs@[n]).vocalizing == (old(
                    self,
                ).npcs@[n].vocalizing || spec_cue_total(final(self).effects@, n, CueKind::Idle)
                    == spec_cue_total(old(self).effects@, n, CueKind::Idle) + 1),
    {
        self.apply_removals();
        let ghost w1 = *self;
        self.behavior_phase(dt_ms);
        let ghost w2 = *self;
        proof {
            assert forall|i: int|
                0 <= i < self.npcs@.len() && (#[trigger] self.npcs@[i]).present
                    implies !self.npcs@[i].removal_scheduled by {
                assert(spec_behavior_stepped(w1.npcs@[i], self.npcs@[i], dt_ms, w1.player_pos));
                assert(w1.npcs@[i] == (Npc {
                    present: old(self).npcs@[i].present && !old(self).npcs@[i].removal_scheduled,
                    ..old(self).npcs@[i]
                }));
            }
        }
        self.event_phase();
        proof {
            let evs = old(self).events@;
            let n_all = old(self).npcs@.len() as int;
            lemma_new_removals_pre_congruent(old(self).npcs@, w2.npcs@, self.npcs@, n_all);
            assert forall|n: int|
                #[trigger] spec_cue_total(self.effects@, n, CueKind::Attack) == spec_cue_total(
                old(self).effects@,
                n,
                CueKind::Attack,
            ) + if 0 <= n < n_all && old(self).npcs@[n].present && !old(
                self,
            ).npcs@[n].removal_scheduled && spec_starts_attack(
                old(self).npcs@[n].state,
                old(self).npcs@[n].nav,
            ) {
                1int
            } else {
                0int
            } by {
                if 0 <= n < n_all {
                    assert(spec_behavior_stepped(w1.npcs@[n], w2.npcs@[n], dt_ms, w1.player_pos));
                }
            }
            assert forall|n: int|
                #[trigger] spec_cue_total(self.effects@, n, CueKind::Stagger) == spec_cue_total(
                old(self).effects@,
                n,
                CueKind::Stagger,
            ) + if 0 <= n < n_all && old(self).npcs@[n].present && !old(
                self,
            ).npcs@[n].removal_scheduled && self.npcs@[n].state != spec_step_state(
                old(self).npcs@[n].state,
                dt_ms,
                old(self).npcs@[n].nav,
                old(self).npcs@[n].attack is Some,
            ) {
                1int
            } else {
                0int
            } by {
                if 0 <= n < n_all {
                    assert(spec_behavior_stepped(w1.npcs@[n], w2.npcs@[n], dt_ms, w1.player_pos));
                }
            }
            assert forall|n: int|
                0 <= #[trigger] spec_cue_total(self.effects@, n, CueKind::Idle) - spec_cue_total(
                old(self).effects@,
                n,
                CueKind::Idle,
            ) <= 1 by {
                if 0 <= n < n_all {
                    assert(spec_behavior_stepped(w1.npcs@[n], w2.npcs@[n], dt_ms, w1.player_pos));
                }
            }
            assert forall|i: int| 0 <= i < old(self).npcs@.len() implies spec_ticked(
                old(self).npcs@[i],
                #[trigger] self.npcs@[i],
                evs,
                dt_ms,
                old(self).player_pos,
                i,
            ) by {
                let s = old(self).npcs@[i];
                let m0 = w1.npcs@[i];
                let m1 = w2.npcs@[i];
                let t = self.npcs@[i];
                assert(m0 == (Npc { present: s.present && !s.removal_scheduled, ..s }));
                assert(spec_behavior_stepped(m0, m1, dt_ms, w1.player_pos));
                assert(spec_events_applied(m1, t, w2.events@, i));
                if s.present && !s.removal_scheduled {
                    assert(m0 == s);
                } else {
                    assert(!m0.present);
                    assert(m1 == m0);
                    assert(t == m1);
                }
            }
            assert forall|k: int|
                old(self).effects@.len() <= k < self.effects@.len() implies spec_effect_wf(
                #[trigger] self.effects@[k],
            ) by {
                if k < w2.effects@.len() {
                    assert(w2.effects@.is_prefix_of(self.effects@));
                    assert(self.effects@[k] == w2.effects@[k]);
                    if k < w1.effects@.len() {
                        assert(w1.effects@.is_prefix_of(w2.effects@));
                        assert(w2.effects@[k] == w1.effects@[k]);
                    }
                }
            }
        }
    }

    /// The removal barrier: every slot whose removal was scheduled in an
    /// earlier tick gives up its entity. Runs first in a tick, so an
    /// entity that died stays queryable until the next tick begins.
    fn apply_removals(&mut self)
        requires
            old(self).wf(),
        ensures
            final(self).wf(),
            final(self).npcs@.len() == old(self).npcs@.len(),
            forall|i: int|
                0 <= i < old(self).npcs@.len() ==> final(self).npcs@[i] == (Npc {
                    present: old(self).npcs@[i].present && !old(self).npcs@[i].removal_scheduled,
                    ..old(self).npcs@[i]
                }),
            final(self).player_pos == old(self).player_pos,
            final(self).events == old(self).events,
            final(self).effects == old(self).effects,
    {
        let n = self.npcs.len();
        let mut i: usize = 0;
        while i < n
            invariant
                old(self).wf(),
                n == old(self).npcs@.len(),
                self.npcs@.len() == n,
                i <= n,
                forall|j: int|
                    0 <= j < i ==> self.npcs@[j] == (Npc {
                        present: old(self).npcs@[j].present && !old(
                            self,
                        ).npcs@[j].removal_scheduled,
                        ..old(self).npcs@[j]
                    }),
                forall|j: int| i <= j < n ==> self.npcs@[j] == old(self).npcs@[j],
                self.player_pos == old(self).player_pos,
                self.events == old(self).events,
                self.effects == old(self).effects,
            decreases n - i,
        {
            let slot = self.npcs[i];
            self.npcs[i] = Npc { present: slot.present && !slot.removal_scheduled, ..slot };
            i = i + 1;
        }
        assert forall|i: int| 0 <= i < self.npcs@.len() implies (#[trigger] self.npcs@[i]).wf() by {
            assert(old(self).npcs@[i].wf());
        }
    }

    /// The behavior step of one tick: run the state machine once for every
    /// present slot, attach the attack intent and emit the attack
    /// vocalization when a transition begins an attack, and roll for idle
    /// vocalizations of silent chasers.
    fn behavior_phase(&mut self, dt_ms: u64)
        requires
            old(self).wf(),
        ensures
            final(self).wf(),
            final(self).npcs@.len() == old(self).npcs@.len(),
            forall|i: int|
                0 <= i < old(self).npcs@.len() ==> spec_behavior_stepped(
                    old(self).npcs@[i],
                    #[trigger] final(self).npcs@[i],
                    dt_ms,
                    old(self).player_pos,
                ),
            final(self).player_pos == old(self).player_pos,
            final(self).events == old(self).events,
            old(self).effects@.is_prefix_of(final(self).effects@),
            forall|k: int|
                old(self).effects@.len() <= k < final(self).effects@.len() ==> spec_effect_wf(
                    #[trigger] final(self).effects@[k],
                ),
            spec_debris_total(final(self).effects@) == spec_debris_total(old(self).effects@),
            forall|n: int, k: CueKind|
                #[trigger] spec_cue_total(final(self).effects@, n, k) == spec_cue_total(
                    old(self).effects@,
                    n,
                    k,
                ) + spec_behavior_cue_delta(old(self).npcs@, final(self).npcs@, n, k),
    {
        let n = self.npcs.len();
        let ghost old_effects = self.effects@;
        let mut i: usize = 0;
        while i < n
            invariant
                old(self).wf(),
                n == old(self).npcs@.len(),
                self.npcs@.len() == n,
                i <= n,
                forall|j: int|
                    0 <= j < i ==> spec_behavior_stepped(
                        old(self).npcs@[j],
                        #[trigger] self.npcs@[j],
                        dt_ms,
                        old(self).player_pos,
                    ),
                forall|j: int| i <= j < n ==> self.npcs@[j] == old(self).npcs@[j],
                self.player_pos == old(self).player_pos,
                self.events == old(self).events,
                old_effects == old(self).effects@,
                old_effects.is_prefix_of(self.effects@),
                forall|k: int|
                    old_effects.len() <= k < self.effects@.len() ==> spec_effect_wf(
                        #[trigger] self.effects@[k],
                    ),
                spec_debris_total(self.effects@) == spec_debris_total(old_effects),
                forall|nn: int, kk: CueKind|
                    #[trigger] spec_cue_total(self.effects@, nn, kk) == spec_cue_total(
                        old_effects,
                        nn,
                        kk,
                    ) + if nn < i {
                        spec_behavior_cue_delta(old(self).npcs@, self.npcs@, nn, kk)
                    } else {
                        0int
                    },
            decreases n - i,
        {
            let slot = self.npcs[i];
            if slot.present {
                let starts = matches!(slot.state, BehaviorState::Chase) && matches!(
                    slot.nav,
                    Some(NavStatus::ReachedTarget),
                );
                assert(starts == spec_starts_attack(slot.state, slot.nav));
                let speed_draw = if starts {
                    sample_u64_inclusive(slot.stats.attack_speed_min, slot.stats.attack_speed_max)
                } else {
                    slot.stats.attack_speed_min
                };
                let attacking = matches!(slot.attack, Some(_));
                let step = step_behavior(
                    slot.state,
                    dt_ms,
                    slot.nav,
                    attacking,
                    slot.position,
                    self.player_pos,
                    &slot.stats,
                    speed_draw,
                );
                let mut next = slot;
                next.state = step.0;
                let ghost effects_before = self.effects@;
                if let Some(intent) = step.1 {
                    next.attack = Some(intent);
                    let pitch = sample_u64_inclusive(CUE_PITCH_MIN, CUE_PITCH_MAX);
                    self.effects.push(Effect::AudioCue { npc: i, kind: CueKind::Attack, pitch });
                    proof {
                        lemma_debris_count_congruent(
                            effects_before,
                            self.effects@,
                            effects_before.len() as int,
                        );
                        assert forall|nn: int, kk: CueKind|
                            #[trigger] spec_cue_total(self.effects@, nn, kk) == spec_cue_total(
                                effects_before,
                                nn,
                                kk,
                            ) + if nn == i && kk is Attack {
                                1int
                            } else {
                                0int
                            } by {
                            lemma_cue_count_congruent(
                                effects_before,
                                self.effects@,
                                nn,
                                kk,
                                effects_before.len() as int,
                            );
                        }
                    }
                }
                let ghost effects_mid = self.effects@;
                if matches!(slot.state, BehaviorState::Chase) && !slot.vocalizing {
                    let chance = vocal_tick_chance(dt_ms);
                    if roll_chance(chance) {
                        next.vocalizing = true;
                        let pitch = sample_u64_inclusive(CUE_PITCH_MIN, CUE_PITCH_MAX);
                        self.effects.push(
                            Effect::AudioCue { npc: i, kind: CueKind::Idle, pitch },
                        );
                        proof {
                            lemma_debris_count_congruent(
                                effects_mid,
                                self.effects@,
                                effects_mid.len() as int,
                            );
                            assert forall|nn: int, kk: CueKind|
                                #[trigger] spec_cue_total(self.effects@, nn, kk)
                                    == spec_cue_total(effects_mid, nn, kk) + if nn == i
                                    && kk is Idle {
                                    1int
                                } else {
                                    0int
                                } by {
                                lemma_cue_count_congruent(
                                    effects_mid,
                                    self.effects@,
                                    nn,
                                    kk,
                                    effects_mid.len() as int,
                                );
                            }
                        }
                    }
                }
                let ghost npcs_top = self.npcs@;
                self.npcs[i] = next;
                proof {
                    assert(old_effects.is_prefix_of(self.effects@)) by {
                        assert(effects_before.is_prefix_of(self.effects@));
                    }
                    assert forall|nn: int, kk: CueKind|
                        #[trigger] spec_cue_total(self.effects@, nn, kk) == spec_cue_total(
                            old_effects,
                            nn,
                            kk,
                        ) + if nn < i + 1 {
                            spec_behavior_cue_delta(old(self).npcs@, self.npcs@, nn, kk)
                        } else {
                            0int
                        } by {
                        if 0 <= nn && nn < n && nn != i {
                            assert(self.npcs@[nn] == npcs_top[nn]);
                            assert(spec_behavior_cue_delta(old(self).npcs@, self.npcs@, nn, kk)
                                == spec_behavior_cue_delta(old(self).npcs@, npcs_top, nn, kk));
                        }
                    }
                }
            }
            i = i + 1;
        }
        assert forall|i: int| 0 <= i < self.npcs@.len() implies (#[trigger] self.npcs@[i]).wf() by {
            assert(old(self).npcs@[i].wf());
            assert(spec_behavior_stepped(
                old(self).npcs@[i],
                self.npcs@[i],
                dt_ms,
                old(self).player_pos,
            ));
        }
    }
}

} // verus!
