//! A bounded health pool with one-shot death signaling.
//!
//! The current value stays within `[0, max]`. Damage saturates at zero and
//! reports the crossing edge exactly once: `apply_damage` returns `true` only
//! for the event that takes the pool from a positive value to zero. Further
//! damage on an empty pool is absorbed silently, so a death reaction driven
//! by that flag fires at most once over the pool's whole lifetime.

use vstd::prelude::*;

verus! {

/// A health pool. `current` is always within `[0, max]`.
#[derive(Clone, Copy, Debug, PartialEq, Eq, Structural)]
pub struct Health {
    pub current: u32,
    pub max: u32,
}

/// What a damage event of `amount` leaves of a current value of `cur`:
/// subtraction saturating at zero.
pub open spec fn spec_damaged(cur: u32, amount: u32) -> u32 {
    if amount >= cur {
        0u32
    } else {
        (cur - amount) as u32
    }
}

/// Whether a damage event of `amount` on a current value of `cur` is the
/// crossing edge: the pool was positive and is emptied by this very event.
pub open spec fn spec_dies_now(cur: u32, amount: u32) -> bool {
    cur > 0 && spec_damaged(cur, amount) == 0
}

impl Health {
    /// The pool's invariant.
    pub open spec fn wf(self) -> bool {
        self.current <= self.max
    }

    /// A full pool of the given capacity.
    pub fn new(max: u32) -> (h: Health)
        ensures
            h.wf(),
            h.current == max,
            h.max == max,
    {
        Health { current: max, max }
    }

    /// Whether the pool is empty; an entity with an empty pool is dead.
    pub fn is_dead(&self) -> (r: bool)
        ensures
            r == (self.current == 0),
    {
        self.current == 0
    }

    /// Apply one damage event. The current value drops by `amount`,
    /// saturating at zero; the result reports whether this event emptied a
    /// previously positive pool, which is the one-shot death edge.
    pub fn apply_damage(&mut self, amount: u32) -> (died_now: bool)
        ensures
            final(self).current == spec_damaged(old(self).current, amount),
            final(self).max == old(self).max,
            died_now == spec_dies_now(old(self).current, amount),
            old(self).wf() ==> final(self).wf(),
    {
        let was_alive = self.current > 0;
        if amount >= self.current {
            self.current = 0;
        } else {
            self.current = self.current - amount;
        }
        was_alive && self.current == 0
    }

    /// Restore the pool to its capacity.
    pub fn heal_full(&mut self)
        ensures
            final(self).current == old(self).max,
            final(self).max == old(self).max,
            final(self).wf(),
    {
        self.current = self.max;
    }
}

/// The current value left after a whole sequence of damage events, applied
/// in order, each saturating at zero.
pub open spec fn spec_damaged_by_all(cur: u32, amounts: Seq<u32>) -> u32
    decreases amounts.len(),
{
    if amounts.len() == 0 {
        cur
    } else {
        spec_damaged(spec_damaged_by_all(cur, amounts.drop_last()), amounts.last())
    }
}

/// How many of the damage events in `amounts`, applied in order to a pool
/// currently at `cur`, are crossing edges.
pub open spec fn spec_death_edges(cur: u32, amounts: Seq<u32>) -> nat
    decreases amounts.len(),
{
    if amounts.len() == 0 {
        0nat
    } else {
        spec_death_edges(cur, amounts.drop_last()) + if spec_dies_now(
            spec_damaged_by_all(cur, amounts.drop_last()),
            amounts.last(),
        ) {
            1nat
        } else {
            0nat
        }
    }
}

/// The total of a sequence of damage amounts, as a mathematical integer.
pub open spec fn spec_damage_total(amounts: Seq<u32>) -> int
    decreases amounts.len(),
{
    if amounts.len() == 0 {
        0int
    } else {
        spec_damage_total(amounts.drop_last()) + amounts.last()
    }
}

/// A total of damage amounts is never negative.
pub proof fn lemma_damage_total_nonneg(amounts: Seq<u32>)
    ensures
        spec_damage_total(amounts) >= 0,
    decreases amounts.len(),
{
    if amounts.len() > 0 {
        lemma_damage_total_nonneg(amounts.drop_last());
    }
}

/// After a sequence of damage events, the pool holds exactly the starting
/// value minus the total damage, saturating at zero.
pub proof fn lemma_damaged_by_all_is_total(cur: u32, amounts: Seq<u32>)
    ensures
        spec_damaged_by_all(cur, amounts) == if spec_damage_total(amounts) >= cur {
            0int
        } else {
            cur - spec_damage_total(amounts)
        },
    decreases amounts.len(),
{
    if amounts.len() > 0 {
        lemma_damaged_by_all_is_total(cur, amounts.drop_last());
    }
}

/// A pool that is already empty yields no death edge, whatever further
/// damage arrives.
pub proof fn lemma_no_edge_once_dead(amounts: Seq<u32>)
    ensures
        spec_death_edges(0, amounts) == 0,
    decreases amounts.len(),
{
    if amounts.len() > 0 {
        lemma_no_edge_once_dead(amounts.drop_last());
        lemma_damage_total_nonneg(amounts.drop_last());
        lemma_damaged_by_all_is_total(0, amounts.drop_last());
    }
}

/// The one-shot death law: over any sequence of damage events applied in
/// order to a pool holding a positive value, the death edge is reported
/// exactly once if the total damage reaches the current value — even when
/// several events together exceed it — and never otherwise. In particular it
/// is never reported twice.
pub proof fn lemma_death_edge_fires_exactly_once(cur: u32, amounts: Seq<u32>)
    requires
        cur > 0,
    ensures
        spec_death_edges(cur, amounts) == if spec_damage_total(amounts) >= cur {
            1nat
        } else {
            0nat
        },
    decreases amounts.len(),
{
    if amounts.len() > 0 {
        lemma_death_edge_fires_exactly_once(cur, amounts.drop_last());
        lemma_damaged_by_all_is_total(cur, amounts.drop_last());
        lemma_damaged_by_all_is_total(cur, amounts);
    }
}

} // verus!
