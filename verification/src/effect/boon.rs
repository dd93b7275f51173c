//! Boons that change attributes: might and fury.

use crate::character::CombatSecond;
use crate::effect::{grows, is_steady, Effect};
use crate::fixed::{lemma_div_monotone, lemma_mul_monotone, Fixed};
use crate::stats::{
    lemma_boon_duration_monotone, mods_nonneg, stats_le, stats_nonneg, Boon, Modifiers, PerStat,
    Stats,
};
use vstd::prelude::*;

verus! {

/// Might, as the combat summary gives it: 30 power and 30 condition damage for each stack.
#[derive(Clone, Copy, Debug, PartialEq, Eq, Structural, Hash, Default)]
pub struct Might;

impl Effect for Might {
    open spec fn temporary(&self, stats: Stats, mods: Modifiers, combat: CombatSecond) -> (
        Stats,
        Modifiers,
    ) {
        let stacks = combat.calc_boon_uptime(&stats, &mods, Boon::Might);
        let bonus = stacks.mul(Fixed::from_int(30));
        (
            PerStat {
                power: stats.power.add(bonus),
                condition_damage: stats.condition_damage.add(bonus),
                ..stats
            },
            mods,
        )
    }

    fn add_permanent(&self, stats: &mut Stats, mods: &mut Modifiers) {
    }

    fn distribute(&self, stats: &mut Stats, mods: &mut Modifiers) {
    }

    fn add_temporary(&self, stats: &mut Stats, mods: &mut Modifiers, combat: &CombatSecond) {
        let stacks = combat.calc_boon_uptime(stats, mods, Boon::Might);
        let bonus = stacks.mul(Fixed::from_int(30));
        stats.power = stats.power.add(bonus);
        stats.condition_damage = stats.condition_damage.add(bonus);
    }

    fn combat_procs(&self, events: &CombatSecond, combat: &mut CombatSecond) {
    }
}

/// Fury, as the combat summary gives it: 25 percent critical chance at full uptime.
#[derive(Clone, Copy, Debug, PartialEq, Eq, Structural, Hash, Default)]
pub struct Fury;

impl Effect for Fury {
    open spec fn temporary(&self, stats: Stats, mods: Modifiers, combat: CombatSecond) -> (
        Stats,
        Modifiers,
    ) {
        let stacks = combat.calc_boon_uptime(&stats, &mods, Boon::Fury);
        (stats, Modifiers { crit_chance: mods.crit_chance.add(stacks.mul(Fixed::from_int(25))), ..mods })
    }

    fn add_permanent(&self, stats: &mut Stats, mods: &mut Modifiers) {
    }

    fn distribute(&self, stats: &mut Stats, mods: &mut Modifiers) {
    }

    fn add_temporary(&self, stats: &mut Stats, mods: &mut Modifiers, combat: &CombatSecond) {
        let stacks = combat.calc_boon_uptime(stats, mods, Boon::Fury);
        mods.crit_chance = mods.crit_chance.add(stacks.mul(Fixed::from_int(25)));
    }

    fn combat_procs(&self, events: &CombatSecond, combat: &mut CombatSecond) {
    }
}

/// Might from a number of points per second, to which the extra boon points of the modifiers
/// are added.  At most 25 stacks.
#[derive(Clone, Copy, Debug, PartialEq, Eq, Structural)]
pub struct OldMight(pub Fixed);

impl Effect for OldMight {
    open spec fn temporary(&self, stats: Stats, mods: Modifiers, combat: CombatSecond) -> (
        Stats,
        Modifiers,
    ) {
        let points = self.0.add(mods.boon_points.might);
        let stacks = points.mul(stats.boon_duration(&mods, Boon::Might)).div(Fixed::from_int(100)).min(
            Fixed::from_int(25),
        );
        let bonus = stacks.mul(Fixed::from_int(30));
        (
            PerStat {
                power: stats.power.add(bonus),
                condition_damage: stats.condition_damage.add(bonus),
                ..stats
            },
            mods,
        )
    }

    fn add_permanent(&self, stats: &mut Stats, mods: &mut Modifiers) {
    }

    fn distribute(&self, stats: &mut Stats, mods: &mut Modifiers) {
    }

    fn add_temporary(&self, stats: &mut Stats, mods: &mut Modifiers, combat: &CombatSecond) {
        let points = self.0.add(mods.boon_points.might);
        let stacks = points.mul(stats.boon_duration(mods, Boon::Might)).div(Fixed::from_int(100)).min(
            Fixed::from_int(25),
        );
        let bonus = stacks.mul(Fixed::from_int(30));
        stats.power = stats.power.add(bonus);
        stats.condition_damage = stats.condition_damage.add(bonus);
    }

    fn combat_procs(&self, events: &CombatSecond, combat: &mut CombatSecond) {
    }
}

/// Fury from a number of points per second, to which the extra boon points of the modifiers
/// are added.  At most full uptime.
#[derive(Clone, Copy, Debug, PartialEq, Eq, Structural)]
pub struct OldFury(pub Fixed);

impl Effect for OldFury {
    open spec fn temporary(&self, stats: Stats, mods: Modifiers, combat: CombatSecond) -> (
        Stats,
        Modifiers,
    ) {
        let points = self.0.add(mods.boon_points.fury);
        let stacks = points.mul(stats.boon_duration(&mods, Boon::Fury)).div(Fixed::from_int(100)).min(
            Fixed::one(),
        );
        (stats, Modifiers { crit_chance: mods.crit_chance.add(stacks.mul(Fixed::from_int(25))), ..mods })
    }

    fn add_permanent(&self, stats: &mut Stats, mods: &mut Modifiers) {
    }

    fn distribute(&self, stats: &mut Stats, mods: &mut Modifiers) {
    }

    fn add_temporary(&self, stats: &mut Stats, mods: &mut Modifiers, combat: &CombatSecond) {
        let points = self.0.add(mods.boon_points.fury);
        let stacks = points.mul(stats.boon_duration(mods, Boon::Fury)).div(Fixed::from_int(100)).min(
            Fixed::one(),
        );
        mods.crit_chance = mods.crit_chance.add(stacks.mul(Fixed::from_int(25)));
    }

    fn combat_procs(&self, events: &CombatSecond, combat: &mut CombatSecond) {
    }
}

/// Might from points that are not negative is steady: more concentration never gives fewer
/// stacks.
pub proof fn lemma_old_might_steady(e: OldMight)
    requires
        0 <= e.0.raw,
    ensures
        is_steady(&e),
{
    assert forall|s: Stats, t: Stats, m: Modifiers, c: CombatSecond, d: CombatSecond|
        stats_nonneg(s) && stats_le(s, t) && mods_nonneg(m) implies grows(
        #[trigger] e.temporary(s, m, c),
        #[trigger] e.temporary(t, m, d),
    ) by {
        let hundred = Fixed::from_int(100);
        let points = e.0.add(m.boon_points.might);
        lemma_boon_duration_monotone(s, t, m, Boon::Might);
        let duration_s = s.boon_duration(&m, Boon::Might);
        let duration_t = t.boon_duration(&m, Boon::Might);
        lemma_mul_monotone(points, duration_s, points, duration_t);
        lemma_div_monotone(points.mul(duration_s), points.mul(duration_t), hundred);
        let stacks_s = points.mul(duration_s).div(hundred).min(Fixed::from_int(25));
        let stacks_t = points.mul(duration_t).div(hundred).min(Fixed::from_int(25));
        lemma_mul_monotone(stacks_s, Fixed::from_int(30), stacks_t, Fixed::from_int(30));
    }
}

} // verus!
