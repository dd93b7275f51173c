//! The per-build model interface, the one-second combat summary, and the calibration of a
//! damage model from one observed sample.

use crate::fixed::{
    lemma_div_nonneg, lemma_div_pos, lemma_mul_monotone, lemma_mul_nonneg, Fixed, SCALE,
};
use crate::stats::{
    conditions_nonneg, lemma_condition_factor_monotone, lemma_strike_factor_monotone, mods_nonneg,
    stats_le, stats_nonneg, Boon, Condition, Modifiers, PerBoon, PerCondition, Stats,
};
use crate::vary::Vary;
use vstd::prelude::*;

verus! {

/// A build to be optimized.
///
/// The three operations are pure: each has a specification function that gives its result.
/// An implementation that is verified defines these functions; as they stand they leave the
/// results open.
pub trait CharacterModel: Sized {
    /// The discrete choices of the build: rune, sigils, food and the like.
    type Config: Vary + Copy;

    /// The model can be evaluated.
    open spec fn wf(&self) -> bool {
        true
    }

    /// Whether the optimizers may try `config`.
    open spec fn config_valid(&self, config: &Self::Config) -> bool {
        true
    }

    /// Final attributes, modifiers and combat summary for `gear` and `config`.
    open spec fn stats_of(&self, gear: &Stats, config: &Self::Config) -> (
        Stats,
        Modifiers,
        CombatSecond,
    ) {
        vstd::pervasive::arbitrary()
    }

    /// The value to minimize.
    open spec fn objective(
        &self,
        config: &Self::Config,
        stats: &Stats,
        mods: &Modifiers,
        combat: &CombatSecond,
    ) -> Fixed {
        vstd::pervasive::arbitrary()
    }

    /// Checks whether a configuration is valid.  The optimizers do not evaluate one that is
    /// not.
    fn is_config_valid(&self, config: &Self::Config) -> (valid: bool)
        requires
            self.wf(),
            config.wf(),
        ensures
            valid == self.config_valid(config),
    ;

    /// Calculates attributes, modifiers and combat effects for `gear` and `config`.
    fn calc_stats(&self, gear: &Stats, config: &Self::Config) -> (r: (
        Stats,
        Modifiers,
        CombatSecond,
    ))
        requires
            self.wf(),
            config.wf(),
        ensures
            r == self.stats_of(gear, config),
    ;

    /// Evaluates the quality of `stats`, `mods` and `combat` for this build.  Smaller is
    /// better, so a build that maximizes damage returns the damage negated, and a violated
    /// constraint adds a large penalty that grows with the shortfall.
    fn evaluate(
        &self,
        config: &Self::Config,
        stats: &Stats,
        mods: &Modifiers,
        combat: &CombatSecond,
    ) -> (m: Fixed)
        requires
            self.wf(),
            config.wf(),
        ensures
            m == self.objective(config, stats, mods, combat),
    ;
}

/// The objective of `ch` for `gear` and `config`: the attributes calculated, then evaluated.
pub open spec fn score<C: CharacterModel>(ch: &C, gear: &Stats, config: &C::Config) -> Fixed {
    let r = ch.stats_of(gear, config);
    ch.objective(config, &r.0, &r.1, &r.2)
}

/// How often an event occurred in one second, and how much it amounted to in all.
#[derive(Clone, Copy, Debug, PartialEq, Eq, Structural)]
pub struct CombatEvent {
    /// Number of times the event occurred.
    pub count: Fixed,
    /// Total magnitude (damage or stacks) of all occurrences.
    pub magnitude: Fixed,
}

impl CombatEvent {
    /// An event that occurred `count` times and amounted to `magnitude`.
    pub open spec fn spec_new(count: Fixed, magnitude: Fixed) -> CombatEvent {
        CombatEvent { count, magnitude }
    }

    /// An event that occurred `count` times and amounted to `magnitude`.
    #[verifier::when_used_as_spec(spec_new)]
    pub fn new(count: Fixed, magnitude: Fixed) -> (r: CombatEvent)
        ensures
            r == CombatEvent::spec_new(count, magnitude),
    {
        CombatEvent { count, magnitude }
    }

    /// One occurrence of the given magnitude.
    pub open spec fn spec_single(magnitude: Fixed) -> CombatEvent {
        CombatEvent { count: Fixed::one(), magnitude }
    }

    /// One occurrence of the given magnitude.
    #[verifier::when_used_as_spec(spec_single)]
    pub fn single(magnitude: Fixed) -> (r: CombatEvent)
        ensures
            r == CombatEvent::spec_single(magnitude),
    {
        CombatEvent { count: Fixed::one(), magnitude }
    }

    /// The event that did not occur.
    pub open spec fn spec_zero() -> CombatEvent {
        CombatEvent { count: Fixed::zero(), magnitude: Fixed::zero() }
    }

    /// The event that did not occur.
    #[verifier::when_used_as_spec(spec_zero)]
    pub fn zero() -> (r: CombatEvent)
        ensures
            r == CombatEvent::spec_zero(),
    {
        CombatEvent { count: Fixed::zero(), magnitude: Fixed::zero() }
    }

    /// Both events together.
    pub open spec fn spec_add(self, rhs: CombatEvent) -> CombatEvent {
        CombatEvent {
            count: self.count.add(rhs.count),
            magnitude: self.magnitude.add(rhs.magnitude),
        }
    }

    /// Both events together.
    #[verifier::when_used_as_spec(spec_add)]
    pub fn add(self, rhs: CombatEvent) -> (r: CombatEvent)
        ensures
            r == self.spec_add(rhs),
    {
        CombatEvent {
            count: self.count.add(rhs.count),
            magnitude: self.magnitude.add(rhs.magnitude),
        }
    }

    /// The event with the contribution `rhs` removed.
    pub open spec fn spec_sub(self, rhs: CombatEvent) -> CombatEvent {
        CombatEvent {
            count: self.count.sub(rhs.count),
            magnitude: self.magnitude.sub(rhs.magnitude),
        }
    }

    /// The event with the contribution `rhs` removed.
    #[verifier::when_used_as_spec(spec_sub)]
    pub fn sub(self, rhs: CombatEvent) -> (r: CombatEvent)
        ensures
            r == self.spec_sub(rhs),
    {
        CombatEvent {
            count: self.count.sub(rhs.count),
            magnitude: self.magnitude.sub(rhs.magnitude),
        }
    }

    /// The event occurring `x` times as often.
    pub open spec fn spec_scale(self, x: Fixed) -> CombatEvent {
        CombatEvent { count: self.count.mul(x), magnitude: self.magnitude.mul(x) }
    }

    /// The event occurring `x` times as often.
    #[verifier::when_used_as_spec(spec_scale)]
    pub fn scale(self, x: Fixed) -> (r: CombatEvent)
        ensures
            r == self.spec_scale(x),
    {
        CombatEvent { count: self.count.mul(x), magnitude: self.magnitude.mul(x) }
    }

    /// The event occurring once where it occurred `x` times.
    pub open spec fn spec_div(self, x: Fixed) -> CombatEvent {
        CombatEvent { count: self.count.div(x), magnitude: self.magnitude.div(x) }
    }

    /// The event occurring once where it occurred `x` times.
    #[verifier::when_used_as_spec(spec_div)]
    pub fn div(self, x: Fixed) -> (r: CombatEvent)
        ensures
            r == self.spec_div(x),
    {
        CombatEvent { count: self.count.div(x), magnitude: self.magnitude.div(x) }
    }
}

impl Default for CombatEvent {
    /// The event that did not occur.
    fn default() -> (r: CombatEvent)
        ensures
            r == CombatEvent::spec_zero(),
    {
        CombatEvent::zero()
    }
}

impl PerCondition<CombatEvent> {
    /// Sum, condition by condition.
    pub open spec fn spec_add(self, rhs: PerCondition<CombatEvent>) -> PerCondition<CombatEvent> {
        PerCondition {
            bleed: self.bleed.add(rhs.bleed),
            burn: self.burn.add(rhs.burn),
            confuse: self.confuse.add(rhs.confuse),
            poison: self.poison.add(rhs.poison),
            torment: self.torment.add(rhs.torment),
        }
    }

    /// Sum, condition by condition.
    #[verifier::when_used_as_spec(spec_add)]
    pub fn add(self, rhs: PerCondition<CombatEvent>) -> (r: PerCondition<CombatEvent>)
        ensures
            r == self.spec_add(rhs),
    {
        PerCondition {
            bleed: self.bleed.add(rhs.bleed),
            burn: self.burn.add(rhs.burn),
            confuse: self.confuse.add(rhs.confuse),
            poison: self.poison.add(rhs.poison),
            torment: self.torment.add(rhs.torment),
        }
    }

    /// Difference, condition by condition.
    pub open spec fn spec_sub(self, rhs: PerCondition<CombatEvent>) -> PerCondition<CombatEvent> {
        PerCondition {
            bleed: self.bleed.sub(rhs.bleed),
            burn: self.burn.sub(rhs.burn),
            confuse: self.confuse.sub(rhs.confuse),
            poison: self.poison.sub(rhs.poison),
            torment: self.torment.sub(rhs.torment),
        }
    }

    /// Difference, condition by condition.
    #[verifier::when_used_as_spec(spec_sub)]
    pub fn sub(self, rhs: PerCondition<CombatEvent>) -> (r: PerCondition<CombatEvent>)
        ensures
            r == self.spec_sub(rhs),
    {
        PerCondition {
            bleed: self.bleed.sub(rhs.bleed),
            burn: self.burn.sub(rhs.burn),
            confuse: self.confuse.sub(rhs.confuse),
            poison: self.poison.sub(rhs.poison),
            torment: self.torment.sub(rhs.torment),
        }
    }

    /// Every condition multiplied by `x`.
    pub open spec fn spec_scale(self, x: Fixed) -> PerCondition<CombatEvent> {
        PerCondition {
            bleed: self.bleed.scale(x),
            burn: self.burn.scale(x),
            confuse: self.confuse.scale(x),
            poison: self.poison.scale(x),
            torment: self.torment.scale(x),
        }
    }

    /// Every condition multiplied by `x`.
    #[verifier::when_used_as_spec(spec_scale)]
    pub fn scale(self, x: Fixed) -> (r: PerCondition<CombatEvent>)
        ensures
            r == self.spec_scale(x),
    {
        PerCondition {
            bleed: self.bleed.scale(x),
            burn: self.burn.scale(x),
            confuse: self.confuse.scale(x),
            poison: self.poison.scale(x),
            torment: self.torment.scale(x),
        }
    }

    /// Events that amount to `magnitudes`, with `per_event` to each occurrence.
    pub open spec fn spec_from_magnitudes(
        magnitudes: PerCondition<Fixed>,
        per_event: Fixed,
    ) -> PerCondition<CombatEvent> {
        PerCondition {
            bleed: CombatEvent::new(magnitudes.bleed.div(per_event), magnitudes.bleed),
            burn: CombatEvent::new(magnitudes.burn.div(per_event), magnitudes.burn),
            confuse: CombatEvent::new(magnitudes.confuse.div(per_event), magnitudes.confuse),
            poison: CombatEvent::new(magnitudes.poison.div(per_event), magnitudes.poison),
            torment: CombatEvent::new(magnitudes.torment.div(per_event), magnitudes.torment),
        }
    }

    /// Events that amount to `magnitudes`, with `per_event` to each occurrence.
    #[verifier::when_used_as_spec(spec_from_magnitudes)]
    pub fn from_magnitudes(magnitudes: PerCondition<Fixed>, per_event: Fixed) -> (r: PerCondition<
        CombatEvent,
    >)
        ensures
            r == PerCondition::spec_from_magnitudes(magnitudes, per_event),
    {
        PerCondition {
            bleed: CombatEvent::new(magnitudes.bleed.div(per_event), magnitudes.bleed),
            burn: CombatEvent::new(magnitudes.burn.div(per_event), magnitudes.burn),
            confuse: CombatEvent::new(magnitudes.confuse.div(per_event), magnitudes.confuse),
            poison: CombatEvent::new(magnitudes.poison.div(per_event), magnitudes.poison),
            torment: CombatEvent::new(magnitudes.torment.div(per_event), magnitudes.torment),
        }
    }

    /// The magnitudes alone.
    pub open spec fn spec_magnitudes(self) -> PerCondition<Fixed> {
        PerCondition {
            bleed: self.bleed.magnitude,
            burn: self.burn.magnitude,
            confuse: self.confuse.magnitude,
            poison: self.poison.magnitude,
            torment: self.torment.magnitude,
        }
    }

    /// The magnitudes alone.
    #[verifier::when_used_as_spec(spec_magnitudes)]
    pub fn magnitudes(self) -> (r: PerCondition<Fixed>)
        ensures
            r == self.spec_magnitudes(),
    {
        PerCondition {
            bleed: self.bleed.magnitude,
            burn: self.burn.magnitude,
            confuse: self.confuse.magnitude,
            poison: self.poison.magnitude,
            torment: self.torment.magnitude,
        }
    }
}

impl PerBoon<CombatEvent> {
    /// Sum, boon by boon.
    pub open spec fn spec_add(self, rhs: PerBoon<CombatEvent>) -> PerBoon<CombatEvent> {
        PerBoon {
            aegis: self.aegis.add(rhs.aegis),
            alacrity: self.alacrity.add(rhs.alacrity),
            fury: self.fury.add(rhs.fury),
            might: self.might.add(rhs.might),
            protection: self.protection.add(rhs.protection),
            quickness: self.quickness.add(rhs.quickness),
            regeneration: self.regeneration.add(rhs.regeneration),
            resistance: self.resistance.add(rhs.resistance),
            resolution: self.resolution.add(rhs.resolution),
            stability: self.stability.add(rhs.stability),
            swiftness: self.swiftness.add(rhs.swiftness),
            vigor: self.vigor.add(rhs.vigor),
        }
    }

    /// Sum, boon by boon.
    #[verifier::when_used_as_spec(spec_add)]
    pub fn add(self, rhs: PerBoon<CombatEvent>) -> (r: PerBoon<CombatEvent>)
        ensures
            r == self.spec_add(rhs),
    {
        PerBoon {
            aegis: self.aegis.add(rhs.aegis),
            alacrity: self.alacrity.add(rhs.alacrity),
            fury: self.fury.add(rhs.fury),
            might: self.might.add(rhs.might),
            protection: self.protection.add(rhs.protection),
            quickness: self.quickness.add(rhs.quickness),
            regeneration: self.regeneration.add(rhs.regeneration),
            resistance: self.resistance.add(rhs.resistance),
            resolution: self.resolution.add(rhs.resolution),
            stability: self.stability.add(rhs.stability),
            swiftness: self.swiftness.add(rhs.swiftness),
            vigor: self.vigor.add(rhs.vigor),
        }
    }

    /// Difference, boon by boon.
    pub open spec fn spec_sub(self, rhs: PerBoon<CombatEvent>) -> PerBoon<CombatEvent> {
        PerBoon {
            aegis: self.aegis.sub(rhs.aegis),
            alacrity: self.alacrity.sub(rhs.alacrity),
            fury: self.fury.sub(rhs.fury),
            might: self.might.sub(rhs.might),
            protection: self.protection.sub(rhs.protection),
            quickness: self.quickness.sub(rhs.quickness),
            regeneration: self.regeneration.sub(rhs.regeneration),
            resistance: self.resistance.sub(rhs.resistance),
            resolution: self.resolution.sub(rhs.resolution),
            stability: self.stability.sub(rhs.stability),
            swiftness: self.swiftness.sub(rhs.swiftness),
            vigor: self.vigor.sub(rhs.vigor),
        }
    }

    /// Difference, boon by boon.
    #[verifier::when_used_as_spec(spec_sub)]
    pub fn sub(self, rhs: PerBoon<CombatEvent>) -> (r: PerBoon<CombatEvent>)
        ensures
            r == self.spec_sub(rhs),
    {
        PerBoon {
            aegis: self.aegis.sub(rhs.aegis),
            alacrity: self.alacrity.sub(rhs.alacrity),
            fury: self.fury.sub(rhs.fury),
            might: self.might.sub(rhs.might),
            protection: self.protection.sub(rhs.protection),
            quickness: self.quickness.sub(rhs.quickness),
            regeneration: self.regeneration.sub(rhs.regeneration),
            resistance: self.resistance.sub(rhs.resistance),
            resolution: self.resolution.sub(rhs.resolution),
            stability: self.stability.sub(rhs.stability),
            swiftness: self.swiftness.sub(rhs.swiftness),
            vigor: self.vigor.sub(rhs.vigor),
        }
    }

    /// Every boon multiplied by `x`.
    pub open spec fn spec_scale(self, x: Fixed) -> PerBoon<CombatEvent> {
        PerBoon {
            aegis: self.aegis.scale(x),
            alacrity: self.alacrity.scale(x),
            fury: self.fury.scale(x),
            might: self.might.scale(x),
            protection: self.protection.scale(x),
            quickness: self.quickness.scale(x),
            regeneration: self.regeneration.scale(x),
            resistance: self.resistance.scale(x),
            resolution: self.resolution.scale(x),
            stability: self.stability.scale(x),
            swiftness: self.swiftness.scale(x),
            vigor: self.vigor.scale(x),
        }
    }

    /// Every boon multiplied by `x`.
    #[verifier::when_used_as_spec(spec_scale)]
    pub fn scale(self, x: Fixed) -> (r: PerBoon<CombatEvent>)
        ensures
            r == self.spec_scale(x),
    {
        PerBoon {
            aegis: self.aegis.scale(x),
            alacrity: self.alacrity.scale(x),
            fury: self.fury.scale(x),
            might: self.might.scale(x),
            protection: self.protection.scale(x),
            quickness: self.quickness.scale(x),
            regeneration: self.regeneration.scale(x),
            resistance: self.resistance.scale(x),
            resolution: self.resolution.scale(x),
            stability: self.stability.scale(x),
            swiftness: self.swiftness.scale(x),
            vigor: self.vigor.scale(x),
        }
    }

    /// Events that amount to `magnitudes`, with `per_event` to each occurrence.
    pub open spec fn spec_from_magnitudes(
        magnitudes: PerBoon<Fixed>,
        per_event: Fixed,
    ) -> PerBoon<CombatEvent> {
        PerBoon {
            aegis: CombatEvent::new(magnitudes.aegis.div(per_event), magnitudes.aegis),
            alacrity: CombatEvent::new(magnitudes.alacrity.div(per_event), magnitudes.alacrity),
            fury: CombatEvent::new(magnitudes.fury.div(per_event), magnitudes.fury),
            might: CombatEvent::new(magnitudes.might.div(per_event), magnitudes.might),
            protection: CombatEvent::new(magnitudes.protection.div(per_event), magnitudes.protection),
            quickness: CombatEvent::new(magnitudes.quickness.div(per_event), magnitudes.quickness),
            regeneration: CombatEvent::new(magnitudes.regeneration.div(per_event), magnitudes.regeneration),
            resistance: CombatEvent::new(magnitudes.resistance.div(per_event), magnitudes.resistance),
            resolution: CombatEvent::new(magnitudes.resolution.div(per_event), magnitudes.resolution),
            stability: CombatEvent::new(magnitudes.stability.div(per_event), magnitudes.stability),
            swiftness: CombatEvent::new(magnitudes.swiftness.div(per_event), magnitudes.swiftness),
            vigor: CombatEvent::new(magnitudes.vigor.div(per_event), magnitudes.vigor),
        }
    }

    /// Events that amount to `magnitudes`, with `per_event` to each occurrence.
    #[verifier::when_used_as_spec(spec_from_magnitudes)]
    pub fn from_magnitudes(magnitudes: PerBoon<Fixed>, per_event: Fixed) -> (r: PerBoon<
        CombatEvent,
    >)
        ensures
            r == PerBoon::spec_from_magnitudes(magnitudes, per_event),
    {
        PerBoon {
            aegis: CombatEvent::new(magnitudes.aegis.div(per_event), magnitudes.aegis),
            alacrity: CombatEvent::new(magnitudes.alacrity.div(per_event), magnitudes.alacrity),
            fury: CombatEvent::new(magnitudes.fury.div(per_event), magnitudes.fury),
            might: CombatEvent::new(magnitudes.might.div(per_event), magnitudes.might),
            protection: CombatEvent::new(magnitudes.protection.div(per_event), magnitudes.protection),
            quickness: CombatEvent::new(magnitudes.quickness.div(per_event), magnitudes.quickness),
            regeneration: CombatEvent::new(magnitudes.regeneration.div(per_event), magnitudes.regeneration),
            resistance: CombatEvent::new(magnitudes.resistance.div(per_event), magnitudes.resistance),
            resolution: CombatEvent::new(magnitudes.resolution.div(per_event), magnitudes.resolution),
            stability: CombatEvent::new(magnitudes.stability.div(per_event), magnitudes.stability),
            swiftness: CombatEvent::new(magnitudes.swiftness.div(per_event), magnitudes.swiftness),
            vigor: CombatEvent::new(magnitudes.vigor.div(per_event), magnitudes.vigor),
        }
    }

    /// The magnitudes alone.
    pub open spec fn spec_magnitudes(self) -> PerBoon<Fixed> {
        PerBoon {
            aegis: self.aegis.magnitude,
            alacrity: self.alacrity.magnitude,
            fury: self.fury.magnitude,
            might: self.might.magnitude,
            protection: self.protection.magnitude,
            quickness: self.quickness.magnitude,
            regeneration: self.regeneration.magnitude,
            resistance: self.resistance.magnitude,
            resolution: self.resolution.magnitude,
            stability: self.stability.magnitude,
            swiftness: self.swiftness.magnitude,
            vigor: self.vigor.magnitude,
        }
    }

    /// The magnitudes alone.
    #[verifier::when_used_as_spec(spec_magnitudes)]
    pub fn magnitudes(self) -> (r: PerBoon<Fixed>)
        ensures
            r == self.spec_magnitudes(),
    {
        PerBoon {
            aegis: self.aegis.magnitude,
            alacrity: self.alacrity.magnitude,
            fury: self.fury.magnitude,
            might: self.might.magnitude,
            protection: self.protection.magnitude,
            quickness: self.quickness.magnitude,
            regeneration: self.regeneration.magnitude,
            resistance: self.resistance.magnitude,
            resolution: self.resolution.magnitude,
            stability: self.stability.magnitude,
            swiftness: self.swiftness.magnitude,
            vigor: self.vigor.magnitude,
        }
    }
}

/// A summary of the average effects of one second of combat.
///
/// The magnitudes are totals over the second; together with the counts they give rates, such
/// as how often an effect is triggered.
#[derive(Clone, Copy, Debug, PartialEq, Eq)]
pub struct CombatSecond {
    /// Number and total points of strike damage hits.
    pub strike: CombatEvent,
    /// Number and total damage of flat strike damage, which is unaffected by power.
    pub strike_flat: CombatEvent,
    /// Number and total points of healing applied.
    pub heal: CombatEvent,
    /// Number and total health of flat healing, which is unaffected by healing power.
    pub heal_flat: CombatEvent,
    /// Number of times each condition was applied, and the total points of all applications.
    pub condition: PerCondition<CombatEvent>,
    /// Number of times each boon was applied, and the total points of all applications.
    pub boon: PerBoon<CombatEvent>,
    /// Number of times and total duration of auras applied.
    pub aura: CombatEvent,
    /// Number of skills cast.
    pub cast: Fixed,
    /// Number of healing skills cast.
    pub cast_healing: Fixed,
    /// Number of weaver dual attacks cast.
    pub cast_weaver_dual: Fixed,
    /// Number of weapon swaps performed.
    pub weapon_swap: Fixed,
    /// Number of flanking strikes.
    pub flanking: Fixed,
    /// Number of critical hits.  The effect pipeline sets it; it need not be set by hand.
    pub crit: Fixed,
}

impl CombatSecond {
    /// The second in which nothing happened.
    pub open spec fn spec_zero() -> CombatSecond {
        CombatSecond {
            strike: CombatEvent::zero(),
            strike_flat: CombatEvent::zero(),
            heal: CombatEvent::zero(),
            heal_flat: CombatEvent::zero(),
            condition: PerCondition::splat(CombatEvent::zero()),
            boon: PerBoon::splat(CombatEvent::zero()),
            aura: CombatEvent::zero(),
            cast: Fixed::zero(),
            cast_healing: Fixed::zero(),
            cast_weaver_dual: Fixed::zero(),
            weapon_swap: Fixed::zero(),
            flanking: Fixed::zero(),
            crit: Fixed::zero(),
        }
    }

    /// The second in which nothing happened.
    #[verifier::when_used_as_spec(spec_zero)]
    pub fn zero() -> (r: CombatSecond)
        ensures
            r == CombatSecond::spec_zero(),
    {
        CombatSecond {
            strike: CombatEvent::zero(),
            strike_flat: CombatEvent::zero(),
            heal: CombatEvent::zero(),
            heal_flat: CombatEvent::zero(),
            condition: PerCondition::splat(CombatEvent::zero()),
            boon: PerBoon::splat(CombatEvent::zero()),
            aura: CombatEvent::zero(),
            cast: Fixed::zero(),
            cast_healing: Fixed::zero(),
            cast_weaver_dual: Fixed::zero(),
            weapon_swap: Fixed::zero(),
            flanking: Fixed::zero(),
            crit: Fixed::zero(),
        }
    }

    /// Both summaries together, counter by counter.
    pub open spec fn spec_add(self, rhs: CombatSecond) -> CombatSecond {
        CombatSecond {
            strike: self.strike.add(rhs.strike),
            strike_flat: self.strike_flat.add(rhs.strike_flat),
            heal: self.heal.add(rhs.heal),
            heal_flat: self.heal_flat.add(rhs.heal_flat),
            condition: self.condition.add(rhs.condition),
            boon: self.boon.add(rhs.boon),
            aura: self.aura.add(rhs.aura),
            cast: self.cast.add(rhs.cast),
            cast_healing: self.cast_healing.add(rhs.cast_healing),
            cast_weaver_dual: self.cast_weaver_dual.add(rhs.cast_weaver_dual),
            weapon_swap: self.weapon_swap.add(rhs.weapon_swap),
            flanking: self.flanking.add(rhs.flanking),
            crit: self.crit.add(rhs.crit),
        }
    }

    /// Both summaries together, counter by counter.
    #[verifier::when_used_as_spec(spec_add)]
    pub fn add(self, rhs: CombatSecond) -> (r: CombatSecond)
        ensures
            r == self.spec_add(rhs),
    {
        CombatSecond {
            strike: self.strike.add(rhs.strike),
            strike_flat: self.strike_flat.add(rhs.strike_flat),
            heal: self.heal.add(rhs.heal),
            heal_flat: self.heal_flat.add(rhs.heal_flat),
            condition: self.condition.add(rhs.condition),
            boon: self.boon.add(rhs.boon),
            aura: self.aura.add(rhs.aura),
            cast: self.cast.add(rhs.cast),
            cast_healing: self.cast_healing.add(rhs.cast_healing),
            cast_weaver_dual: self.cast_weaver_dual.add(rhs.cast_weaver_dual),
            weapon_swap: self.weapon_swap.add(rhs.weapon_swap),
            flanking: self.flanking.add(rhs.flanking),
            crit: self.crit.add(rhs.crit),
        }
    }

    /// The summary with the contribution `rhs` removed, counter by counter.
    pub open spec fn spec_sub(self, rhs: CombatSecond) -> CombatSecond {
        CombatSecond {
            strike: self.strike.sub(rhs.strike),
            strike_flat: self.strike_flat.sub(rhs.strike_flat),
            heal: self.heal.sub(rhs.heal),
            heal_flat: self.heal_flat.sub(rhs.heal_flat),
            condition: self.condition.sub(rhs.condition),
            boon: self.boon.sub(rhs.boon),
            aura: self.aura.sub(rhs.aura),
            cast: self.cast.sub(rhs.cast),
            cast_healing: self.cast_healing.sub(rhs.cast_healing),
            cast_weaver_dual: self.cast_weaver_dual.sub(rhs.cast_weaver_dual),
            weapon_swap: self.weapon_swap.sub(rhs.weapon_swap),
            flanking: self.flanking.sub(rhs.flanking),
            crit: self.crit.sub(rhs.crit),
        }
    }

    /// The summary with the contribution `rhs` removed, counter by counter.
    #[verifier::when_used_as_spec(spec_sub)]
    pub fn sub(self, rhs: CombatSecond) -> (r: CombatSecond)
        ensures
            r == self.spec_sub(rhs),
    {
        CombatSecond {
            strike: self.strike.sub(rhs.strike),
            strike_flat: self.strike_flat.sub(rhs.strike_flat),
            heal: self.heal.sub(rhs.heal),
            heal_flat: self.heal_flat.sub(rhs.heal_flat),
            condition: self.condition.sub(rhs.condition),
            boon: self.boon.sub(rhs.boon),
            aura: self.aura.sub(rhs.aura),
            cast: self.cast.sub(rhs.cast),
            cast_healing: self.cast_healing.sub(rhs.cast_healing),
            cast_weaver_dual: self.cast_weaver_dual.sub(rhs.cast_weaver_dual),
            weapon_swap: self.weapon_swap.sub(rhs.weapon_swap),
            flanking: self.flanking.sub(rhs.flanking),
            crit: self.crit.sub(rhs.crit),
        }
    }

    /// Every counter multiplied by `x`.
    pub open spec fn spec_scale(self, x: Fixed) -> CombatSecond {
        CombatSecond {
            strike: self.strike.scale(x),
            strike_flat: self.strike_flat.scale(x),
            heal: self.heal.scale(x),
            heal_flat: self.heal_flat.scale(x),
            condition: self.condition.scale(x),
            boon: self.boon.scale(x),
            aura: self.aura.scale(x),
            cast: self.cast.mul(x),
            cast_healing: self.cast_healing.mul(x),
            cast_weaver_dual: self.cast_weaver_dual.mul(x),
            weapon_swap: self.weapon_swap.mul(x),
            flanking: self.flanking.mul(x),
            crit: self.crit.mul(x),
        }
    }

    /// Every counter multiplied by `x`.
    #[verifier::when_used_as_spec(spec_scale)]
    pub fn scale(self, x: Fixed) -> (r: CombatSecond)
        ensures
            r == self.spec_scale(x),
    {
        CombatSecond {
            strike: self.strike.scale(x),
            strike_flat: self.strike_flat.scale(x),
            heal: self.heal.scale(x),
            heal_flat: self.heal_flat.scale(x),
            condition: self.condition.scale(x),
            boon: self.boon.scale(x),
            aura: self.aura.scale(x),
            cast: self.cast.mul(x),
            cast_healing: self.cast_healing.mul(x),
            cast_weaver_dual: self.cast_weaver_dual.mul(x),
            weapon_swap: self.weapon_swap.mul(x),
            flanking: self.flanking.mul(x),
            crit: self.crit.mul(x),
        }
    }

    /// The summary with the number of critical hits that `crit_chance` percent of the strike
    /// hits make.
    pub open spec fn with_crit(self, crit_chance: Fixed) -> CombatSecond {
        CombatSecond {
            crit: self.strike.count.mul(crit_chance).div(Fixed::from_int(100)),
            ..self
        }
    }

    /// Sets the number of critical hits to `crit_chance` percent of the strike hits.
    pub fn update_crit(&mut self, crit_chance: Fixed)
        ensures
            *final(self) == old(self).with_crit(crit_chance),
    {
        self.crit = self.strike.count.mul(crit_chance).div(Fixed::from_int(100));
    }

    /// Damage per second: the strike points by the strike factor, plus, for each condition,
    /// its points (gear's extra points included) by its factor.
    pub open spec fn spec_calc_dps(&self, stats: &Stats, mods: &Modifiers) -> Fixed {
        let strike_dps = self.strike.magnitude.mul(stats.strike_factor(mods));
        let points = self.condition.magnitudes().add(mods.condition_points);
        strike_dps.add(points.mul(stats.condition_factors(mods)).sum())
    }

    /// Damage per second.
    #[verifier::when_used_as_spec(spec_calc_dps)]
    pub fn calc_dps(&self, stats: &Stats, mods: &Modifiers) -> (r: Fixed)
        ensures
            r == self.spec_calc_dps(stats, mods),
    {
        let strike_dps = self.strike.magnitude.mul(stats.strike_factor(mods));
        let points = self.condition.magnitudes().add(mods.condition_points);
        strike_dps.add(points.mul(stats.condition_factors(mods)).sum())
    }

    /// Expected number of stacks of `boon`.  This may exceed the stacks that the boon can
    /// hold, which is useful for establishing a margin for error in a build.
    pub open spec fn spec_calc_boon_uptime_raw(
        &self,
        stats: &Stats,
        mods: &Modifiers,
        boon: Boon,
    ) -> Fixed {
        let points = self.boon.at(boon).magnitude.add(mods.boon_points.at(boon));
        points.mul(stats.boon_duration(mods, boon)).div(Fixed::from_int(100))
    }

    /// Expected number of stacks of `boon`, not limited.
    #[verifier::when_used_as_spec(spec_calc_boon_uptime_raw)]
    pub fn calc_boon_uptime_raw(&self, stats: &Stats, mods: &Modifiers, boon: Boon) -> (r: Fixed)
        ensures
            r == self.spec_calc_boon_uptime_raw(stats, mods, boon),
    {
        let points = self.boon.get(boon).magnitude.add(*mods.boon_points.get(boon));
        points.mul(stats.boon_duration(mods, boon)).div(Fixed::from_int(100))
    }

    /// Expected number of stacks of `boon`, at most the stacks that the boon can hold.
    pub open spec fn spec_calc_boon_uptime(&self, stats: &Stats, mods: &Modifiers, boon: Boon) -> Fixed {
        self.calc_boon_uptime_raw(stats, mods, boon).min(boon.max_stacks())
    }

    /// Expected number of stacks of `boon`, at most the stacks that the boon can hold.
    #[verifier::when_used_as_spec(spec_calc_boon_uptime)]
    pub fn calc_boon_uptime(&self, stats: &Stats, mods: &Modifiers, boon: Boon) -> (r: Fixed)
        ensures
            r == self.spec_calc_boon_uptime(stats, mods, boon),
            r.raw <= boon.max_stacks().raw,
    {
        let stacks = self.calc_boon_uptime_raw(stats, mods, boon);
        if stacks.gt(boon.max_stacks()) {
            boon.max_stacks()
        } else {
            stacks
        }
    }

    /// Expected number of stacks of the condition `condi`, not limited.
    pub open spec fn spec_calc_condition_uptime_raw(
        &self,
        stats: &Stats,
        mods: &Modifiers,
        condi: Condition,
    ) -> Fixed {
        let points = self.condition.at(condi).magnitude.add(mods.condition_points.at(condi));
        points.mul(stats.condition_duration(mods, condi)).div(Fixed::from_int(100))
    }

    /// Expected number of stacks of the condition `condi`, not limited.
    #[verifier::when_used_as_spec(spec_calc_condition_uptime_raw)]
    pub fn calc_condition_uptime_raw(
        &self,
        stats: &Stats,
        mods: &Modifiers,
        condi: Condition,
    ) -> (r: Fixed)
        ensures
            r == self.spec_calc_condition_uptime_raw(stats, mods, condi),
    {
        let points = self.condition.get(condi).magnitude.add(*mods.condition_points.get(condi));
        points.mul(stats.condition_duration(mods, condi)).div(Fixed::from_int(100))
    }

    /// Healing per second: healing points by healing power, plus flat healing, plus what the
    /// stacks of regeneration give.
    pub open spec fn spec_calc_heal_per_second(&self, stats: &Stats, mods: &Modifiers) -> Fixed {
        let heal = stats.healing_power.mul(self.heal.magnitude);
        let heal_flat = self.heal_flat.magnitude;
        let regen = self.calc_boon_uptime(stats, mods, Boon::Regeneration).mul(
            stats.regen_heal(mods),
        );
        heal.add(heal_flat).add(regen)
    }

    /// Healing per second.
    #[verifier::when_used_as_spec(spec_calc_heal_per_second)]
    pub fn calc_heal_per_second(&self, stats: &Stats, mods: &Modifiers) -> (r: Fixed)
        ensures
            r == self.spec_calc_heal_per_second(stats, mods),
    {
        let heal = stats.healing_power.mul(self.heal.magnitude);
        let heal_flat = self.heal_flat.magnitude;
        let regen = self.calc_boon_uptime(stats, mods, Boon::Regeneration).mul(
            stats.regen_heal(mods),
        );
        heal.add(heal_flat).add(regen)
    }
}

impl Default for CombatSecond {
    /// The second in which nothing happened.
    fn default() -> (r: CombatSecond)
        ensures
            r == CombatSecond::spec_zero(),
    {
        CombatSecond::zero()
    }
}

/// Points per second that an observed performance amounts to.
#[derive(Clone, Copy, Debug, PartialEq, Eq)]
pub struct SamplePoints {
    /// Strike points per second.
    pub strike: Fixed,
    /// Condition points per second.
    pub condition: PerCondition<Fixed>,
    /// Boon points per second.
    pub boon: PerBoon<Fixed>,
}

impl SamplePoints {
    /// The points behind `dps` damage per second, of which `condition_percent` percent came
    /// from each condition and the rest from strikes, and behind `boon_uptime` percent of
    /// each boon, for a character with the attributes `stats` and the modifiers `mods`.
    ///
    /// Each share of the damage is divided by the damage of one point of its kind, and each
    /// uptime by the duration of the boon.
    pub open spec fn spec_observe(
        stats: &Stats,
        mods: &Modifiers,
        dps: Fixed,
        condition_percent: PerCondition<Fixed>,
        boon_uptime: PerBoon<Fixed>,
    ) -> SamplePoints {
        let hundred = Fixed::from_int(100);
        let strike_percent = hundred.sub(condition_percent.sum());
        let strike_dps = dps.mul(strike_percent).div(hundred);
        SamplePoints {
            strike: strike_dps.div(stats.strike_factor(mods)),
            condition: condition_percent.scale(dps).div_scalar(hundred).div(
                stats.condition_factors(mods),
            ),
            boon: boon_uptime.div(stats.boon_durations(mods)),
        }
    }

    /// The points behind an observed performance.
    #[verifier::when_used_as_spec(spec_observe)]
    pub fn observe(
        stats: &Stats,
        mods: &Modifiers,
        dps: Fixed,
        condition_percent: PerCondition<Fixed>,
        boon_uptime: PerBoon<Fixed>,
    ) -> (r: SamplePoints)
        ensures
            r == SamplePoints::spec_observe(stats, mods, dps, condition_percent, boon_uptime),
    {
        let hundred = Fixed::from_int(100);
        let strike_percent = hundred.sub(condition_percent.sum());
        let strike_dps = dps.mul(strike_percent).div(hundred);
        SamplePoints {
            strike: strike_dps.div(stats.strike_factor(mods)),
            condition: condition_percent.scale(dps).div_scalar(hundred).div(
                stats.condition_factors(mods),
            ),
            boon: boon_uptime.div(stats.boon_durations(mods)),
        }
    }
}

/// An observed calibration sample: a build and how it performed.
#[derive(Clone, Copy, Debug)]
pub struct Baseline<C> {
    /// Attributes that the gear of the sample gave, without runes, food, boons and the like.
    pub gear: Stats,
    /// The configuration of the sample.
    pub config: C,
    /// The overall damage per second achieved.
    pub dps: Fixed,
    /// What percent of the damage came from each condition.
    pub condition_percent: PerCondition<Fixed>,
    /// Uptime of each boon, in percent.  For a boon that stacks, the average number of stacks
    /// times 100.
    pub boon_uptime: PerBoon<Fixed>,
}

impl<C: Vary + Copy> Baseline<C> {
    /// The points that the sample amounts to under the model `ch`.
    pub open spec fn points<M: CharacterModel<Config = C>>(&self, ch: &M) -> SamplePoints {
        let r = ch.stats_of(&self.gear, &self.config);
        SamplePoints::observe(&r.0, &r.1, self.dps, self.condition_percent, self.boon_uptime)
    }

    /// `base_combat` with its strike, condition and boon parts replaced by what the rotation
    /// of the sample contributes: the points of the sample less those that the model already
    /// accounts to gear and configuration.  Strikes count as one hit per second, and
    /// conditions and boons as applications of five points each.
    pub open spec fn spec_update_base_combat<M: CharacterModel<Config = C>>(
        &self,
        ch: &M,
        base_combat: &CombatSecond,
    ) -> CombatSecond {
        let combat = ch.stats_of(&self.gear, &self.config).2;
        let points = self.points(ch);
        let five = Fixed::from_int(5);
        CombatSecond {
            strike: CombatEvent::new(
                Fixed::one(),
                base_combat.strike.magnitude.add(points.strike.sub(combat.strike.magnitude)),
            ),
            condition: base_combat.condition.add(
                PerCondition::from_magnitudes(
                    points.condition.sub(combat.condition.magnitudes()),
                    five,
                ),
            ),
            boon: base_combat.boon.add(
                PerBoon::from_magnitudes(points.boon.sub(combat.boon.magnitudes()), five),
            ),
            ..*base_combat
        }
    }

    /// Updates the strike, condition and boon parts of `base_combat` from this sample.
    ///
    /// The model must not use the extra condition and boon points of [`Modifiers`].
    pub fn update_base_combat<M: CharacterModel<Config = C>>(
        &self,
        ch: &M,
        base_combat: &CombatSecond,
    ) -> (r: CombatSecond)
        requires
            ch.wf(),
            self.config.wf(),
            ch.stats_of(&self.gear, &self.config).1.condition_points == PerCondition::splat(
                Fixed::zero(),
            ),
            ch.stats_of(&self.gear, &self.config).1.boon_points == PerBoon::splat(Fixed::zero()),
        ensures
            r == self.spec_update_base_combat(ch, base_combat),
    {
        let (stats, mods, combat) = ch.calc_stats(&self.gear, &self.config);
        let points = SamplePoints::observe(
            &stats,
            &mods,
            self.dps,
            self.condition_percent,
            self.boon_uptime,
        );
        let five = Fixed::from_int(5);
        CombatSecond {
            // The number of strike hits per second is not known: count one.
            strike: CombatEvent::new(
                Fixed::one(),
                base_combat.strike.magnitude.add(points.strike.sub(combat.strike.magnitude)),
            ),
            condition: base_combat.condition.add(
                PerCondition::from_magnitudes(
                    points.condition.sub(combat.condition.magnitudes()),
                    five,
                ),
            ),
            boon: base_combat.boon.add(
                PerBoon::from_magnitudes(points.boon.sub(combat.boon.magnitudes()), five),
            ),
            ..*base_combat
        }
    }
}

/// Damage-generating capacity of a rotation, independent of the attributes it is played with.
#[derive(Clone, Copy, Debug, PartialEq, Eq)]
pub struct DpsModel {
    /// Strike points per second.  One strike point is one attack of 100 damage at 1000 power.
    pub strike_points: Fixed,
    /// Condition points per second.  One condition point is one stack with one second of base
    /// duration.
    pub condition_points: PerCondition<Fixed>,
    /// Boon points per second.  One boon point is one stack with one second of base duration.
    pub boon_points: PerBoon<Fixed>,
}

impl DpsModel {
    /// The model that always gives zero.
    pub open spec fn spec_zero() -> DpsModel {
        DpsModel {
            strike_points: Fixed::zero(),
            condition_points: PerCondition::splat(Fixed::zero()),
            boon_points: PerBoon::splat(Fixed::zero()),
        }
    }

    /// The model that always gives zero.  A placeholder for a build that is not yet
    /// calibrated.
    #[verifier::when_used_as_spec(spec_zero)]
    pub fn zero() -> (r: DpsModel)
        ensures
            r == DpsModel::spec_zero(),
    {
        DpsModel {
            strike_points: Fixed::zero(),
            condition_points: PerCondition::splat(Fixed::zero()),
            boon_points: PerBoon::splat(Fixed::zero()),
        }
    }

    /// The model of a rotation that was observed with the attributes `stats` and the
    /// modifiers `mods`: the points of the sample, less the extra points that `mods` accounts
    /// to gear.  An entry may be negative, where the rotation triggered runes and sigils less
    /// than expected.
    pub open spec fn spec_calibrate(
        stats: &Stats,
        mods: &Modifiers,
        dps: Fixed,
        condition_percent: PerCondition<Fixed>,
        boon_uptime: PerBoon<Fixed>,
    ) -> DpsModel {
        let points = SamplePoints::observe(stats, mods, dps, condition_percent, boon_uptime);
        DpsModel {
            strike_points: points.strike,
            condition_points: points.condition.sub(mods.condition_points),
            boon_points: points.boon.sub(mods.boon_points),
        }
    }

    /// The model of a rotation that was observed with the attributes `stats` and the
    /// modifiers `mods`.
    #[verifier::when_used_as_spec(spec_calibrate)]
    pub fn calibrate(
        stats: &Stats,
        mods: &Modifiers,
        dps: Fixed,
        condition_percent: PerCondition<Fixed>,
        boon_uptime: PerBoon<Fixed>,
    ) -> (r: DpsModel)
        ensures
            r == DpsModel::spec_calibrate(stats, mods, dps, condition_percent, boon_uptime),
    {
        let points = SamplePoints::observe(stats, mods, dps, condition_percent, boon_uptime);
        DpsModel {
            strike_points: points.strike,
            condition_points: points.condition.sub(mods.condition_points),
            boon_points: points.boon.sub(mods.boon_points),
        }
    }

    /// The model of the rotation behind `baseline`, as the build `ch` sees the sample.
    pub fn new<C: CharacterModel>(ch: &C, baseline: Baseline<C::Config>) -> (r: DpsModel)
        requires
            ch.wf(),
            baseline.config.wf(),
        ensures
            r == DpsModel::spec_calibrate(
                &ch.stats_of(&baseline.gear, &baseline.config).0,
                &ch.stats_of(&baseline.gear, &baseline.config).1,
                baseline.dps,
                baseline.condition_percent,
                baseline.boon_uptime,
            ),
    {
        let (stats, mods, _combat) = ch.calc_stats(&baseline.gear, &baseline.config);
        DpsModel::calibrate(
            &stats,
            &mods,
            baseline.dps,
            baseline.condition_percent,
            baseline.boon_uptime,
        )
    }

    /// Damage per second with the attributes `stats` and the modifiers `mods`: the stored
    /// points by the factors of the attributes asked about.
    pub open spec fn spec_calc_dps(&self, stats: &Stats, mods: &Modifiers) -> Fixed {
        let strike_dps = self.strike_points.mul(stats.strike_factor(mods));
        let points = self.condition_points.add(mods.condition_points);
        strike_dps.add(points.mul(stats.condition_factors(mods)).sum())
    }

    /// Damage per second with the attributes `stats` and the modifiers `mods`.
    #[verifier::when_used_as_spec(spec_calc_dps)]
    pub fn calc_dps(&self, stats: &Stats, mods: &Modifiers) -> (r: Fixed)
        ensures
            r == self.spec_calc_dps(stats, mods),
    {
        let strike_dps = self.strike_points.mul(stats.strike_factor(mods));
        let points = self.condition_points.add(mods.condition_points);
        strike_dps.add(points.mul(stats.condition_factors(mods)).sum())
    }

    /// Expected number of stacks of `boon`.  This may exceed the stacks that the boon can
    /// hold.
    pub open spec fn spec_calc_boon_uptime_raw(
        &self,
        stats: &Stats,
        mods: &Modifiers,
        boon: Boon,
    ) -> Fixed {
        let points = self.boon_points.at(boon).add(mods.boon_points.at(boon));
        points.mul(stats.boon_duration(mods, boon)).div(Fixed::from_int(100))
    }

    /// Expected number of stacks of `boon`, not limited.
    #[verifier::when_used_as_spec(spec_calc_boon_uptime_raw)]
    pub fn calc_boon_uptime_raw(&self, stats: &Stats, mods: &Modifiers, boon: Boon) -> (r: Fixed)
        ensures
            r == self.spec_calc_boon_uptime_raw(stats, mods, boon),
    {
        let points = self.boon_points.get(boon).add(*mods.boon_points.get(boon));
        points.mul(stats.boon_duration(mods, boon)).div(Fixed::from_int(100))
    }

    /// Expected number of stacks of `boon`, at most the stacks that the boon can hold.
    pub open spec fn spec_calc_boon_uptime(&self, stats: &Stats, mods: &Modifiers, boon: Boon) -> Fixed {
        self.calc_boon_uptime_raw(stats, mods, boon).min(boon.max_stacks())
    }

    /// Expected number of stacks of `boon`, at most the stacks that the boon can hold.
    #[verifier::when_used_as_spec(spec_calc_boon_uptime)]
    pub fn calc_boon_uptime(&self, stats: &Stats, mods: &Modifiers, boon: Boon) -> (r: Fixed)
        ensures
            r == self.spec_calc_boon_uptime(stats, mods, boon),
            r.raw <= boon.max_stacks().raw,
    {
        let stacks = self.calc_boon_uptime_raw(stats, mods, boon);
        if stacks.gt(boon.max_stacks()) {
            boon.max_stacks()
        } else {
            stacks
        }
    }
}

/// The placeholder model gives no damage, whatever it is asked about.
pub proof fn lemma_zero_model_gives_zero(stats: Stats, mods: Modifiers)
    requires
        mods.condition_points == PerCondition::splat(Fixed::zero()),
    ensures
        DpsModel::zero().calc_dps(&stats, &mods) == Fixed::zero(),
{
    let factors = stats.condition_factors(&mods);
    let points = DpsModel::zero().condition_points.add(mods.condition_points);
    assert(points == PerCondition::splat(Fixed::zero()));
    assert(points.mul(factors) == PerCondition::splat(Fixed::zero())) by {
        lemma_zero_times(factors.bleed);
        lemma_zero_times(factors.burn);
        lemma_zero_times(factors.confuse);
        lemma_zero_times(factors.poison);
        lemma_zero_times(factors.torment);
    }
    lemma_zero_times(stats.strike_factor(&mods));
}

/// Zero times anything is zero.
pub proof fn lemma_zero_times(x: Fixed)
    ensures
        Fixed::zero().mul(x) == Fixed::zero(),
{
    assert(0 * x.raw == 0);
}

/// No strike points and no condition points of the model are negative.
pub open spec fn model_nonneg(model: DpsModel) -> bool {
    0 <= model.strike_points.raw && conditions_nonneg(model.condition_points)
}

/// The share `percent` of a damage `dps`, where neither is negative, is not negative.
pub proof fn lemma_share_nonneg(dps: Fixed, percent: Fixed)
    requires
        0 <= dps.raw,
        0 <= percent.raw,
    ensures
        0 <= dps.mul(percent).div(Fixed::from_int(100)).raw,
        0 <= percent.mul(dps).div(Fixed::from_int(100)).raw,
{
    lemma_mul_monotone(dps, percent, dps, percent);
    lemma_mul_monotone(percent, dps, percent, dps);
    lemma_div_nonneg(dps.mul(percent), Fixed::from_int(100));
    lemma_div_nonneg(percent.mul(dps), Fixed::from_int(100));
}

/// A sample without negative numbers gives a model without negative points.
///
/// The attributes, the modifiers, the damage and the shares of the conditions are not
/// negative, the shares make up no more than 100 percent, and the modifiers account no
/// condition points to gear.
pub proof fn lemma_calibrate_nonneg(
    stats: Stats,
    mods: Modifiers,
    dps: Fixed,
    condition_percent: PerCondition<Fixed>,
    boon_uptime: PerBoon<Fixed>,
)
    requires
        stats_nonneg(stats),
        mods_nonneg(mods),
        mods.condition_points == PerCondition::splat(Fixed::zero()),
        0 <= dps.raw,
        conditions_nonneg(condition_percent),
        condition_percent.bleed.raw + condition_percent.burn.raw + condition_percent.confuse.raw
            + condition_percent.poison.raw + condition_percent.torment.raw <= 100 * SCALE,
    ensures
        model_nonneg(DpsModel::calibrate(&stats, &mods, dps, condition_percent, boon_uptime)),
{
    let pc = condition_percent;
    let hundred = Fixed::from_int(100);
    let factors = stats.condition_factors(&mods);
    lemma_strike_factor_monotone(stats, stats, mods);
    lemma_condition_factor_monotone(stats, stats, mods, Condition::Bleed);
    lemma_condition_factor_monotone(stats, stats, mods, Condition::Burn);
    lemma_condition_factor_monotone(stats, stats, mods, Condition::Confuse);
    lemma_condition_factor_monotone(stats, stats, mods, Condition::Poison);
    lemma_condition_factor_monotone(stats, stats, mods, Condition::Torment);
    let strike_percent = hundred.sub(pc.sum());
    assert(0 <= strike_percent.raw);
    lemma_share_nonneg(dps, strike_percent);
    lemma_div_nonneg(dps.mul(strike_percent).div(hundred), stats.strike_factor(&mods));
    lemma_share_nonneg(dps, pc.bleed);
    lemma_div_nonneg(pc.bleed.mul(dps).div(hundred), factors.bleed);
    lemma_share_nonneg(dps, pc.burn);
    lemma_div_nonneg(pc.burn.mul(dps).div(hundred), factors.burn);
    lemma_share_nonneg(dps, pc.confuse);
    lemma_div_nonneg(pc.confuse.mul(dps).div(hundred), factors.confuse);
    lemma_share_nonneg(dps, pc.poison);
    lemma_div_nonneg(pc.poison.mul(dps).div(hundred), factors.poison);
    lemma_share_nonneg(dps, pc.torment);
    lemma_div_nonneg(pc.torment.mul(dps).div(hundred), factors.torment);
}

/// More of any attribute never lowers the damage that a model gives, and the damage is not
/// negative, where neither the points of the model, nor the attributes, nor the modifiers
/// are negative.
pub proof fn lemma_calc_dps_monotone(model: DpsModel, s: Stats, t: Stats, m: Modifiers)
    requires
        model_nonneg(model),
        stats_nonneg(s),
        stats_le(s, t),
        mods_nonneg(m),
    ensures
        0 <= model.calc_dps(&s, &m).raw <= model.calc_dps(&t, &m).raw,
{
    lemma_strike_factor_monotone(s, t, m);
    lemma_mul_monotone(
        model.strike_points,
        s.strike_factor(&m),
        model.strike_points,
        t.strike_factor(&m),
    );
    let points = model.condition_points.add(m.condition_points);
    let fs = s.condition_factors(&m);
    let ft = t.condition_factors(&m);
    lemma_condition_factor_monotone(s, t, m, Condition::Bleed);
    lemma_mul_monotone(points.bleed, fs.bleed, points.bleed, ft.bleed);
    lemma_condition_factor_monotone(s, t, m, Condition::Burn);
    lemma_mul_monotone(points.burn, fs.burn, points.burn, ft.burn);
    lemma_condition_factor_monotone(s, t, m, Condition::Confuse);
    lemma_mul_monotone(points.confuse, fs.confuse, points.confuse, ft.confuse);
    lemma_condition_factor_monotone(s, t, m, Condition::Poison);
    lemma_mul_monotone(points.poison, fs.poison, points.poison, ft.poison);
    lemma_condition_factor_monotone(s, t, m, Condition::Torment);
    lemma_mul_monotone(points.torment, fs.torment, points.torment, ft.torment);
}

/// Largest damage per second, in raw units, for which the round trip of a calibration is
/// stated: a thousand million.
pub open spec fn dps_limit() -> int {
    1_000_000_000 * SCALE
}

/// The factor lies in the range for which the round trip of a calibration is stated: from a
/// thousandth to a million.
pub open spec fn factor_in_range(f: Fixed) -> bool {
    1_000 <= f.raw <= 1_000_000 * SCALE
}

/// The sample lies in the range for which the round trip of a calibration is stated.
///
/// The damage is not negative and within [`dps_limit`]; the shares of the conditions are not
/// negative and make up no more than 100 percent; the damage of one point of each kind is in
/// range; and the points that gear adds are within the limit of the damage.
pub open spec fn sample_in_range(
    stats: &Stats,
    mods: &Modifiers,
    dps: Fixed,
    condition_percent: PerCondition<Fixed>,
) -> bool {
    let factors = stats.condition_factors(mods);
    let extra = mods.condition_points;
    &&& 0 <= dps.raw <= dps_limit()
    &&& 0 <= condition_percent.bleed.raw
    &&& 0 <= condition_percent.burn.raw
    &&& 0 <= condition_percent.confuse.raw
    &&& 0 <= condition_percent.poison.raw
    &&& 0 <= condition_percent.torment.raw
    &&& condition_percent.bleed.raw + condition_percent.burn.raw + condition_percent.confuse.raw
        + condition_percent.poison.raw + condition_percent.torment.raw <= 100 * SCALE
    &&& factor_in_range(stats.strike_factor(mods))
    &&& factor_in_range(factors.bleed)
    &&& factor_in_range(factors.burn)
    &&& factor_in_range(factors.confuse)
    &&& factor_in_range(factors.poison)
    &&& factor_in_range(factors.torment)
    &&& -dps_limit() <= extra.bleed.raw <= dps_limit()
    &&& -dps_limit() <= extra.burn.raw <= dps_limit()
    &&& -dps_limit() <= extra.confuse.raw <= dps_limit()
    &&& -dps_limit() <= extra.poison.raw <= dps_limit()
    &&& -dps_limit() <= extra.torment.raw <= dps_limit()
}

/// How far below the observed damage the round trip of a calibration may fall, in raw units:
/// eleven, and for each kind of damage the whole part of the damage of one point.
pub open spec fn round_trip_slack(stats: &Stats, mods: &Modifiers) -> int {
    let factors = stats.condition_factors(mods);
    11 + stats.strike_factor(mods).raw / SCALE + factors.bleed.raw / SCALE
        + factors.burn.raw / SCALE + factors.confuse.raw / SCALE
        + factors.poison.raw / SCALE + factors.torment.raw / SCALE
}

/// The share `percent` of the damage `dps`.
#[verifier::opaque]
pub open spec fn share_of(dps: Fixed, percent: Fixed) -> Fixed {
    dps.mul(percent).div(Fixed::from_int(100))
}

/// One kind of damage on its way through a calibration and back: the share `percent` of the
/// damage `dps`, divided by the damage `factor` of one point, less the points `extra` of
/// gear, and then all of that undone.
#[verifier::opaque]
pub open spec fn share_back(dps: Fixed, percent: Fixed, factor: Fixed, extra: Fixed) -> Fixed {
    dps.mul(percent).div(Fixed::from_int(100)).div(factor).sub(extra).add(extra).mul(factor)
}

/// What comes back of a share is at most the share, and below it by no more than the whole
/// part of the factor and one.
pub proof fn lemma_share_round_trip(dps: Fixed, percent: Fixed, factor: Fixed, extra: Fixed)
    requires
        0 <= dps.raw <= dps_limit(),
        0 <= percent.raw <= 100 * SCALE,
        factor_in_range(factor),
        -dps_limit() <= extra.raw <= dps_limit(),
    ensures
        0 <= share_of(dps, percent).raw <= dps.raw,
        100 * SCALE * share_of(dps, percent).raw <= dps.raw * percent.raw,
        dps.raw * percent.raw < 100 * SCALE * share_of(dps, percent).raw + 100 * SCALE,
        share_of(dps, percent).raw - factor.raw / SCALE - 1 <= share_back(
            dps,
            percent,
            factor,
            extra,
        ).raw <= share_of(dps, percent).raw,
{
    reveal(share_of);
    reveal(share_back);
    let t = dps.raw as int;
    let p = percent.raw as int;
    let f = factor.raw as int;
    let x = t * p;
    assert(0 <= x <= t * 100_000_000) by (nonlinear_arith)
        requires
            0 <= t,
            0 <= p <= 100_000_000,
            x == t * p,
    ;
    lemma_mul_nonneg(dps, percent);
    let whole = dps.mul(percent);
    let u = x / 1_000_000;
    assert(whole.raw == u);
    assert(Fixed::from_int(100).raw == 100_000_000);
    lemma_div_pos(whole, Fixed::from_int(100));
    let share = whole.div(Fixed::from_int(100));
    assert((u * 1_000_000) / 100_000_000 == u / 100) by (nonlinear_arith)
        requires
            0 <= u,
    ;
    let d = u / 100;
    assert(share.raw == d);
    assert(0 <= d <= t);
    assert(1_000_000 * u <= x < 1_000_000 * u + 1_000_000);
    assert(100 * d <= u < 100 * d + 100);

    lemma_div_pos(share, factor);
    let z = d * 1_000_000;
    let q = z / f;
    vstd::arithmetic::div_mod::lemma_fundamental_div_mod(z, f);
    vstd::arithmetic::div_mod::lemma_mod_pos_bound(z, f);
    let r = z % f;
    assert(z == f * q + r);
    assert(0 <= q <= d * 1_000) by (nonlinear_arith)
        requires
            z == f * q + r,
            0 <= r < f,
            1_000 <= f,
            z == d * 1_000_000,
            0 <= d,
    ;
    let points = share.div(factor);
    assert(points.raw == q);
    assert(points.sub(extra).add(extra) == points);
    lemma_mul_nonneg(points, factor);
    let w = q * f;
    assert(w == z - r) by (nonlinear_arith)
        requires
            z == f * q + r,
            w == q * f,
    ;
    let back = points.mul(factor);
    assert(back.raw == w / 1_000_000);
    let k = f / 1_000_000;
    assert(d - k - 1 <= w / 1_000_000 <= d);
}

/// What a calibrated model gives with the attributes and modifiers of its sample, in terms
/// of the shares of the damage.
pub proof fn lemma_calibration_terms(
    stats: Stats,
    mods: Modifiers,
    dps: Fixed,
    pc: PerCondition<Fixed>,
    boon_uptime: PerBoon<Fixed>,
)
    ensures
        ({
            let factors = stats.condition_factors(&mods);
            let extra = mods.condition_points;
            let strike_percent = Fixed::from_int(100).sub(pc.sum());
            let model = DpsModel::calibrate(&stats, &mods, dps, pc, boon_uptime);
            model.calc_dps(&stats, &mods) == share_back(
                dps,
                strike_percent,
                stats.strike_factor(&mods),
                Fixed::zero(),
            ).add(
                share_back(dps, pc.bleed, factors.bleed, extra.bleed).add(
                    share_back(dps, pc.burn, factors.burn, extra.burn),
                ).add(share_back(dps, pc.confuse, factors.confuse, extra.confuse)).add(
                    share_back(dps, pc.poison, factors.poison, extra.poison),
                ).add(share_back(dps, pc.torment, factors.torment, extra.torment)),
            )
        }),
{
    reveal(share_back);
    let sf = stats.strike_factor(&mods);
    let strike_percent = Fixed::from_int(100).sub(pc.sum());
    let points = dps.mul(strike_percent).div(Fixed::from_int(100)).div(sf);
    assert(points.sub(Fixed::zero()).add(Fixed::zero()) == points);
    assert(pc.bleed.mul(dps) == dps.mul(pc.bleed)) by {
        assert(pc.bleed.raw * dps.raw == dps.raw * pc.bleed.raw) by (nonlinear_arith);
    }
    assert(pc.burn.mul(dps) == dps.mul(pc.burn)) by {
        assert(pc.burn.raw * dps.raw == dps.raw * pc.burn.raw) by (nonlinear_arith);
    }
    assert(pc.confuse.mul(dps) == dps.mul(pc.confuse)) by {
        assert(pc.confuse.raw * dps.raw == dps.raw * pc.confuse.raw) by (nonlinear_arith);
    }
    assert(pc.poison.mul(dps) == dps.mul(pc.poison)) by {
        assert(pc.poison.raw * dps.raw == dps.raw * pc.poison.raw) by (nonlinear_arith);
    }
    assert(pc.torment.mul(dps) == dps.mul(pc.torment)) by {
        assert(pc.torment.raw * dps.raw == dps.raw * pc.torment.raw) by (nonlinear_arith);
    }
}

/// A calibration undone gives back the observed damage, or a little less.
///
/// For a sample in range, the damage that the calibrated model gives with the attributes and
/// modifiers of the sample is at most the observed damage, and falls below it by no more
/// than [`round_trip_slack`] raw units: with factors in the hundreds, a few thousandths.
pub proof fn lemma_calibration_round_trip(
    stats: Stats,
    mods: Modifiers,
    dps: Fixed,
    condition_percent: PerCondition<Fixed>,
    boon_uptime: PerBoon<Fixed>,
)
    requires
        sample_in_range(&stats, &mods, dps, condition_percent),
    ensures
        ({
            let model = DpsModel::calibrate(&stats, &mods, dps, condition_percent, boon_uptime);
            let back = model.calc_dps(&stats, &mods);
            dps.raw - round_trip_slack(&stats, &mods) <= back.raw <= dps.raw
        }),
{
    let factors = stats.condition_factors(&mods);
    let extra = mods.condition_points;
    let pc = condition_percent;
    let strike_percent = Fixed::from_int(100).sub(pc.sum());
    assert(Fixed::from_int(100).raw == 100_000_000);
    assert(pc.sum().raw == pc.bleed.raw + pc.burn.raw + pc.confuse.raw + pc.poison.raw
        + pc.torment.raw);
    assert(strike_percent.raw == 100_000_000 - pc.sum().raw);
    let sf = stats.strike_factor(&mods);

    lemma_calibration_terms(stats, mods, dps, pc, boon_uptime);
    lemma_shares_round_trip(
        dps,
        [strike_percent, pc.bleed, pc.burn, pc.confuse, pc.poison, pc.torment],
        [sf, factors.bleed, factors.burn, factors.confuse, factors.poison, factors.torment],
        [Fixed::zero(), extra.bleed, extra.burn, extra.confuse, extra.poison, extra.torment],
    );
}

/// The tolerance within which a calibration undone is to reproduce the observed damage, in
/// raw units: a ten-thousandth of the damage, or of one where the damage is less than one.
pub open spec fn round_trip_tolerance(dps: Fixed) -> int {
    if dps.raw <= SCALE {
        100
    } else {
        dps.raw / 10_000
    }
}

/// A calibration undone reproduces the observed damage within [`round_trip_tolerance`], for
/// a sample in range whose [`round_trip_slack`] lies within that tolerance: one whose
/// factors are small beside ten thousand times its damage.
pub proof fn lemma_calibration_within_tolerance(
    stats: Stats,
    mods: Modifiers,
    dps: Fixed,
    condition_percent: PerCondition<Fixed>,
    boon_uptime: PerBoon<Fixed>,
)
    requires
        sample_in_range(&stats, &mods, dps, condition_percent),
        round_trip_slack(&stats, &mods) <= round_trip_tolerance(dps),
    ensures
        ({
            let model = DpsModel::calibrate(&stats, &mods, dps, condition_percent, boon_uptime);
            let back = model.calc_dps(&stats, &mods);
            dps.raw - round_trip_tolerance(dps) <= back.raw <= dps.raw + round_trip_tolerance(dps)
        }),
{
    lemma_calibration_round_trip(stats, mods, dps, condition_percent, boon_uptime);
}

/// Six kinds of damage whose shares make up the whole, each on its way through a
/// calibration and back, add up to the whole or a little less.
pub proof fn lemma_shares_round_trip(
    dps: Fixed,
    percent: [Fixed; 6],
    factor: [Fixed; 6],
    extra: [Fixed; 6],
)
    requires
        0 <= dps.raw <= dps_limit(),
        forall|i: int| 0 <= i < 6 ==> 0 <= (#[trigger] percent[i]).raw,
        percent[0].raw + percent[1].raw + percent[2].raw + percent[3].raw + percent[4].raw
            + percent[5].raw == 100 * SCALE,
        forall|i: int| 0 <= i < 6 ==> factor_in_range(#[trigger] factor[i]),
        forall|i: int| 0 <= i < 6 ==> -dps_limit() <= (#[trigger] extra[i]).raw <= dps_limit(),
    ensures
        ({
            let back = share_back(dps, percent[0], factor[0], extra[0]).add(
                share_back(dps, percent[1], factor[1], extra[1]).add(
                    share_back(dps, percent[2], factor[2], extra[2]),
                ).add(share_back(dps, percent[3], factor[3], extra[3])).add(
                    share_back(dps, percent[4], factor[4], extra[4]),
                ).add(share_back(dps, percent[5], factor[5], extra[5])),
            );
            let slack = 11 + factor[0].raw / SCALE + factor[1].raw / SCALE + factor[2].raw / SCALE
                + factor[3].raw / SCALE + factor[4].raw / SCALE + factor[5].raw / SCALE;
            dps.raw - slack <= back.raw <= dps.raw
        }),
{
    assert forall|i: int| 0 <= i < 6 implies {
        &&& 0 <= share_of(dps, #[trigger] percent[i]).raw <= dps.raw
        &&& 100 * SCALE * share_of(dps, percent[i]).raw <= dps.raw * percent[i].raw
        &&& dps.raw * percent[i].raw < 100 * SCALE * share_of(dps, percent[i]).raw + 100 * SCALE
        &&& share_of(dps, percent[i]).raw - factor[i].raw / SCALE - 1 <= share_back(
            dps,
            percent[i],
            factor[i],
            extra[i],
        ).raw <= share_of(dps, percent[i]).raw
    } by {
        assert(0 <= percent[i].raw);
        assert(factor_in_range(factor[i]));
        assert(-dps_limit() <= extra[i].raw);
        lemma_share_round_trip(dps, percent[i], factor[i], extra[i]);
    }
    lemma_shares_add_up(
        dps.raw as int,
        percent[0].raw as int,
        percent[1].raw as int,
        percent[2].raw as int,
        percent[3].raw as int,
        percent[4].raw as int,
        percent[5].raw as int,
        share_of(dps, percent[0]).raw as int,
        share_of(dps, percent[1]).raw as int,
        share_of(dps, percent[2]).raw as int,
        share_of(dps, percent[3]).raw as int,
        share_of(dps, percent[4]).raw as int,
        share_of(dps, percent[5]).raw as int,
    );
    lemma_sum_of_six(
        share_back(dps, percent[0], factor[0], extra[0]),
        share_back(dps, percent[1], factor[1], extra[1]),
        share_back(dps, percent[2], factor[2], extra[2]),
        share_back(dps, percent[3], factor[3], extra[3]),
        share_back(dps, percent[4], factor[4], extra[4]),
        share_back(dps, percent[5], factor[5], extra[5]),
    );
}

/// Six amounts of moderate size add up without saturating.
pub proof fn lemma_sum_of_six(b0: Fixed, b1: Fixed, b2: Fixed, b3: Fixed, b4: Fixed, b5: Fixed)
    requires
        -2 * dps_limit() <= b0.raw <= 2 * dps_limit(),
        -2 * dps_limit() <= b1.raw <= 2 * dps_limit(),
        -2 * dps_limit() <= b2.raw <= 2 * dps_limit(),
        -2 * dps_limit() <= b3.raw <= 2 * dps_limit(),
        -2 * dps_limit() <= b4.raw <= 2 * dps_limit(),
        -2 * dps_limit() <= b5.raw <= 2 * dps_limit(),
    ensures
        b0.add(b1.add(b2).add(b3).add(b4).add(b5)).raw == b0.raw + b1.raw + b2.raw + b3.raw
            + b4.raw + b5.raw,
{
    let s2 = b1.add(b2);
    assert(s2.raw == b1.raw + b2.raw);
    let s3 = s2.add(b3);
    assert(s3.raw == s2.raw + b3.raw);
    let s4 = s3.add(b4);
    assert(s4.raw == s3.raw + b4.raw);
    let s5 = s4.add(b5);
    assert(s5.raw == s4.raw + b5.raw);
    assert(b0.add(s5).raw == b0.raw + s5.raw);
}

/// Shares of six parts that make up the whole add up to the whole, but for what rounding each
/// of them down has lost.
pub proof fn lemma_shares_add_up(
    t: int,
    r0: int,
    r1: int,
    r2: int,
    r3: int,
    r4: int,
    r5: int,
    s0: int,
    s1: int,
    s2: int,
    s3: int,
    s4: int,
    s5: int,
)
    requires
        r0 + r1 + r2 + r3 + r4 + r5 == 100_000_000,
        100_000_000 * s0 <= t * r0 < 100_000_000 * s0 + 100_000_000,
        100_000_000 * s1 <= t * r1 < 100_000_000 * s1 + 100_000_000,
        100_000_000 * s2 <= t * r2 < 100_000_000 * s2 + 100_000_000,
        100_000_000 * s3 <= t * r3 < 100_000_000 * s3 + 100_000_000,
        100_000_000 * s4 <= t * r4 < 100_000_000 * s4 + 100_000_000,
        100_000_000 * s5 <= t * r5 < 100_000_000 * s5 + 100_000_000,
    ensures
        t - 5 <= s0 + s1 + s2 + s3 + s4 + s5 <= t,
{
    let total = t * r0 + t * r1 + t * r2 + t * r3 + t * r4 + t * r5;
    assert(total == t * 100_000_000) by (nonlinear_arith)
        requires
            total == t * r0 + t * r1 + t * r2 + t * r3 + t * r4 + t * r5,
            r0 + r1 + r2 + r3 + r4 + r5 == 100_000_000,
    ;
}

} // verus!
