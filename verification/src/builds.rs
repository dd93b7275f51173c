//! Builds that come with the library.

use crate::character::{
    lemma_calc_dps_monotone, lemma_calibrate_nonneg, model_nonneg, score, Baseline,
    CharacterModel, CombatSecond, DpsModel,
};
use crate::effect::boon::{lemma_old_might_steady, OldMight};
use crate::effect::food::{lemma_food_steady, Food, PotatoLeekSoup};
use crate::effect::rune::{lemma_rune_steady, Krait, Rune};
use crate::effect::sigil::{lemma_sigil_steady, Agony, Sigil, Smoldering};
use crate::effect::{
    apply_round, apply_rounds, apply_spec, grows, is_steady, lemma_chain_steady,
    lemma_neutral_steady, lemma_no_effect_neutral, lemma_steady_apply, Chain, Effect, EffectExt,
    NoEffect, ROUNDS,
};
use crate::fixed::{lemma_mul_monotone, Fixed};
use crate::gear::{catalog_nonneg, Catalog, GearSlot, Quality};
use crate::optimize::fine::{
    build_objective, fine_space, is_fine_outcome, lemma_fine_space_nonneg, objective_monotone,
    reached_objective, target_bands,
};
use crate::stats::{
    base_stats, lemma_crit_chance_monotone, mods_nonneg, stats_le, stats_nonneg, ArmorWeight,
    Condition, HealthTier, Modifiers, PerBoon, PerCondition, PerStat, Stats,
};
use crate::vary::Vary;
use vstd::prelude::*;

verus! {

/// The configuration of a build whose rune, sigils, food and utility are settled: one field,
/// which holds the one value there is.
#[derive(Clone, Copy, Debug, PartialEq, Eq, Structural, Hash, Default)]
pub struct Settled;

impl Vary for Settled {
    open spec fn arity(&self) -> Seq<u16> {
        seq![1u16]
    }

    open spec fn fields(&self) -> Seq<u16> {
        seq![0u16]
    }

    fn num_fields(&self) -> (n: usize) {
        1
    }

    fn num_field_values(&self, field: usize) -> (n: u16) {
        1
    }

    fn get_field(&self, field: usize) -> (value: u16) {
        0
    }

    fn set_field(&mut self, field: usize, value: u16) {
        assert(seq![0u16] =~= seq![0u16].update(field as int, value));
    }
}

/// A tank in medium armor with a fixed configuration.  It must keep up its healing power and
/// concentration, and beyond that wants as much effective health as it can get.
#[derive(Clone, Copy, Debug, PartialEq, Eq, Structural, Default)]
pub struct MechTank;

impl MechTank {
    /// Healing power and concentration that the build needs: nine tenths of 961.
    pub open spec fn spec_min_support() -> Fixed {
        Fixed::from_int(961).mul(Fixed::from_ratio(9, 10))
    }

    /// Healing power and concentration that the build needs.
    #[verifier::when_used_as_spec(spec_min_support)]
    pub fn min_support() -> (r: Fixed)
        ensures
            r == MechTank::spec_min_support(),
    {
        Fixed::from_int(961).mul(Fixed::from_ratio(9, 10))
    }

    /// Penalty for a build that lacks support.
    pub open spec fn spec_penalty() -> Fixed {
        Fixed::from_int(20000)
    }

    /// Penalty for a build that lacks support.
    #[verifier::when_used_as_spec(spec_penalty)]
    pub fn penalty() -> (r: Fixed)
        ensures
            r == MechTank::spec_penalty(),
    {
        Fixed::from_int(20000)
    }

    /// Health scaled by how much more armor than an unequipped character the build has.
    pub open spec fn spec_effective_health(stats: &Stats, mods: &Modifiers) -> Fixed {
        let armor = stats.armor(mods, ArmorWeight::Medium);
        let base_armor = ArmorWeight::Medium.base_armor().add(base_stats().toughness);
        stats.max_health(mods, HealthTier::Mid).mul(armor).div(base_armor)
    }

    /// Health scaled by how much more armor than an unequipped character the build has.
    #[verifier::when_used_as_spec(spec_effective_health)]
    pub fn effective_health(stats: &Stats, mods: &Modifiers) -> (r: Fixed)
        ensures
            r == MechTank::spec_effective_health(stats, mods),
    {
        let armor = stats.armor(mods, ArmorWeight::Medium);
        let base_armor = ArmorWeight::Medium.base_armor().add(base_stats().toughness);
        stats.max_health(mods, HealthTier::Mid).mul(armor).div(base_armor)
    }
}

impl CharacterModel for MechTank {
    type Config = Settled;

    open spec fn wf(&self) -> bool {
        true
    }

    open spec fn config_valid(&self, config: &Settled) -> bool {
        true
    }

    open spec fn stats_of(&self, gear: &Stats, config: &Settled) -> (Stats, Modifiers, CombatSecond) {
        (base_stats().add(*gear), Modifiers::neutral(), CombatSecond::zero())
    }

    /// A shortfall of healing power or of concentration costs the penalty and the shortfall;
    /// a build without shortfall scores its effective health, negated.
    open spec fn objective(
        &self,
        config: &Settled,
        stats: &Stats,
        mods: &Modifiers,
        combat: &CombatSecond,
    ) -> Fixed {
        let min = MechTank::min_support();
        if stats.healing_power.raw < min.raw {
            MechTank::penalty().add(min.sub(stats.healing_power))
        } else if stats.concentration.raw < min.raw {
            MechTank::penalty().add(min.sub(stats.concentration))
        } else {
            MechTank::effective_health(stats, mods).neg()
        }
    }

    fn is_config_valid(&self, config: &Settled) -> (valid: bool) {
        true
    }

    fn calc_stats(&self, gear: &Stats, config: &Settled) -> (r: (Stats, Modifiers, CombatSecond)) {
        (base_stats().add(*gear), Modifiers::default(), CombatSecond::zero())
    }

    fn evaluate(
        &self,
        config: &Settled,
        stats: &Stats,
        mods: &Modifiers,
        combat: &CombatSecond,
    ) -> (m: Fixed) {
        let min = MechTank::min_support();
        if stats.healing_power.lt(min) {
            return MechTank::penalty().add(min.sub(stats.healing_power));
        }
        if stats.concentration.lt(min) {
            return MechTank::penalty().add(min.sub(stats.concentration));
        }
        MechTank::effective_health(stats, mods).neg()
    }
}

/// Fury at full uptime, with the further critical chance that Quiet Intensity gives under
/// fury.
#[derive(Clone, Copy, Debug, PartialEq, Eq, Structural, Hash, Default)]
pub struct FuryUptime;

impl Effect for FuryUptime {
    open spec fn temporary(&self, stats: Stats, mods: Modifiers, combat: CombatSecond) -> (
        Stats,
        Modifiers,
    ) {
        (
            stats,
            Modifiers {
                crit_chance: mods.crit_chance.add(Fixed::from_int(25)).add(Fixed::from_int(15)),
                ..mods
            },
        )
    }

    fn add_permanent(&self, stats: &mut Stats, mods: &mut Modifiers) {
    }

    fn distribute(&self, stats: &mut Stats, mods: &mut Modifiers) {
    }

    fn add_temporary(&self, stats: &mut Stats, mods: &mut Modifiers, combat: &CombatSecond) {
        mods.crit_chance = mods.crit_chance.add(Fixed::from_int(25)).add(Fixed::from_int(15));
    }

    fn combat_procs(&self, events: &CombatSecond, combat: &mut CombatSecond) {
    }
}

/// Trait: Superiority Complex, with its further bonus against disabled foes.
#[derive(Clone, Copy, Debug, PartialEq, Eq, Structural, Hash, Default)]
pub struct SuperiorityComplex;

impl Effect for SuperiorityComplex {
    open spec fn temporary(&self, stats: Stats, mods: Modifiers, combat: CombatSecond) -> (
        Stats,
        Modifiers,
    ) {
        (
            stats,
            Modifiers {
                crit_damage: mods.crit_damage.add(Fixed::from_int(15)).add(Fixed::from_int(10)),
                ..mods
            },
        )
    }

    fn add_permanent(&self, stats: &mut Stats, mods: &mut Modifiers) {
    }

    fn distribute(&self, stats: &mut Stats, mods: &mut Modifiers) {
    }

    fn add_temporary(&self, stats: &mut Stats, mods: &mut Modifiers, combat: &CombatSecond) {
        mods.crit_damage = mods.crit_damage.add(Fixed::from_int(15)).add(Fixed::from_int(10));
    }

    fn combat_procs(&self, events: &CombatSecond, combat: &mut CombatSecond) {
    }
}

/// Trait: Compounding Power, at one stack.
#[derive(Clone, Copy, Debug, PartialEq, Eq, Structural, Hash, Default)]
pub struct CompoundingPower;

impl Effect for CompoundingPower {
    open spec fn temporary(&self, stats: Stats, mods: Modifiers, combat: CombatSecond) -> (
        Stats,
        Modifiers,
    ) {
        (
            PerStat { condition_damage: stats.condition_damage.add(Fixed::from_int(30)), ..stats },
            Modifiers { strike_damage: mods.strike_damage.add(Fixed::from_int(2)), ..mods },
        )
    }

    fn add_permanent(&self, stats: &mut Stats, mods: &mut Modifiers) {
    }

    fn distribute(&self, stats: &mut Stats, mods: &mut Modifiers) {
    }

    fn add_temporary(&self, stats: &mut Stats, mods: &mut Modifiers, combat: &CombatSecond) {
        mods.strike_damage = mods.strike_damage.add(Fixed::from_int(2));
        stats.condition_damage = stats.condition_damage.add(Fixed::from_int(30));
    }

    fn combat_procs(&self, events: &CombatSecond, combat: &mut CombatSecond) {
    }
}

/// Trait: Quiet Intensity, which adds a tenth of vitality to ferocity.
#[derive(Clone, Copy, Debug, PartialEq, Eq, Structural, Hash, Default)]
pub struct QuietIntensity;

impl Effect for QuietIntensity {
    open spec fn distributed(&self, stats: Stats, mods: Modifiers) -> (Stats, Modifiers) {
        (
            PerStat {
                ferocity: stats.ferocity.add(stats.vitality.mul(Fixed::from_ratio(1, 10))),
                ..stats
            },
            mods,
        )
    }

    fn add_permanent(&self, stats: &mut Stats, mods: &mut Modifiers) {
    }

    fn distribute(&self, stats: &mut Stats, mods: &mut Modifiers) {
        stats.ferocity = stats.ferocity.add(stats.vitality.mul(Fixed::from_ratio(1, 10)));
    }

    fn add_temporary(&self, stats: &mut Stats, mods: &mut Modifiers, combat: &CombatSecond) {
    }

    fn combat_procs(&self, events: &CombatSecond, combat: &mut CombatSecond) {
    }
}

/// Trait: Bloodsong, which adds a quarter to the damage of bleeding.
#[derive(Clone, Copy, Debug, PartialEq, Eq, Structural, Hash, Default)]
pub struct Bloodsong;

impl Effect for Bloodsong {
    open spec fn permanent(&self, stats: Stats, mods: Modifiers) -> (Stats, Modifiers) {
        (
            stats,
            Modifiers {
                condition_damage: mods.condition_damage.with(
                    Condition::Bleed,
                    mods.condition_damage.bleed.add(Fixed::from_int(25)),
                ),
                ..mods
            },
        )
    }

    fn add_permanent(&self, stats: &mut Stats, mods: &mut Modifiers) {
        mods.condition_damage.bleed = mods.condition_damage.bleed.add(Fixed::from_int(25));
    }

    fn distribute(&self, stats: &mut Stats, mods: &mut Modifiers) {
    }

    fn add_temporary(&self, stats: &mut Stats, mods: &mut Modifiers, combat: &CombatSecond) {
    }

    fn combat_procs(&self, events: &CombatSecond, combat: &mut CombatSecond) {
    }
}

/// Signet of Domination and Signet of Midnight, while neither is activated.
#[derive(Clone, Copy, Debug, PartialEq, Eq, Structural, Hash, Default)]
pub struct Signets;

impl Effect for Signets {
    open spec fn temporary(&self, stats: Stats, mods: Modifiers, combat: CombatSecond) -> (
        Stats,
        Modifiers,
    ) {
        (
            PerStat {
                condition_damage: stats.condition_damage.add(Fixed::from_int(180)),
                expertise: stats.expertise.add(Fixed::from_int(180)),
                ..stats
            },
            mods,
        )
    }

    fn add_permanent(&self, stats: &mut Stats, mods: &mut Modifiers) {
    }

    fn distribute(&self, stats: &mut Stats, mods: &mut Modifiers) {
    }

    fn add_temporary(&self, stats: &mut Stats, mods: &mut Modifiers, combat: &CombatSecond) {
        stats.condition_damage = stats.condition_damage.add(Fixed::from_int(180));
        stats.expertise = stats.expertise.add(Fixed::from_int(180));
    }

    fn combat_procs(&self, events: &CombatSecond, combat: &mut CombatSecond) {
    }
}

/// What a condition virtuoso can choose: a rune, the first sigil, and food.  The second sigil
/// is settled.
#[derive(Clone, Copy, Debug, PartialEq, Eq, Structural, Hash)]
pub struct Loadout {
    pub rune: Rune,
    pub sigil: Sigil,
    pub food: Food,
}

/// Three fields: the rune, the sigil, the food.
impl Vary for Loadout {
    open spec fn arity(&self) -> Seq<u16> {
        seq![Rune::COUNT, Sigil::COUNT, Food::COUNT]
    }

    open spec fn fields(&self) -> Seq<u16> {
        seq![self.rune.spec_index(), self.sigil.spec_index(), self.food.spec_index()]
    }

    open spec fn with_field(&self, field: int, value: u16) -> Loadout {
        if field == 0 {
            Loadout { rune: Rune::spec_from_index(value), ..*self }
        } else if field == 1 {
            Loadout { sigil: Sigil::spec_from_index(value), ..*self }
        } else {
            Loadout { food: Food::spec_from_index(value), ..*self }
        }
    }

    fn num_fields(&self) -> (n: usize) {
        3
    }

    fn num_field_values(&self, field: usize) -> (n: u16) {
        if field == 0 {
            Rune::COUNT
        } else if field == 1 {
            Sigil::COUNT
        } else {
            Food::COUNT
        }
    }

    fn get_field(&self, field: usize) -> (value: u16) {
        if field == 0 {
            self.rune.index()
        } else if field == 1 {
            self.sigil.index()
        } else {
            self.food.index()
        }
    }

    fn set_field(&mut self, field: usize, value: u16) {
        if field == 0 {
            self.rune = Rune::from_index(value);
        } else if field == 1 {
            self.sigil = Sigil::from_index(value);
        } else {
            self.food = Food::from_index(value);
        }
        assert(self.fields() =~= old(self).fields().update(field as int, value));
    }
}

/// What a condition virtuoso wears and eats: rune, sigils and food.
pub type VirtuosoGear = Chain<Chain<Chain<Chain<NoEffect, Rune>, Sigil>, Smoldering>, Food>;

/// The gear of a condition virtuoso, then its boons: might and fury.
pub type VirtuosoBoons = Chain<Chain<VirtuosoGear, OldMight>, FuryUptime>;

/// The gear and the boons of a condition virtuoso, then its traits.
pub type VirtuosoTraits = Chain<
    Chain<Chain<Chain<VirtuosoBoons, SuperiorityComplex>, CompoundingPower>, QuietIntensity>,
    Bloodsong,
>;

/// The effects of a condition virtuoso, in the order in which they apply.
pub type VirtuosoEffects = Chain<VirtuosoTraits, Signets>;

/// A condition virtuoso.  Its damage model comes from the log of a fight with a known build.
#[derive(Clone, Copy, Debug)]
pub struct CondiVirt {
    pub dps: DpsModel,
}

impl CondiVirt {
    /// The effects of the build with the configuration `config`: rune, sigils and food, 25
    /// stacks of might, fury, the traits, and the signets.
    pub open spec fn spec_effects(config: &Loadout) -> VirtuosoEffects {
        let gear = Chain(
            Chain(Chain(Chain(NoEffect, config.rune), config.sigil), Smoldering),
            config.food,
        );
        let boons = Chain(Chain(gear, OldMight(Fixed::from_int(25))), FuryUptime);
        let traits = Chain(
            Chain(Chain(Chain(boons, SuperiorityComplex), CompoundingPower), QuietIntensity),
            Bloodsong,
        );
        Chain(traits, Signets)
    }

    /// The effects of the build with the configuration `config`.
    #[verifier::when_used_as_spec(spec_effects)]
    pub fn effects(config: &Loadout) -> (r: VirtuosoEffects)
        ensures
            r == CondiVirt::spec_effects(config),
            r.wf(),
    {
        NoEffect
            .chain(config.rune)
            .chain(config.sigil)
            .chain(Smoldering)
            .chain(config.food)
            .chain(OldMight(Fixed::from_int(25)))
            .chain(FuryUptime)
            .chain(SuperiorityComplex)
            .chain(CompoundingPower)
            .chain(QuietIntensity)
            .chain(Bloodsong)
            .chain(Signets)
    }

    /// The configuration that the build was logged with.
    pub open spec fn spec_baseline_config() -> Loadout {
        Loadout {
            rune: Rune::Krait(Krait),
            sigil: Sigil::Agony(Agony),
            food: Food::PotatoLeekSoup(PotatoLeekSoup),
        }
    }

    /// The configuration that the build was logged with.
    #[verifier::when_used_as_spec(spec_baseline_config)]
    pub fn baseline_config() -> (r: Loadout)
        ensures
            r == CondiVirt::spec_baseline_config(),
    {
        Loadout {
            rune: Rune::Krait(Krait),
            sigil: Sigil::Agony(Agony),
            food: Food::PotatoLeekSoup(PotatoLeekSoup),
        }
    }

    /// The logged fight: the attributes of the gear alone, as the game shows them, the
    /// damage per second, and what percent of it came from each condition.
    pub open spec fn spec_baseline() -> Baseline<Loadout> {
        Baseline {
            gear: PerStat {
                power: Fixed::from_int(986),
                precision: Fixed::from_int(981),
                condition_damage: Fixed::from_int(1012),
                expertise: Fixed::from_int(255),
                ..PerStat::splat(Fixed::zero())
            },
            config: CondiVirt::baseline_config(),
            dps: Fixed::from_int(30063),
            condition_percent: PerCondition {
                bleed: Fixed::from_ratio(599, 10),
                torment: Fixed::from_ratio(103, 10),
                confuse: Fixed::from_ratio(13, 10),
                poison: Fixed::from_ratio(2, 10),
                ..PerCondition::splat(Fixed::zero())
            },
            boon_uptime: PerBoon::splat(Fixed::zero()),
        }
    }

    /// The logged fight.
    #[verifier::when_used_as_spec(spec_baseline)]
    pub fn baseline() -> (r: Baseline<Loadout>)
        ensures
            r == CondiVirt::spec_baseline(),
    {
        Baseline {
            gear: PerStat {
                power: Fixed::from_int(986),
                precision: Fixed::from_int(981),
                condition_damage: Fixed::from_int(1012),
                expertise: Fixed::from_int(255),
                ..PerStat::splat(Fixed::zero())
            },
            config: CondiVirt::baseline_config(),
            dps: Fixed::from_int(30063),
            condition_percent: PerCondition {
                bleed: Fixed::from_ratio(599, 10),
                torment: Fixed::from_ratio(103, 10),
                confuse: Fixed::from_ratio(13, 10),
                poison: Fixed::from_ratio(2, 10),
                ..PerCondition::splat(Fixed::zero())
            },
            boon_uptime: PerBoon::splat(Fixed::zero()),
        }
    }

    /// The build, with the damage model of its logged fight.  The attributes of the sample
    /// do not depend on the damage model, so a build with the zero model serves to calculate
    /// them.
    pub open spec fn spec_new() -> CondiVirt {
        let blank = CondiVirt { dps: DpsModel::zero() };
        let sample = blank.stats_of(&CondiVirt::baseline().gear, &CondiVirt::baseline_config());
        CondiVirt {
            dps: DpsModel::spec_calibrate(
                &sample.0,
                &sample.1,
                CondiVirt::baseline().dps,
                CondiVirt::baseline().condition_percent,
                CondiVirt::baseline().boon_uptime,
            ),
        }
    }

    /// The build, with the damage model of its logged fight.
    #[verifier::when_used_as_spec(spec_new)]
    pub fn new() -> (r: CondiVirt)
        ensures
            r == CondiVirt::spec_new(),
    {
        let blank = CondiVirt { dps: DpsModel::zero() };
        let dps = DpsModel::new(&blank, CondiVirt::baseline());
        CondiVirt { dps }
    }

    /// Penalty for a build that does not always hit critically.
    pub open spec fn spec_crit_penalty() -> Fixed {
        Fixed::from_int(1000)
    }

    /// Penalty for a build that does not always hit critically.
    #[verifier::when_used_as_spec(spec_crit_penalty)]
    pub fn crit_penalty() -> (r: Fixed)
        ensures
            r == CondiVirt::spec_crit_penalty(),
    {
        Fixed::from_int(1000)
    }
}

impl CharacterModel for CondiVirt {
    type Config = Loadout;

    open spec fn stats_of(&self, gear: &Stats, config: &Loadout) -> (
        Stats,
        Modifiers,
        CombatSecond,
    ) {
        apply_spec(
            &CondiVirt::effects(config),
            base_stats().add(*gear),
            Modifiers::neutral(),
            CombatSecond::zero(),
        )
    }

    /// The build needs every hit to be critical, since the damage model does not reason
    /// about what critical hits trigger: a chance below 100 percent costs the penalty and
    /// the shortfall.  A build without shortfall scores its damage, negated.
    open spec fn objective(
        &self,
        config: &Loadout,
        stats: &Stats,
        mods: &Modifiers,
        combat: &CombatSecond,
    ) -> Fixed {
        let crit = stats.crit_chance(mods);
        if crit.raw < Fixed::from_int(100).raw {
            CondiVirt::crit_penalty().add(Fixed::from_int(100)).sub(crit)
        } else {
            self.dps.calc_dps(stats, mods).neg()
        }
    }

    fn is_config_valid(&self, config: &Loadout) -> (valid: bool) {
        true
    }

    fn calc_stats(&self, gear: &Stats, config: &Loadout) -> (r: (Stats, Modifiers, CombatSecond)) {
        CondiVirt::effects(config).apply(
            base_stats().add(*gear),
            Modifiers::default(),
            CombatSecond::zero(),
        )
    }

    fn evaluate(
        &self,
        config: &Loadout,
        stats: &Stats,
        mods: &Modifiers,
        combat: &CombatSecond,
    ) -> (m: Fixed) {
        let crit = stats.crit_chance(mods);
        if crit.lt(Fixed::from_int(100)) {
            return CondiVirt::crit_penalty().add(Fixed::from_int(100)).sub(crit);
        }
        // Optimize for damage.
        self.dps.calc_dps(stats, mods).neg()
    }
}

/// The effects of a condition virtuoso are steady, whatever the configuration.
pub proof fn lemma_virtuoso_effects_steady(config: &Loadout)
    ensures
        is_steady(&CondiVirt::effects(config)),
{
    lemma_no_effect_neutral();
    lemma_neutral_steady(&NoEffect);
    lemma_rune_steady(config.rune);
    lemma_sigil_steady(config.sigil);
    lemma_food_steady(config.food);
    lemma_old_might_steady(OldMight(Fixed::from_int(25)));
    assert(is_steady(&Smoldering));
    assert(is_steady(&FuryUptime));
    assert(is_steady(&SuperiorityComplex));
    assert(is_steady(&CompoundingPower));
    assert(is_steady(&QuietIntensity)) by {
        assert forall|s: Stats, t: Stats, m: Modifiers|
            stats_nonneg(s) && stats_le(s, t) && mods_nonneg(m) implies grows(
            #[trigger] QuietIntensity.distributed(s, m),
            #[trigger] QuietIntensity.distributed(t, m),
        ) by {
            let tenth = Fixed::from_ratio(1, 10);
            lemma_mul_monotone(s.vitality, tenth, t.vitality, tenth);
        }
    }
    assert(is_steady(&Bloodsong));
    assert(is_steady(&Signets));
    let e1 = Chain(NoEffect, config.rune);
    lemma_chain_steady(e1);
    let e2 = Chain(e1, config.sigil);
    lemma_chain_steady(e2);
    let e3 = Chain(e2, Smoldering);
    lemma_chain_steady(e3);
    let e4 = Chain(e3, config.food);
    lemma_chain_steady(e4);
    let e5 = Chain(e4, OldMight(Fixed::from_int(25)));
    lemma_chain_steady(e5);
    let e6 = Chain(e5, FuryUptime);
    lemma_chain_steady(e6);
    let e7 = Chain(e6, SuperiorityComplex);
    lemma_chain_steady(e7);
    let e8 = Chain(e7, CompoundingPower);
    lemma_chain_steady(e8);
    let e9 = Chain(e8, QuietIntensity);
    lemma_chain_steady(e9);
    let e10 = Chain(e9, Bloodsong);
    lemma_chain_steady(e10);
    let e11 = Chain(e10, Signets);
    lemma_chain_steady(e11);
}

/// What a condition virtuoso makes of gear: with more of any attribute in the gear, no
/// attribute of the character is less, and the modifiers are the same.  Nothing is negative.
pub proof fn lemma_virtuoso_stats_monotone(ch: CondiVirt, cfg: Loadout, g: Stats, h: Stats)
    requires
        stats_nonneg(g),
        stats_le(g, h),
    ensures
        ({
            let a = ch.stats_of(&g, &cfg);
            let b = ch.stats_of(&h, &cfg);
            grows((a.0, a.1), (b.0, b.1))
        }),
{
    lemma_virtuoso_effects_steady(&cfg);
    lemma_steady_apply(
        &CondiVirt::effects(&cfg),
        base_stats().add(g),
        base_stats().add(h),
        Modifiers::neutral(),
        CombatSecond::zero(),
        CombatSecond::zero(),
    );
}

/// For a condition virtuoso whose model holds no negative points, more of any attribute
/// never makes the objective worse, where neither the attributes nor the modifiers are
/// negative.
pub proof fn lemma_virtuoso_objective_order(
    ch: CondiVirt,
    cfg: Loadout,
    s: Stats,
    t: Stats,
    m: Modifiers,
    c: CombatSecond,
    d: CombatSecond,
)
    requires
        model_nonneg(ch.dps),
        stats_nonneg(s),
        stats_le(s, t),
        mods_nonneg(m),
    ensures
        ch.objective(&cfg, &t, &m, &d).raw <= ch.objective(&cfg, &s, &m, &c).raw,
{
    lemma_crit_chance_monotone(s, t, m);
    lemma_calc_dps_monotone(ch.dps, s, t, m);
    lemma_calc_dps_monotone(ch.dps, s, s, m);
}

/// For a condition virtuoso whose model holds no negative points, more of any attribute in
/// the gear never makes the objective worse: the fine stage may prune.
pub proof fn lemma_virtuoso_objective_monotone(ch: CondiVirt, cfg: Loadout)
    requires
        model_nonneg(ch.dps),
    ensures
        objective_monotone(&ch, &cfg),
{
    assert forall|g: Stats, h: Stats| stats_nonneg(g) && stats_le(g, h) implies (#[trigger] score(
        &ch,
        &h,
        &cfg,
    )).raw <= (#[trigger] score(&ch, &g, &cfg)).raw by {
        lemma_virtuoso_stats_monotone(ch, cfg, g, h);
        let a = ch.stats_of(&g, &cfg);
        let b = ch.stats_of(&h, &cfg);
        lemma_virtuoso_objective_order(ch, cfg, a.0, b.0, a.1, a.2, b.2);
    }
}

/// The model of the logged fight holds no negative points.
pub proof fn lemma_virtuoso_model_nonneg()
    ensures
        model_nonneg(CondiVirt::new().dps),
{
    let blank = CondiVirt { dps: DpsModel::zero() };
    let base = CondiVirt::baseline();
    lemma_virtuoso_stats_monotone(blank, base.config, base.gear, base.gear);
    let sample = blank.stats_of(&base.gear, &base.config);
    assert(sample.1.condition_points == PerCondition::splat(Fixed::zero())) by {
        lemma_virtuoso_keeps_condition_points(base.gear, base.config);
    }
    lemma_calibrate_nonneg(sample.0, sample.1, base.dps, base.condition_percent, base.boon_uptime);
}

/// The effects of a condition virtuoso account no condition points to gear.
pub proof fn lemma_virtuoso_keeps_condition_points(gear: Stats, cfg: Loadout)
    ensures
        (CondiVirt { dps: DpsModel::zero() }).stats_of(&gear, &cfg).1.condition_points
            == PerCondition::splat(Fixed::zero()),
{
    let e = CondiVirt::effects(&cfg);
    let s1 = e.permanent(base_stats().add(gear), Modifiers::neutral());
    assert(s1.1.condition_points == PerCondition::splat(Fixed::zero()));
    let s2 = e.distributed(s1.0, s1.1);
    assert(s2.1.condition_points == PerCondition::splat(Fixed::zero()));
    let before = apply_rounds(
        &e,
        (s2.0, s2.1, CombatSecond::zero()),
        (ROUNDS - 1) as nat,
    ).2;
    let s3 = e.temporary(s2.0, s2.1, before);
    assert(s3.1.condition_points == PerCondition::splat(Fixed::zero()));
    assert(apply_rounds(
        &e,
        (s2.0, s2.1, CombatSecond::zero()),
        ROUNDS as nat,
    ) == apply_round(&e, (s2.0, s2.1, CombatSecond::zero()), before));
}

/// The fine stage may prune for the condition virtuoso of the logged fight, whatever the
/// configuration.
pub proof fn lemma_virtuoso_may_prune(cfg: Loadout)
    ensures
        objective_monotone(&CondiVirt::new(), &cfg),
{
    lemma_virtuoso_model_nonneg();
    lemma_virtuoso_objective_monotone(CondiVirt::new(), cfg);
}

/// The fine stage is exact for the condition virtuoso of the logged fight: in a catalog
/// without negative numbers, no build that the search admits is better than its outcome.
pub proof fn lemma_virtuoso_fine_is_exact(
    cfg: Loadout,
    catalog: &Catalog,
    slots: Seq<(GearSlot, Quality)>,
    prefix_idxs: Seq<usize>,
    target: Option<Seq<Fixed>>,
    out: Seq<usize>,
    infusions: PerStat<u8>,
    a: Seq<u8>,
    b: Seq<u8>,
    g: PerStat<u8>,
)
    requires
        catalog.wf(),
        catalog_nonneg(catalog),
        slots.len() <= usize::MAX,
        forall|j: int| 0 <= j < prefix_idxs.len() ==> prefix_idxs[j] < catalog.prefixes.len(),
        is_fine_outcome(
            &CondiVirt::new(),
            &cfg,
            catalog,
            slots,
            prefix_idxs,
            target,
            out,
            infusions,
            a,
        ),
        fine_space(
            catalog,
            slots,
            prefix_idxs,
            0,
            target_bands(catalog, slots, prefix_idxs, target),
        ).admissible(b, g),
    ensures
        ({
            let space = fine_space(
                catalog,
                slots,
                prefix_idxs,
                0,
                target_bands(catalog, slots, prefix_idxs, target),
            );
            reached_objective(&CondiVirt::new(), &cfg, space, a, infusions).raw
                <= build_objective(&CondiVirt::new(), &cfg, space, b, g).raw
        }),
{
    lemma_virtuoso_may_prune(cfg);
    lemma_fine_space_nonneg(
        catalog,
        slots,
        prefix_idxs,
        0,
        target_bands(catalog, slots, prefix_idxs, target),
    );
}

} // verus!
