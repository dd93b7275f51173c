use gear_opt::builds::{CondiVirt, Loadout, MechTank, Settled};
use gear_opt::character::{CharacterModel, CombatSecond};
use gear_opt::effect::food::{Food, RedLentilSaobosa};
use gear_opt::effect::rune::{Elementalist, Rune};
use gear_opt::effect::sigil::{Sigil, Smoldering};
use gear_opt::fixed::Fixed;
use gear_opt::gear::{
    Catalog, GearSlot, PerGearSlot, PerQuality, Prefix, Quality, SlotInfo, StatFormula,
};
use gear_opt::optimize::coarse::optimize_coarse_scan;
use gear_opt::optimize::fine::optimize_fine;
use gear_opt::stats::{Modifiers, PerStat, Stat, Stats};
use gear_opt::vary::Vary;

fn whole(n: i64) -> Fixed {
    Fixed::from_int(n)
}

fn gear(healing_power: i64, concentration: i64, vitality: i64, toughness: i64) -> Stats {
    let mut g = Stats::splat(Fixed::zero());
    g.healing_power = whole(healing_power);
    g.concentration = whole(concentration);
    g.vitality = whole(vitality);
    g.toughness = whole(toughness);
    g
}

fn score(g: &Stats) -> Fixed {
    let (stats, mods, combat) = MechTank.calc_stats(g, &Settled);
    MechTank.evaluate(&Settled, &stats, &mods, &combat)
}

#[test]
fn settled_configuration_has_one_value() {
    let mut cfg = Settled;
    assert_eq!(cfg.num_fields(), 1);
    assert_eq!(cfg.num_field_values(0), 1);
    assert_eq!(cfg.get_field(0), 0);
    cfg.set_field(0, 0);
    assert_eq!(cfg, Settled);
    assert!(MechTank.is_config_valid(&cfg));
}

#[test]
fn tank_stats_are_base_plus_gear() {
    let (stats, mods, combat) = MechTank.calc_stats(&gear(10, 20, 30, 40), &Settled);
    assert_eq!(stats.power, whole(1000));
    assert_eq!(stats.healing_power, whole(10));
    assert_eq!(stats.concentration, whole(20));
    assert_eq!(stats.vitality, whole(1030));
    assert_eq!(stats.toughness, whole(1040));
    assert_eq!(mods, Modifiers::default());
    assert_eq!(combat, CombatSecond::zero());
}

#[test]
fn tank_needs_support() {
    assert_eq!(MechTank::min_support(), Fixed::from_raw(864_900_000));
    assert_eq!(MechTank::penalty(), whole(20000));
    // Healing power is missed first, then concentration.
    assert_eq!(score(&gear(500, 0, 0, 0)), Fixed::from_raw(20_364_900_000));
    assert_eq!(score(&gear(500, 900, 0, 0)), Fixed::from_raw(20_364_900_000));
    assert_eq!(score(&gear(900, 100, 0, 0)), Fixed::from_raw(20_764_900_000));
    assert_eq!(score(&gear(0, 0, 5000, 5000)), Fixed::from_raw(20_864_900_000));
}

#[test]
fn tank_wants_effective_health() {
    // Health 5922 + 10 * 1000, armor as without gear.
    assert_eq!(score(&gear(900, 900, 0, 0)), whole(-15922));
    // Twice the armor doubles the effective health.
    assert_eq!(score(&gear(900, 900, 0, 2118)), whole(-31844));
    assert_eq!(score(&gear(900, 900, 100, 0)), whole(-16922));
    let stats = MechTank.calc_stats(&gear(900, 900, 100, 2118), &Settled).0;
    assert_eq!(MechTank::effective_health(&stats, &Modifiers::default()), whole(33844));
}

fn catalog() -> Catalog {
    let formula = |factor: i64| StatFormula {
        factor: Fixed::from_ratio(factor, 100),
        base: PerQuality::splat(whole(0)),
    };
    let mut minstrel = PerStat::splat(StatFormula::zero());
    minstrel.set(Stat::Toughness, formula(30));
    minstrel.set(Stat::HealingPower, formula(30));
    minstrel.set(Stat::Vitality, formula(16));
    minstrel.set(Stat::Concentration, formula(16));
    let mut soldier = PerStat::splat(StatFormula::zero());
    soldier.set(Stat::Power, formula(35));
    soldier.set(Stat::Toughness, formula(25));
    soldier.set(Stat::Vitality, formula(25));
    let mut berserker = PerStat::splat(StatFormula::zero());
    berserker.set(Stat::Power, formula(35));
    let mut giver = PerStat::splat(StatFormula::zero());
    giver.set(Stat::Toughness, formula(35));
    giver.set(Stat::HealingPower, formula(25));
    giver.set(Stat::Concentration, formula(25));
    let slots = PerGearSlot::from_fn(|_slot: GearSlot| SlotInfo {
        points: PerQuality::splat(whole(1000)),
        add_base: false,
    });
    Catalog::new(
        vec![
            Prefix { name: "Minstrel's".to_string(), formulas: minstrel },
            Prefix { name: "Soldier's".to_string(), formulas: soldier },
            Prefix { name: "Berserker's".to_string(), formulas: berserker },
            Prefix { name: "Giver's".to_string(), formulas: giver },
        ],
        slots,
    )
    .unwrap()
}

#[test]
fn tank_is_optimized_in_both_stages() {
    let c = catalog();
    let pieces: Vec<(GearSlot, Quality)> =
        (0..6).map(|i| (GearSlot::from_index(i + 2), Quality::Exotic)).collect();
    let (pw, cfg) = optimize_coarse_scan(&MechTank, &c, &pieces, &Settled);
    assert_eq!(cfg, Settled);
    let budget: i64 = pw.iter().map(|w| w.raw).sum();
    assert!(budget <= whole(6000).raw);
    // No mix of Soldier's and Berserker's gives the support that the build needs.
    assert!(pw[0].raw + pw[3].raw > 0);
    let (prefixes, _) = optimize_fine(&MechTank, &cfg, &c, &pieces, &[0, 1, 3], None);
    let mut g = Stats::splat(Fixed::zero());
    for (&(slot, quality), &p) in pieces.iter().zip(prefixes.iter()) {
        g = g.add(c.slots.get(slot).calc_stats(&c.prefixes[p], quality));
    }
    // Four pieces of Giver's give the concentration, and none of the three prefixes gives
    // healing power and concentration faster.
    assert!(score(&g).lt(whole(0)));
    assert!(g.healing_power.ge(MechTank::min_support()));
    assert!(g.concentration.ge(MechTank::min_support()));
}

#[test]
fn loadout_has_three_fields() {
    let mut cfg = CondiVirt::baseline_config();
    assert_eq!(cfg.num_fields(), 3);
    assert_eq!(cfg.num_field_values(0), Rune::COUNT);
    assert_eq!(cfg.num_field_values(1), Sigil::COUNT);
    assert_eq!(cfg.num_field_values(2), Food::COUNT);
    assert_eq!((cfg.get_field(0), cfg.get_field(1), cfg.get_field(2)), (1, 0, 0));
    cfg.set_field(0, 0);
    cfg.set_field(1, 1);
    cfg.set_field(2, 1);
    assert_eq!(
        cfg,
        Loadout {
            rune: Rune::Elementalist(Elementalist),
            sigil: Sigil::Smoldering(Smoldering),
            food: Food::RedLentilSaobosa(RedLentilSaobosa),
        }
    );
    assert!(CondiVirt::new().is_config_valid(&cfg));
}

#[test]
fn virtuoso_stats_of_the_logged_build() {
    let ch = CondiVirt::new();
    let base = CondiVirt::baseline();
    let (stats, mods, combat) = ch.calc_stats(&base.gear, &base.config);
    // Base, gear and 25 stacks of might.
    assert_eq!(stats.power, whole(1000 + 986 + 750));
    // Base, gear and food.
    assert_eq!(stats.precision, whole(1000 + 981 + 100));
    // Gear, rune, food, might, Compounding Power and the signet.
    assert_eq!(stats.condition_damage, whole(1012 + 175 + 70 + 750 + 30 + 180));
    assert_eq!(stats.expertise, whole(255 + 180));
    // A tenth of vitality.
    assert_eq!(stats.ferocity, whole(100));
    assert_eq!(stats.vitality, whole(1000));
    assert_eq!(mods.crit_chance, whole(40));
    assert_eq!(mods.crit_damage, whole(25));
    assert_eq!(mods.strike_damage, whole(2));
    assert_eq!(mods.condition_duration.bleed, whole(70));
    assert_eq!(mods.condition_duration.burn, whole(20));
    assert_eq!(mods.condition_damage.bleed, whole(25));
    assert_eq!(mods.condition_damage.burn, whole(0));
    assert_eq!(combat, CombatSecond::zero());
}

#[test]
fn virtuoso_model_gives_back_the_logged_damage() {
    let ch = CondiVirt::new();
    let base = CondiVirt::baseline();
    let (stats, mods, _) = ch.calc_stats(&base.gear, &base.config);
    let dps = ch.dps.calc_dps(&stats, &mods);
    assert!((dps.raw - whole(30063).raw).abs() < 100_000, "dps = {}", dps.raw);
}

#[test]
fn virtuoso_short_of_full_crit_is_penalized() {
    let ch = CondiVirt::new();
    let base = CondiVirt::baseline();
    let (stats, mods, combat) = ch.calc_stats(&base.gear, &base.config);
    // (2081 - 895) / 21 + 40, short of 100.
    assert_eq!(stats.crit_chance(&mods), Fixed::from_raw(96_476_190));
    assert_eq!(CondiVirt::crit_penalty(), whole(1000));
    assert_eq!(ch.evaluate(&base.config, &stats, &mods, &combat), Fixed::from_raw(1_003_523_810));
}

#[test]
fn virtuoso_at_full_crit_scores_its_damage() {
    let ch = CondiVirt::new();
    let base = CondiVirt::baseline();
    let mut g = base.gear;
    g.precision = whole(981 + 74);
    let (stats, mods, combat) = ch.calc_stats(&g, &base.config);
    assert_eq!(stats.crit_chance(&mods), whole(100));
    let m = ch.evaluate(&base.config, &stats, &mods, &combat);
    assert_eq!(m, ch.dps.calc_dps(&stats, &mods).neg());
    assert!(m.lt(whole(-30063)));
}

#[test]
fn more_gear_never_hurts_the_virtuoso() {
    let ch = CondiVirt::new();
    let cfg = CondiVirt::baseline_config();
    let score = |g: &Stats| {
        let (stats, mods, combat) = ch.calc_stats(g, &cfg);
        ch.evaluate(&cfg, &stats, &mods, &combat)
    };
    assert!(ch.dps.strike_points.ge(Fixed::zero()));
    assert!(ch.dps.condition_points.bleed.ge(Fixed::zero()));
    let mut g = Stats::splat(Fixed::zero());
    let mut last = score(&g);
    // Precision first, up to full critical chance, then the damage attributes in turn.
    for step in 0..40 {
        match step % 4 {
            0 => g.precision = g.precision.add(whole(150)),
            1 => g.power = g.power.add(whole(100)),
            2 => g.condition_damage = g.condition_damage.add(whole(100)),
            _ => g.expertise = g.expertise.add(whole(50)),
        }
        let next = score(&g);
        assert!(next.le(last), "step {}: {} after {}", step, next.raw, last.raw);
        last = next;
    }
    assert!(last.lt(whole(-30063)));
}
