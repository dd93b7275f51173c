use gear_opt::character::{
    Baseline, CharacterModel, CombatEvent, CombatSecond, DpsModel, SamplePoints,
};
use gear_opt::fixed::Fixed;
use gear_opt::stats::{Boon, Modifiers, PerBoon, PerCondition, Stats};
use gear_opt::vary::Vary;

fn whole(n: i64) -> Fixed {
    Fixed::from_int(n)
}

fn frac(n: i64, d: i64) -> Fixed {
    Fixed::from_ratio(n, d)
}

fn value(x: Fixed) -> f64 {
    x.raw as f64 / 1e6
}

/// A build without any effect: the attributes are those of the gear.
struct Bare;

impl CharacterModel for Bare {
    type Config = ();

    fn is_config_valid(&self, _config: &()) -> bool {
        true
    }

    fn calc_stats(&self, gear: &Stats, _config: &()) -> (Stats, Modifiers, CombatSecond) {
        (*gear, Modifiers::default(), CombatSecond::zero())
    }

    fn evaluate(&self, _config: &(), stats: &Stats, _mods: &Modifiers, _c: &CombatSecond) -> Fixed {
        stats.power.neg()
    }
}

fn sample_gear() -> Stats {
    let mut gear = Stats::splat(Fixed::zero());
    gear.power = whole(1000);
    gear.precision = whole(1000);
    gear.condition_damage = whole(1000);
    gear.expertise = whole(0);
    gear
}

#[test]
fn bleed_only_baseline_round_trips() {
    let gear = sample_gear();
    let mods = Modifiers::default();
    let mut percent = PerCondition::splat(Fixed::zero());
    percent.bleed = whole(100);
    let model = DpsModel::calibrate(&gear, &mods, whole(10000), percent, PerBoon::splat(whole(0)));
    assert_eq!(model.strike_points, whole(0));
    assert_eq!(model.condition_points.bleed, Fixed::from_raw(121_951_219));
    assert_eq!(model.condition_points.burn, whole(0));
    let dps = model.calc_dps(&gear, &mods);
    assert!((value(dps) - 10000.).abs() < 0.1);
}

#[test]
fn baseline_round_trips_through_a_model() {
    let gear = sample_gear();
    let mut percent = PerCondition::splat(Fixed::zero());
    percent.bleed = whole(100);
    let baseline = Baseline {
        gear,
        config: (),
        dps: whole(10000),
        condition_percent: percent,
        boon_uptime: PerBoon::splat(whole(0)),
    };
    let model = DpsModel::new(&Bare, baseline);
    let (stats, mods, _) = Bare.calc_stats(&gear, &());
    assert!((value(model.calc_dps(&stats, &mods)) - 10000.).abs() < 0.1);
}

#[test]
fn mixed_baseline_round_trips() {
    let mut gear = Stats::splat(Fixed::zero());
    gear.power = whole(1986);
    gear.precision = whole(1981);
    gear.ferocity = whole(300);
    gear.condition_damage = whole(1012);
    gear.expertise = whole(255);
    let mut mods = Modifiers::default();
    mods.strike_damage = whole(7);
    mods.condition_damage.bleed = whole(25);
    mods.condition_duration.torment = whole(20);
    let percent = PerCondition {
        bleed: frac(599, 10),
        burn: whole(0),
        confuse: frac(13, 10),
        poison: frac(2, 10),
        torment: frac(103, 10),
    };
    let model = DpsModel::calibrate(&gear, &mods, whole(30063), percent, PerBoon::splat(whole(0)));
    assert!(model.strike_points.gt(whole(0)));
    let dps = model.calc_dps(&gear, &mods);
    assert!((value(dps) - 30063.).abs() < 0.1);
}

#[test]
fn model_projects_onto_other_stats() {
    let gear = sample_gear();
    let mods = Modifiers::default();
    let mut percent = PerCondition::splat(Fixed::zero());
    percent.bleed = whole(50);
    let model = DpsModel::calibrate(&gear, &mods, whole(10000), percent, PerBoon::splat(whole(0)));
    // Strike factor 100 * (1 + 0.05 * 0.5) = 102.5; bleed factor 82.
    assert_eq!(model.strike_points, Fixed::from_raw(48_780_487));
    assert_eq!(model.condition_points.bleed, Fixed::from_raw(60_975_609));
    // Twice the power doubles the strike part only.
    let mut more = gear;
    more.power = whole(2000);
    let dps = value(model.calc_dps(&more, &mods));
    assert!((dps - 15000.).abs() < 0.1);
}

#[test]
fn gear_points_are_taken_out_and_put_back() {
    let gear = sample_gear();
    let mut mods = Modifiers::default();
    mods.condition_points.bleed = whole(20);
    mods.boon_points.might = whole(2);
    let mut percent = PerCondition::splat(Fixed::zero());
    percent.bleed = whole(100);
    let mut uptime = PerBoon::splat(Fixed::zero());
    uptime.might = whole(950);
    let model = DpsModel::calibrate(&gear, &mods, whole(10000), percent, uptime);
    assert_eq!(model.condition_points.bleed, Fixed::from_raw(101_951_219));
    assert_eq!(model.boon_points.might, frac(75, 10));
    assert!((value(model.calc_dps(&gear, &mods)) - 10000.).abs() < 0.1);
    assert_eq!(model.calc_boon_uptime_raw(&gear, &mods, Boon::Might), frac(95, 10));
    assert_eq!(model.calc_boon_uptime(&gear, &mods, Boon::Might), frac(95, 10));
    mods.boon_points.might = whole(30);
    assert_eq!(model.calc_boon_uptime_raw(&gear, &mods, Boon::Might), frac(375, 10));
    assert_eq!(model.calc_boon_uptime(&gear, &mods, Boon::Might), whole(25));
}

#[test]
fn zero_model_gives_zero_everywhere() {
    let model = DpsModel::zero();
    assert_eq!(model.strike_points, whole(0));
    for power in [0, 1000, 3000] {
        let mut s = sample_gear();
        s.power = whole(power);
        assert_eq!(model.calc_dps(&s, &Modifiers::default()), whole(0));
        assert_eq!(model.calc_boon_uptime(&s, &Modifiers::default(), Boon::Might), whole(0));
    }
}

#[test]
fn sample_points_of_an_observation() {
    let gear = sample_gear();
    let mods = Modifiers::default();
    let mut percent = PerCondition::splat(Fixed::zero());
    percent.burn = whole(20);
    let mut uptime = PerBoon::splat(Fixed::zero());
    uptime.fury = whole(90);
    let points = SamplePoints::observe(&gear, &mods, whole(2050), percent, uptime);
    // 80 % of 2050 by strikes at a factor of 102.5; 20 % by burning at a factor of 286.
    assert_eq!(points.strike, whole(16));
    assert_eq!(points.condition.burn, Fixed::from_raw(1_433_566));
    assert_eq!(points.boon.fury, frac(9, 10));
    assert_eq!(points.boon.might, whole(0));
}

#[test]
fn base_combat_from_a_baseline() {
    let gear = sample_gear();
    let mut percent = PerCondition::splat(Fixed::zero());
    percent.burn = whole(20);
    let mut uptime = PerBoon::splat(Fixed::zero());
    uptime.fury = whole(90);
    let baseline = Baseline {
        gear,
        config: (),
        dps: whole(2050),
        condition_percent: percent,
        boon_uptime: uptime,
    };
    let mut base = CombatSecond::zero();
    base.strike = CombatEvent::new(whole(3), whole(1));
    base.cast = whole(2);
    let combat = baseline.update_base_combat(&Bare, &base);
    assert_eq!(combat.strike, CombatEvent::new(whole(1), whole(17)));
    assert_eq!(combat.condition.burn, CombatEvent::new(Fixed::from_raw(286_713), Fixed::from_raw(1_433_566)));
    assert_eq!(combat.boon.fury, CombatEvent::new(frac(18, 100), frac(9, 10)));
    assert_eq!(combat.cast, whole(2));
    // The observed damage, and what the strike point that was there before adds to it.
    let (stats, mods, _) = Bare.calc_stats(&gear, &());
    assert!((value(combat.calc_dps(&stats, &mods)) - 2152.5).abs() < 0.001);
}

#[test]
fn unit_config_has_no_fields() {
    assert_eq!(().num_fields(), 0);
}
