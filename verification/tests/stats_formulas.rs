use gear_opt::fixed::Fixed;
use gear_opt::stats::{
    base_stats, stats_max, stats_round, ArmorWeight, Boon, Condition, HealthTier, Modifiers,
    PerBoon, PerCondition, PerStat, Stat, Stats,
};

fn whole(n: i64) -> Fixed {
    Fixed::from_int(n)
}

fn value(x: Fixed) -> f64 {
    x.raw as f64 / 1e6
}

fn stats(power: i64, precision: i64, ferocity: i64) -> Stats {
    let mut s = Stats::splat(Fixed::zero());
    s.power = whole(power);
    s.precision = whole(precision);
    s.ferocity = whole(ferocity);
    s
}

#[test]
fn base_stats_are_the_unequipped_character() {
    let b = base_stats();
    assert_eq!(b.power, whole(1000));
    assert_eq!(b.precision, whole(1000));
    assert_eq!(b.vitality, whole(1000));
    assert_eq!(b.toughness, whole(1000));
    assert_eq!(b.ferocity, whole(0));
    assert_eq!(b.condition_damage, whole(0));
    assert_eq!(b.expertise, whole(0));
    assert_eq!(b.healing_power, whole(0));
    assert_eq!(b.concentration, whole(0));
}

#[test]
fn neutral_modifiers_are_zero() {
    let m = Modifiers::default();
    assert_eq!(m.strike_damage, whole(0));
    assert_eq!(m.crit_chance, whole(0));
    assert_eq!(m.crit_damage, whole(0));
    assert_eq!(m.max_health, whole(0));
    assert_eq!(m.condition_damage, PerCondition::splat(whole(0)));
    assert_eq!(m.condition_duration, PerCondition::splat(whole(0)));
    assert_eq!(m.condition_points, PerCondition::splat(whole(0)));
    assert_eq!(m.boon_duration, PerBoon::splat(whole(0)));
    assert_eq!(m.boon_points, PerBoon::splat(whole(0)));
}

#[test]
fn crit_chance_from_precision() {
    let m = Modifiers::default();
    // (1000 - 895) / 21 = 5
    assert_eq!(stats(0, 1000, 0).crit_chance(&m), whole(5));
    // (1945 - 895) / 21 = 50
    assert_eq!(stats(0, 1945, 0).crit_chance(&m), whole(50));
    let mut fury = Modifiers::default();
    fury.crit_chance = whole(25);
    assert_eq!(stats(0, 1945, 0).crit_chance(&fury), whole(75));
}

#[test]
fn crit_chance_is_clamped_at_both_ends() {
    let m = Modifiers::default();
    assert_eq!(stats(0, 0, 0).crit_chance(&m), whole(0));
    assert_eq!(stats(0, 5000, 0).crit_chance(&m), whole(100));
    let mut s = Stats::splat(Fixed::zero());
    s.precision = Fixed::from_raw(i64::MAX);
    let mut up = Modifiers::default();
    up.crit_chance = Fixed::from_raw(i64::MAX);
    assert_eq!(s.crit_chance(&up), whole(100));
    s.precision = Fixed::from_raw(i64::MIN);
    let mut down = Modifiers::default();
    down.crit_chance = Fixed::from_raw(i64::MIN);
    assert_eq!(s.crit_chance(&down), whole(0));
    for precision in [i64::MIN, -1, 0, 894, 895, 896, 2995, 2996, i64::MAX] {
        for bonus in [i64::MIN, -100, 0, 100, i64::MAX] {
            s.precision = Fixed::from_raw(precision);
            down.crit_chance = Fixed::from_raw(bonus);
            let c = s.crit_chance(&down);
            assert!(whole(0).le(c) && c.le(whole(100)));
        }
    }
}

#[test]
fn strike_factor_without_crits() {
    // No precision above the base line: the factor is a tenth of power.
    let m = Modifiers::default();
    assert_eq!(stats(1000, 895, 0).strike_factor(&m), whole(100));
    assert_eq!(stats(2500, 0, 0).strike_factor(&m), whole(250));
}

#[test]
fn strike_factor_with_crits_and_bonus() {
    // Power 2000, crit chance 50 %, ferocity 750 (crit damage 200 %), strike damage +10 %:
    // 200 * 1.1 * (1 + 0.5 * (200 - 100) / 100) = 330.
    let mut m = Modifiers::default();
    m.strike_damage = whole(10);
    assert_eq!(stats(2000, 1945, 750).strike_factor(&m), whole(330));
    // A crit damage modifier of 10 % multiplies the crit damage: 200 * 1.1 = 220 %,
    // 200 * 1.1 * (1 + 0.5 * 1.2) = 352.
    m.crit_damage = whole(10);
    assert_eq!(stats(2000, 1945, 750).strike_factor(&m), whole(352));
}

#[test]
fn damage_params_of_the_conditions() {
    assert_eq!(Condition::Bleed.damage_params(), (whole(22), Fixed::from_raw(60_000)));
    assert_eq!(Condition::Burn.damage_params(), (whole(131), Fixed::from_raw(155_000)));
    assert_eq!(Condition::Confuse.damage_params(), (whole(11), Fixed::from_raw(30_000)));
    assert_eq!(Condition::Poison.damage_params(), (Fixed::from_raw(33_500_000), Fixed::from_raw(60_000)));
    assert_eq!(Condition::Torment.damage_params(), (Fixed::from_raw(31_800_000), Fixed::from_raw(90_000)));
}

#[test]
fn condition_duration_is_capped() {
    let mut s = Stats::splat(Fixed::zero());
    let mut m = Modifiers::default();
    assert_eq!(s.condition_duration(&m, Condition::Bleed), whole(100));
    s.expertise = whole(450);
    assert_eq!(s.condition_duration(&m, Condition::Bleed), whole(130));
    m.condition_duration.bleed = whole(50);
    assert_eq!(s.condition_duration(&m, Condition::Bleed), whole(180));
    assert_eq!(s.condition_duration(&m, Condition::Burn), whole(130));
    s.expertise = whole(1500);
    assert_eq!(s.condition_duration(&m, Condition::Bleed), whole(200));
    assert_eq!(s.condition_duration(&m, Condition::Burn), whole(200));
}

#[test]
fn condition_factor_of_bleeding() {
    // (22 + 0.06 * 1000) * 1 * 100 / 100 = 82
    let mut s = Stats::splat(Fixed::zero());
    s.condition_damage = whole(1000);
    let mut m = Modifiers::default();
    assert_eq!(s.condition_factor(&m, Condition::Bleed), whole(82));
    // With 25 % more damage and 150 % duration: 82 * 1.25 * 1.5 = 153.75
    m.condition_damage.bleed = whole(25);
    m.condition_duration.bleed = whole(50);
    assert_eq!(s.condition_factor(&m, Condition::Bleed), Fixed::from_raw(153_750_000));
    let factors = s.condition_factors(&m);
    assert_eq!(factors.bleed, Fixed::from_raw(153_750_000));
    // Burning: 131 + 0.155 * 1000 = 286
    assert_eq!(factors.burn, whole(286));
}

#[test]
fn boon_duration_is_capped() {
    let mut s = Stats::splat(Fixed::zero());
    let mut m = Modifiers::default();
    assert_eq!(s.boon_duration(&m, Boon::Might), whole(100));
    s.concentration = whole(750);
    assert_eq!(s.boon_duration(&m, Boon::Might), whole(150));
    m.boon_duration.might = whole(30);
    assert_eq!(s.boon_duration(&m, Boon::Might), whole(180));
    assert_eq!(s.boon_duration(&m, Boon::Fury), whole(150));
    m.boon_duration.might = whole(80);
    assert_eq!(s.boon_duration(&m, Boon::Might), whole(200));
    let all = s.boon_durations(&m);
    assert_eq!(all.might, whole(200));
    assert_eq!(all.vigor, whole(150));
}

#[test]
fn survivability() {
    let mut s = Stats::splat(Fixed::zero());
    s.healing_power = whole(800);
    s.vitality = whole(1200);
    s.toughness = whole(1300);
    let mut m = Modifiers::default();
    assert_eq!(s.regen_heal(&m), whole(230));
    assert_eq!(s.max_health(&m, HealthTier::Low), whole(13645));
    assert_eq!(s.max_health(&m, HealthTier::Mid), whole(17922));
    assert_eq!(s.max_health(&m, HealthTier::High), whole(21212));
    m.max_health = whole(10);
    assert_eq!(value(s.max_health(&m, HealthTier::Low)), 15009.5);
    assert_eq!(s.armor(&m, ArmorWeight::Light), whole(2267));
    assert_eq!(s.armor(&m, ArmorWeight::Medium), whole(2418));
    assert_eq!(s.armor(&m, ArmorWeight::Heavy), whole(2571));
}

#[test]
fn tier_constants() {
    assert_eq!(HealthTier::Low.base_health(), whole(1645));
    assert_eq!(HealthTier::Mid.base_health(), whole(5922));
    assert_eq!(HealthTier::High.base_health(), whole(9212));
    assert_eq!(ArmorWeight::Light.base_armor(), whole(967));
    assert_eq!(ArmorWeight::Medium.base_armor(), whole(1118));
    assert_eq!(ArmorWeight::Heavy.base_armor(), whole(1271));
    assert_eq!(Boon::Might.max_stacks(), whole(25));
    assert_eq!(Boon::Fury.max_stacks(), whole(1));
    assert_eq!(Boon::Regeneration.max_stacks(), whole(1));
}

#[test]
fn per_stat_indexing() {
    assert_eq!(Stat::COUNT, 9);
    for i in 0..Stat::COUNT {
        assert_eq!(Stat::from_index(i).index(), i);
    }
    assert_eq!(Stat::from_index(3), Stat::ConditionDamage);
    let mut s = Stats::splat(whole(1));
    s.set(Stat::Expertise, whole(7));
    assert_eq!(*s.get(Stat::Expertise), whole(7));
    assert_eq!(s.expertise, whole(7));
    assert_eq!(*s.get(Stat::Power), whole(1));
    assert_eq!(Condition::COUNT, 5);
    assert_eq!(Boon::COUNT, 12);
    assert_eq!(Condition::from_index(4), Condition::Torment);
    assert_eq!(Boon::from_index(3), Boon::Might);
}

#[test]
fn per_stat_arithmetic() {
    let a = Stats::from_fn(|s: Stat| whole(s.index() as i64));
    let b = Stats::splat(whole(2));
    assert_eq!(a.add(b).concentration, whole(10));
    assert_eq!(a.sub(b).power, whole(-2));
    assert_eq!(a.mul(b).vitality, whole(10));
    assert_eq!(a.div(b).toughness, whole(3));
    assert_eq!(a.scale(whole(3)).healing_power, whole(21));
    assert_eq!(a.add_scalar(whole(1)).power, whole(1));
    assert_eq!(a.div_scalar(whole(4)).concentration, whole(2));
    assert_eq!(a.sum(), whole(36));
    let doubled: PerStat<i64> = a.map(|_s: Stat, x: Fixed| 2 * x.raw);
    assert_eq!(doubled.ferocity, 4_000_000);
    assert_eq!(stats_max(a, b).power, whole(2));
    assert_eq!(stats_max(a, b).concentration, whole(8));
    let r = stats_round(Stats::splat(Fixed::from_raw(1_500_000)));
    assert_eq!(r.precision, whole(2));
}

#[test]
fn per_condition_sum() {
    let p = PerCondition {
        bleed: whole(1),
        burn: whole(2),
        confuse: whole(3),
        poison: whole(4),
        torment: whole(5),
    };
    assert_eq!(p.sum(), whole(15));
}
