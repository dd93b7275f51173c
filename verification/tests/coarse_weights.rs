use gear_opt::fixed::Fixed;
use gear_opt::gear::{Catalog, GearSlot, PerGearSlot, PerQuality, Prefix, SlotInfo, StatFormula};
use gear_opt::optimize::coarse::{
    calc_gear_stats, copy_weights, decrease_prefix_weights_linear, increase_prefix_weight,
    increase_prefix_weight_linear, zero_weights,
};
use gear_opt::stats::{PerStat, Stat};

const NUM_PREFIXES: usize = 10;

fn whole(n: i64) -> Fixed {
    Fixed::from_int(n)
}

fn value(x: Fixed) -> f64 {
    x.raw as f64 / 1e6
}

fn weights(values: &[i64]) -> Vec<Fixed> {
    values.iter().map(|&v| whole(v)).collect()
}

fn total(pw: &[Fixed]) -> i64 {
    pw.iter().map(|w| w.raw).sum()
}

#[test]
fn test_decrease_prefix_weights_linear() {
    let mut pw = vec![Fixed::from_int(0); NUM_PREFIXES];
    pw[0] = Fixed::from_int(5);
    pw[1] = Fixed::from_int(10);
    pw[2] = Fixed::from_int(1);
    decrease_prefix_weights_linear(&mut pw, Fixed::from_int(5));
    assert!((value(pw[0]) - 3.).abs() < 1e-6);
    assert!((value(pw[1]) - 8.).abs() < 1e-6);
    assert!((value(pw[2]) - 0.).abs() < 1e-6);
}

#[test]
fn decrease_is_exact() {
    let mut pw = weights(&[5, 10, 1]);
    decrease_prefix_weights_linear(&mut pw, whole(5));
    assert_eq!(pw, weights(&[3, 8, 0]));
}

#[test]
fn decrease_spreads_evenly() {
    let mut pw = weights(&[6, 0, 9, 12]);
    decrease_prefix_weights_linear(&mut pw, whole(6));
    assert_eq!(pw, weights(&[4, 0, 7, 10]));
}

#[test]
fn decrease_lowers_the_sum_by_the_amount() {
    let cases: [(&[i64], i64); 6] = [
        (&[5, 10, 1], 5),
        (&[1, 1, 1, 1, 1, 1, 1], 3),
        (&[100, 1, 50, 2, 0, 7], 77),
        (&[3, 0, 0], 1),
        (&[2, 2], 4),
        (&[1000000, 1, 1], 999999),
    ];
    for (start, amount) in cases {
        let before = weights(start);
        let mut pw = copy_weights(&before);
        decrease_prefix_weights_linear(&mut pw, whole(amount));
        assert_eq!(total(&pw), total(&before) - whole(amount).raw);
        for (after, before) in pw.iter().zip(before.iter()) {
            assert!(after.raw >= 0);
            assert!(after.raw <= before.raw);
        }
    }
}

#[test]
fn decrease_by_a_fraction_is_exact_to_the_last_unit() {
    let mut pw = vec![Fixed::from_raw(10), Fixed::from_raw(10), Fixed::from_raw(10)];
    decrease_prefix_weights_linear(&mut pw, Fixed::from_raw(7));
    assert_eq!(total(&pw), 23);
    assert_eq!(pw, vec![Fixed::from_raw(7), Fixed::from_raw(7), Fixed::from_raw(9)]);
}

#[test]
fn decrease_stops_at_zero() {
    let mut pw = weights(&[5, 10, 1]);
    decrease_prefix_weights_linear(&mut pw, whole(100));
    assert_eq!(pw, weights(&[0, 0, 0]));
    let mut none = weights(&[0, 0]);
    decrease_prefix_weights_linear(&mut none, whole(3));
    assert_eq!(none, weights(&[0, 0]));
    let mut empty: Vec<Fixed> = vec![];
    decrease_prefix_weights_linear(&mut empty, whole(3));
    assert!(empty.is_empty());
}

#[test]
fn decrease_by_nothing_changes_nothing() {
    let mut pw = weights(&[5, 10, 1]);
    decrease_prefix_weights_linear(&mut pw, whole(0));
    assert_eq!(pw, weights(&[5, 10, 1]));
    decrease_prefix_weights_linear(&mut pw, whole(-4));
    assert_eq!(pw, weights(&[5, 10, 1]));
}

#[test]
fn increase_within_the_budget() {
    let max = whole(100);
    let mut pw = weights(&[20, 30, 0]);
    // 25 more fit into the budget as it is.
    increase_prefix_weight_linear(&mut pw, max, 2, Fixed::from_ratio(25, 100));
    assert_eq!(pw, weights(&[20, 30, 25]));
    // 50 more do not: the others give 25 between them, and the weight itself its share.
    increase_prefix_weight(&mut pw, max, 0, Fixed::from_ratio(50, 100));
    assert_eq!(total(&pw), max.raw);
    assert_eq!(pw[0], Fixed::from_raw(61_666_666));
    assert_eq!(pw[1], Fixed::from_raw(21_666_666));
    assert_eq!(pw[2], Fixed::from_raw(16_666_668));
}

#[test]
fn increase_to_the_whole_budget() {
    let max = whole(100);
    let mut pw = weights(&[20, 30, 50]);
    increase_prefix_weight(&mut pw, max, 1, whole(1));
    assert_eq!(pw, weights(&[0, 100, 0]));
}

#[test]
fn zero_weights_are_zero() {
    assert_eq!(zero_weights(3), weights(&[0, 0, 0]));
    assert!(zero_weights(0).is_empty());
}

fn catalog() -> Catalog {
    let formula = |factor: Fixed| StatFormula { factor, base: PerQuality::splat(whole(0)) };
    let mut berserker = PerStat::splat(StatFormula::zero());
    berserker.set(Stat::Power, formula(Fixed::from_ratio(35, 100)));
    berserker.set(Stat::Precision, formula(Fixed::from_ratio(25, 100)));
    berserker.set(Stat::Ferocity, formula(Fixed::from_ratio(25, 100)));
    let mut sinister = PerStat::splat(StatFormula::zero());
    sinister.set(Stat::ConditionDamage, formula(Fixed::from_ratio(35, 100)));
    sinister.set(Stat::Power, formula(Fixed::from_ratio(25, 100)));
    sinister.set(Stat::Precision, formula(Fixed::from_ratio(25, 100)));
    let slots = PerGearSlot::from_fn(|_slot: GearSlot| SlotInfo {
        points: PerQuality::splat(whole(100)),
        add_base: false,
    });
    Catalog::new(
        vec![
            Prefix { name: "Berserker's".to_string(), formulas: berserker },
            Prefix { name: "Sinister".to_string(), formulas: sinister },
        ],
        slots,
    )
    .unwrap()
}

#[test]
fn gear_stats_from_weights() {
    let c = catalog();
    let gear = calc_gear_stats(&c, &weights(&[600, 400]));
    assert_eq!(gear.power, whole(310));
    assert_eq!(gear.precision, whole(250));
    assert_eq!(gear.ferocity, whole(150));
    assert_eq!(gear.condition_damage, whole(140));
    assert_eq!(gear.vitality, whole(0));
    assert_eq!(calc_gear_stats(&c, &weights(&[0, 0])), PerStat::splat(whole(0)));
}
