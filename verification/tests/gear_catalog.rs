use gear_opt::fixed::Fixed;
use gear_opt::gear::{
    find_prefix, Catalog, GearSlot, PerGearSlot, PerQuality, Prefix, Quality, SlotInfo,
    StatFormula,
};
use gear_opt::optimize::calc_max_weight;
use gear_opt::stats::{PerStat, Stat};

fn whole(n: i64) -> Fixed {
    Fixed::from_int(n)
}

fn frac(n: i64, d: i64) -> Fixed {
    Fixed::from_ratio(n, d)
}

fn formula(factor: Fixed, exotic: i64, ascended: i64) -> StatFormula {
    StatFormula { factor, base: PerQuality { exotic: whole(exotic), ascended: whole(ascended) } }
}

fn prefix(name: &str, major: &[Stat], minor: &[Stat]) -> Prefix {
    let mut formulas = PerStat::splat(StatFormula::zero());
    for &s in major {
        formulas.set(s, formula(frac(35, 100), 18, 25));
    }
    for &s in minor {
        formulas.set(s, formula(frac(25, 100), 12, 18));
    }
    Prefix { name: name.to_string(), formulas }
}

fn slots() -> PerGearSlot<SlotInfo> {
    PerGearSlot::from_fn(|slot: GearSlot| SlotInfo {
        points: match slot {
            GearSlot::Coat => PerQuality { exotic: whole(384), ascended: whole(403) },
            GearSlot::Ring1 | GearSlot::Ring2 => PerQuality { exotic: whole(256), ascended: whole(288) },
            _ => PerQuality { exotic: whole(128), ascended: whole(134) },
        },
        add_base: slot.is_trinket(),
    })
}

fn catalog() -> Catalog {
    Catalog::new(
        vec![
            prefix("Viper's", &[Stat::Power, Stat::ConditionDamage], &[Stat::Precision, Stat::Expertise]),
            prefix("Berserker's", &[Stat::Power], &[Stat::Precision, Stat::Ferocity]),
            prefix("Sinister", &[Stat::ConditionDamage], &[Stat::Power, Stat::Precision]),
        ],
        slots(),
    )
    .unwrap()
}

#[test]
fn trinket_slots() {
    let trinkets = [
        GearSlot::Amulet,
        GearSlot::Ring1,
        GearSlot::Ring2,
        GearSlot::Accessory1,
        GearSlot::Accessory2,
        GearSlot::Backpack,
    ];
    for i in 0..GearSlot::COUNT {
        let slot = GearSlot::from_index(i);
        assert_eq!(slot.is_trinket(), trinkets.contains(&slot));
    }
    assert_eq!(GearSlot::COUNT, 14);
    assert_eq!(Quality::COUNT, 2);
}

#[test]
fn catalog_finds_the_reference_prefix() {
    let c = catalog();
    assert_eq!(c.reference, 1);
    assert_eq!(c.num_prefixes(), 3);
    assert_eq!(find_prefix(&c.prefixes, &"Sinister".to_string()), Some(2));
    assert_eq!(find_prefix(&c.prefixes, &"Nomad's".to_string()), None);
}

#[test]
fn catalog_without_the_reference_prefix_is_refused() {
    let c = Catalog::new(vec![prefix("Sinister", &[Stat::Power], &[])], slots());
    assert!(c.is_none());
    assert!(Catalog::new(vec![], slots()).is_none());
}

#[test]
fn first_prefix_of_a_name_counts() {
    let prefixes = vec![
        prefix("Berserker's", &[Stat::Power], &[]),
        prefix("Berserker's", &[Stat::Precision], &[]),
    ];
    assert_eq!(find_prefix(&prefixes, &"Berserker's".to_string()), Some(0));
    assert_eq!(Catalog::new(prefixes, slots()).unwrap().reference, 0);
}

#[test]
fn stat_formula() {
    let f = formula(frac(35, 100), 18, 25);
    assert_eq!(f.eval(whole(100), Quality::Exotic, false), whole(35));
    assert_eq!(f.eval(whole(100), Quality::Exotic, true), whole(53));
    assert_eq!(f.eval(whole(100), Quality::Ascended, true), whole(60));
    assert_eq!(StatFormula::zero().eval(whole(100), Quality::Ascended, true), whole(0));
}

#[test]
fn stats_of_a_piece() {
    let c = catalog();
    let viper = &c.prefixes[0];
    let coat = c.slots.get(GearSlot::Coat).calc_stats(viper, Quality::Exotic);
    assert_eq!(coat.power, frac(1344, 10));
    assert_eq!(coat.condition_damage, frac(1344, 10));
    assert_eq!(coat.precision, whole(96));
    assert_eq!(coat.expertise, whole(96));
    assert_eq!(coat.ferocity, whole(0));
    // Trinkets add the fixed part.
    let ring = c.slots.get(GearSlot::Ring1).calc_stats(viper, Quality::Ascended);
    assert_eq!(ring.power, frac(1258, 10));
    assert_eq!(ring.precision, whole(90));
    assert_eq!(ring.vitality, whole(0));
}

#[test]
fn coarse_stats_of_a_prefix() {
    let c = catalog();
    let s = c.prefixes[2].calc_stats_coarse(whole(1000));
    assert_eq!(s.condition_damage, whole(350));
    assert_eq!(s.power, whole(250));
    assert_eq!(s.precision, whole(250));
    assert_eq!(s.expertise, whole(0));
}

#[test]
fn slot_weights_and_budget() {
    let c = catalog();
    // Armor: the points of the slot.
    assert_eq!(c.slot_weight(GearSlot::Coat, Quality::Exotic), whole(384));
    // Trinkets: the points plus the fixed part over the factor.
    let ring = c.slot_weight(GearSlot::Ring1, Quality::Exotic);
    assert_eq!(ring, Fixed::from_raw(307_428_571));
    let slots = [
        (GearSlot::Coat, Quality::Exotic),
        (GearSlot::Helm, Quality::Ascended),
        (GearSlot::Ring1, Quality::Exotic),
    ];
    // (0.35 * 384) + (0.35 * 134) + (0.35 * 256 + 18) = 288.9 power, over 0.35.
    assert_eq!(calc_max_weight(&c, &slots), Fixed::from_raw(825_428_571));
    assert_eq!(calc_max_weight(&c, &[]), whole(0));
}

#[test]
fn tables_by_enum() {
    let t = PerQuality::from_fn(|q: Quality| q.index() as i64);
    assert_eq!(t, PerQuality { exotic: 0, ascended: 1 });
    let doubled = t.map(|_q: Quality, x: i64| 2 * x);
    assert_eq!(*doubled.get(Quality::Ascended), 2);
    let s = PerGearSlot::splat(3u8);
    assert_eq!(s.backpack, 3);
}

#[test]
fn catalog_with_a_negative_number_is_refused() {
    let good = prefix("Berserker's", &[Stat::Power], &[Stat::Precision, Stat::Ferocity]);
    assert!(Catalog::new(vec![good.clone()], slots()).is_some());
    // A negative factor.
    let mut bad = good.clone();
    bad.formulas.vitality.factor = Fixed::from_raw(-1);
    assert!(Catalog::new(vec![good.clone(), bad], slots()).is_none());
    // A negative fixed part.
    let mut bad = good.clone();
    bad.formulas.power.base.ascended = Fixed::from_raw(-1);
    assert!(Catalog::new(vec![bad], slots()).is_none());
    // A negative point budget.
    let mut short = slots();
    short.backpack.points.exotic = Fixed::from_int(-5);
    assert!(Catalog::new(vec![good.clone()], short).is_none());
    let mut short = slots();
    short.weapon_1h.points.ascended = Fixed::from_raw(-1);
    assert!(Catalog::new(vec![good], short).is_none());
}
