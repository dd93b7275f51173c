use gear_opt::character::{CharacterModel, CombatSecond};
use gear_opt::fixed::Fixed;
use gear_opt::gear::{
    Catalog, GearSlot, PerGearSlot, PerQuality, Prefix, Quality, SlotInfo, StatFormula,
};
use gear_opt::optimize::coarse::{calc_gear_stats, optimize_coarse};
use gear_opt::optimize::fine::{
    band_around, infusion_stats, max_infusion_stats, optimistic_infusions, optimize_fine,
    sort_by_weight, target_margin, Candidate, Optimizer, SearchSpace,
};
use gear_opt::optimize::{evaluate_config, worst_objective};
use gear_opt::stats::{stats_round, Modifiers, PerStat, Stat, Stats};

fn whole(n: i64) -> Fixed {
    Fixed::from_int(n)
}

fn frac(n: i64, d: i64) -> Fixed {
    Fixed::from_ratio(n, d)
}

/// A build whose damage is a weighted sum of the attributes.
struct Weighted {
    weights: Stats,
}

impl CharacterModel for Weighted {
    type Config = ();

    fn is_config_valid(&self, _config: &()) -> bool {
        true
    }

    fn calc_stats(&self, gear: &Stats, _config: &()) -> (Stats, Modifiers, CombatSecond) {
        (*gear, Modifiers::default(), CombatSecond::default())
    }

    fn evaluate(&self, _config: &(), stats: &Stats, _m: &Modifiers, _c: &CombatSecond) -> Fixed {
        stats.mul(self.weights).sum().neg()
    }
}

/// A build that needs 100 toughness, and beyond that wants power.
struct Sturdy;

impl CharacterModel for Sturdy {
    type Config = ();

    fn is_config_valid(&self, _config: &()) -> bool {
        true
    }

    fn calc_stats(&self, gear: &Stats, _config: &()) -> (Stats, Modifiers, CombatSecond) {
        (*gear, Modifiers::default(), CombatSecond::default())
    }

    fn evaluate(&self, _config: &(), stats: &Stats, _m: &Modifiers, _c: &CombatSecond) -> Fixed {
        let missing = Fixed::from_int(100).sub(stats.toughness).max(Fixed::zero());
        missing.mul(Fixed::from_int(50)).sub(stats.power)
    }
}

fn weighted(power: i64, condition_damage: i64, ferocity: i64, toughness: i64) -> Weighted {
    let mut weights = Stats::splat(Fixed::zero());
    weights.power = whole(power);
    weights.condition_damage = whole(condition_damage);
    weights.ferocity = whole(ferocity);
    weights.toughness = whole(toughness);
    Weighted { weights }
}

fn catalog() -> Catalog {
    let formula = |factor: Fixed, base: i64| StatFormula {
        factor,
        base: PerQuality { exotic: whole(base), ascended: whole(base + 2) },
    };
    let mut berserker = PerStat::splat(StatFormula::zero());
    berserker.set(Stat::Power, formula(frac(35, 100), 7));
    berserker.set(Stat::Precision, formula(frac(25, 100), 5));
    berserker.set(Stat::Ferocity, formula(frac(25, 100), 5));
    let mut sinister = PerStat::splat(StatFormula::zero());
    sinister.set(Stat::ConditionDamage, formula(frac(35, 100), 7));
    sinister.set(Stat::Power, formula(frac(25, 100), 5));
    sinister.set(Stat::Precision, formula(frac(25, 100), 5));
    let mut soldier = PerStat::splat(StatFormula::zero());
    soldier.set(Stat::Power, formula(frac(35, 100), 7));
    soldier.set(Stat::Toughness, formula(frac(25, 100), 5));
    soldier.set(Stat::Vitality, formula(frac(25, 100), 5));
    let slots = PerGearSlot::from_fn(|slot: GearSlot| SlotInfo {
        points: match slot {
            GearSlot::Coat => PerQuality { exotic: whole(360), ascended: whole(380) },
            GearSlot::Leggings => PerQuality { exotic: whole(240), ascended: whole(260) },
            GearSlot::Ring1 | GearSlot::Ring2 => PerQuality { exotic: whole(200), ascended: whole(220) },
            _ => PerQuality { exotic: whole(120), ascended: whole(140) },
        },
        add_base: slot.is_trinket(),
    });
    Catalog::new(
        vec![
            Prefix { name: "Sinister".to_string(), formulas: sinister },
            Prefix { name: "Berserker's".to_string(), formulas: berserker },
            Prefix { name: "Soldier's".to_string(), formulas: soldier },
        ],
        slots,
    )
    .unwrap()
}

fn gear_of(c: &Catalog, pieces: &[(GearSlot, Quality)], prefixes: &[usize]) -> Stats {
    let mut gear = Stats::splat(Fixed::zero());
    for (&(slot, quality), &p) in pieces.iter().zip(prefixes.iter()) {
        gear = gear.add(stats_round(c.slots.get(slot).calc_stats(&c.prefixes[p], quality)));
    }
    gear
}

fn objective<C: CharacterModel<Config = ()>>(
    ch: &C,
    c: &Catalog,
    pieces: &[(GearSlot, Quality)],
    prefixes: &[usize],
) -> Fixed {
    evaluate_config(ch, &gear_of(c, pieces, prefixes), &())
}

/// The best objective over every way to give each piece one of the prefixes.
fn brute_force<C: CharacterModel<Config = ()>>(
    ch: &C,
    c: &Catalog,
    pieces: &[(GearSlot, Quality)],
    choices: &[usize],
) -> Fixed {
    let mut best = worst_objective();
    let mut assignment = vec![0usize; pieces.len()];
    loop {
        let prefixes: Vec<usize> = assignment.iter().map(|&a| choices[a]).collect();
        best = best.min(objective(ch, c, pieces, &prefixes));
        let mut i = 0;
        while i < assignment.len() {
            assignment[i] += 1;
            if assignment[i] < choices.len() {
                break;
            }
            assignment[i] = 0;
            i += 1;
        }
        if i == assignment.len() {
            return best;
        }
    }
}

#[test]
fn one_slot_one_prefix() {
    let c = catalog();
    let ch = weighted(1, 0, 0, 0);
    let pieces = [(GearSlot::Coat, Quality::Exotic)];
    let (prefixes, infusions) = optimize_fine(&ch, &(), &c, &pieces, &[2], None);
    assert_eq!(prefixes, vec![2]);
    assert_eq!(infusions, PerStat::splat(0));
    // 0.35 * 360 = 126 power.
    assert_eq!(objective(&ch, &c, &pieces, &prefixes), whole(-126));
    assert_eq!(
        objective(&ch, &c, &pieces, &prefixes),
        evaluate_config(&ch, &c.slots.get(GearSlot::Coat).calc_stats(&c.prefixes[2], Quality::Exotic), &()),
    );
}

#[test]
fn no_slots() {
    let c = catalog();
    let ch = weighted(1, 0, 0, 0);
    let (prefixes, infusions) = optimize_fine(&ch, &(), &c, &[], &[0, 1], None);
    assert!(prefixes.is_empty());
    assert_eq!(infusions, PerStat::splat(0));
}

#[test]
fn every_slot_gets_the_best_prefix() {
    let c = catalog();
    let ch = weighted(1, 0, 2, 0);
    let pieces = [
        (GearSlot::Helm, Quality::Exotic),
        (GearSlot::Coat, Quality::Ascended),
        (GearSlot::Ring1, Quality::Exotic),
        (GearSlot::Leggings, Quality::Exotic),
    ];
    let (prefixes, _) = optimize_fine(&ch, &(), &c, &pieces, &[0, 1, 2], None);
    assert_eq!(prefixes, vec![1, 1, 1, 1]);
    // Power 42 + 133 + 77 + 84 = 336; ferocity 30 + 95 + 55 + 60 = 240.
    assert_eq!(objective(&ch, &c, &pieces, &prefixes), whole(-816));
}

#[test]
fn result_is_in_the_order_of_the_pieces() {
    // The build needs 100 toughness from Soldier's pieces and wants power beside it.  Sinister
    // gives less power than Berserker's, so the toughness comes from the pieces where
    // Soldier's costs nothing: it gives as much power as Berserker's.
    let c = catalog();
    let pieces = [
        (GearSlot::Boots, Quality::Exotic),
        (GearSlot::Coat, Quality::Exotic),
        (GearSlot::Gloves, Quality::Exotic),
    ];
    let (prefixes, _) = optimize_fine(&Sturdy, &(), &c, &pieces, &[0, 2], None);
    let found = objective(&Sturdy, &c, &pieces, &prefixes);
    assert_eq!(found, brute_force(&Sturdy, &c, &pieces, &[0, 2]));
    assert_eq!(prefixes, vec![2, 2, 2]);
    let (prefixes, _) = optimize_fine(&Sturdy, &(), &c, &pieces, &[2, 0], None);
    assert_eq!(prefixes, vec![2, 2, 2]);
}

#[test]
fn exact_stage_agrees_with_enumeration() {
    let c = catalog();
    let pieces = [
        (GearSlot::Helm, Quality::Exotic),
        (GearSlot::Ring1, Quality::Ascended),
        (GearSlot::Coat, Quality::Exotic),
        (GearSlot::Ring2, Quality::Ascended),
        (GearSlot::Leggings, Quality::Ascended),
        (GearSlot::Backpack, Quality::Exotic),
    ];
    let builds = [
        weighted(1, 0, 0, 0),
        weighted(1, 3, 0, 0),
        weighted(2, 1, 3, 1),
        weighted(0, 0, 0, 1),
        weighted(0, 0, 0, 0),
    ];
    for ch in &builds {
        for choices in [vec![0, 1, 2], vec![2, 0], vec![1], vec![1, 1, 0]] {
            let (prefixes, _) = optimize_fine(ch, &(), &c, &pieces, &choices, None);
            assert_eq!(prefixes.len(), pieces.len());
            assert!(prefixes.iter().all(|p| choices.contains(p)));
            assert_eq!(
                objective(ch, &c, &pieces, &prefixes),
                brute_force(ch, &c, &pieces, &choices),
            );
        }
    }
}

#[test]
fn symmetry_breaking_keeps_the_optimum() {
    // The two rings, and the helm, boots and gloves, have the same weight and the same
    // formulas: the search skips the mirror images of their assignments.
    let c = catalog();
    let pieces = [
        (GearSlot::Ring1, Quality::Exotic),
        (GearSlot::Ring2, Quality::Exotic),
        (GearSlot::Helm, Quality::Exotic),
        (GearSlot::Boots, Quality::Exotic),
        (GearSlot::Gloves, Quality::Exotic),
    ];
    for ch in [&Sturdy] {
        let (prefixes, _) = optimize_fine(ch, &(), &c, &pieces, &[0, 1, 2], None);
        assert_eq!(
            objective(ch, &c, &pieces, &prefixes),
            brute_force(ch, &c, &pieces, &[0, 1, 2]),
        );
    }
    let ch = weighted(3, 1, 1, 2);
    let (prefixes, _) = optimize_fine(&ch, &(), &c, &pieces, &[2, 1, 0], None);
    assert_eq!(objective(&ch, &c, &pieces, &prefixes), brute_force(&ch, &c, &pieces, &[0, 1, 2]));
    // Along a run of equal slots the prefixes do not decrease in the order of the search.
    let order = sort_by_weight(&pieces.iter().map(|&(s, q)| c.slot_weight(s, q)).collect());
    assert_eq!(order, vec![0, 1, 2, 3, 4]);
}

#[test]
fn exact_stage_is_no_worse_than_the_coarse_stage() {
    let c = catalog();
    let pieces = [
        (GearSlot::Helm, Quality::Exotic),
        (GearSlot::Coat, Quality::Exotic),
        (GearSlot::Leggings, Quality::Exotic),
        (GearSlot::Boots, Quality::Exotic),
    ];
    for ch in [weighted(1, 0, 2, 0), weighted(1, 2, 0, 0), weighted(1, 0, 0, 1)] {
        let (pw, cfg) = optimize_coarse(&ch, &c, &pieces, &());
        let coarse = evaluate_config(&ch, &calc_gear_stats(&c, &pw), &cfg);
        let winners: Vec<usize> = (0..pw.len()).filter(|&i| pw[i].gt(whole(0))).collect();
        let (prefixes, _) = optimize_fine(&ch, &cfg, &c, &pieces, &winners, None);
        let fine = objective(&ch, &c, &pieces, &prefixes);
        assert!(fine.le(coarse));
    }
}

#[test]
fn target_weights_bound_the_build() {
    let c = catalog();
    let ch = weighted(1, 0, 2, 0);
    let pieces = [
        (GearSlot::Helm, Quality::Exotic),
        (GearSlot::Coat, Quality::Exotic),
        (GearSlot::Leggings, Quality::Exotic),
        (GearSlot::Boots, Quality::Exotic),
    ];
    // The budget is 840, the margin 84.  Sinister is to have about 360 of it: the coat, or
    // the leggings and a small piece.
    let target = vec![whole(360), whole(480), whole(0)];
    let (prefixes, _) = optimize_fine(&ch, &(), &c, &pieces, &[0, 1, 2], Some(&target));
    assert_eq!(prefixes, vec![1, 0, 1, 1]);
    // Without the target every piece is Berserker's.
    let (prefixes, _) = optimize_fine(&ch, &(), &c, &pieces, &[0, 1, 2], None);
    assert_eq!(prefixes, vec![1, 1, 1, 1]);
    // A target that no build meets leaves the build that the search starts from.
    let target = vec![whole(2000), whole(0), whole(0)];
    let (prefixes, _) = optimize_fine(&ch, &(), &c, &pieces, &[0, 1, 2], Some(&target));
    assert_eq!(prefixes, vec![0, 0, 0, 0]);
}

#[test]
fn bands_around_targets() {
    assert_eq!(target_margin(), frac(1, 10));
    assert_eq!(band_around(whole(360), whole(840)), (whole(276), whole(444)));
    assert_eq!(band_around(whole(50), whole(840)), (whole(0), whole(134)));
}

#[test]
fn infusions_go_to_the_best_attribute() {
    let c = catalog();
    let ch = weighted(1, 0, 3, 0);
    let pieces = [(GearSlot::Coat, Quality::Exotic), (GearSlot::Helm, Quality::Exotic)];
    let mut opt = Optimizer::new(&ch, &(), &c, &pieces, 3, &[0, 1], None);
    opt.optimize();
    assert_eq!(opt.best_candidate.slot_prefixes, vec![1, 1]);
    let mut expected = PerStat::splat(0u8);
    expected.ferocity = 3;
    assert_eq!(opt.best_candidate.infusions, expected);
    // Power 126 + 42, ferocity 90 + 30 + 15.
    assert_eq!(opt.best_m, whole(-573));
    assert!(opt.tried > 0);
}

#[test]
fn infusions_do_not_exceed_their_number() {
    let c = catalog();
    let ch = weighted(1, 0, 0, 0);
    let pieces = [(GearSlot::Coat, Quality::Exotic)];
    for available in 0..4u8 {
        let mut opt = Optimizer::new(&ch, &(), &c, &pieces, available as usize, &[1], None);
        opt.optimize();
        let mut expected = PerStat::splat(0u8);
        expected.power = available;
        assert_eq!(opt.best_candidate.infusions, expected);
        assert_eq!(opt.best_m, whole(-126 - 5 * available as i64));
    }
}

#[test]
fn search_space_is_sorted_by_weight() {
    let c = catalog();
    let pieces = [
        (GearSlot::Helm, Quality::Exotic),
        (GearSlot::Coat, Quality::Exotic),
        (GearSlot::Ring1, Quality::Exotic),
        (GearSlot::Boots, Quality::Exotic),
        (GearSlot::Leggings, Quality::Exotic),
    ];
    let space = SearchSpace::new(&c, &pieces, 0, &[1, 0], None);
    let order: Vec<usize> = space.slots.iter().map(|s| s.orig_idx).collect();
    assert_eq!(order, vec![1, 4, 2, 0, 3]);
    let weights: Vec<Fixed> = space.slots.iter().map(|s| s.stat_weight).collect();
    assert_eq!(weights, vec![whole(360), whole(240), whole(220), whole(120), whole(120)]);
    assert_eq!(space.num_prefixes, 2);
    // Berserker's in the coat.
    assert_eq!(space.slot_stats[0][0].power, whole(126));
    assert_eq!(space.slot_stats[0][1].condition_damage, whole(126));
    // What the ring and the two small pieces can give at most.
    assert_eq!(space.slot_remaining_stats[2].power, whole(161));
    assert_eq!(space.slot_remaining_stats[2].condition_damage, whole(161));
    assert_eq!(space.slot_remaining_stats[2].toughness, whole(0));
    assert_eq!(space.slot_remaining_stats[5], PerStat::splat(whole(0)));
    assert_eq!(space.slot_remaining_weight[0], whole(1060));
    assert_eq!(space.slot_remaining_weight[3], whole(240));
    assert_eq!(space.slot_remaining_weight[5], whole(0));
}

#[test]
fn sorting_is_stable() {
    let weights = vec![whole(3), whole(7), whole(3), whole(9), whole(7)];
    assert_eq!(sort_by_weight(&weights), vec![3, 1, 4, 0, 2]);
    assert_eq!(sort_by_weight(&vec![]), Vec::<usize>::new());
}

#[test]
fn infusion_helpers() {
    let s = infusion_stats(Stat::Precision, 3);
    assert_eq!(s.precision, whole(15));
    assert_eq!(s.power, whole(0));
    assert_eq!(max_infusion_stats(4), PerStat::splat(whole(20)));
    let o = optimistic_infusions(2, 3);
    assert_eq!(o.power, whole(0));
    assert_eq!(o.precision, whole(0));
    assert_eq!(o.ferocity, whole(15));
    assert_eq!(o.concentration, whole(15));
    let start = Candidate::new(2, 3);
    assert_eq!(start.slot_prefixes, vec![0, 0]);
    assert_eq!(start.prefix_weights, vec![whole(0); 3]);
    assert_eq!(start.copy().infusions, PerStat::splat(0));
}
