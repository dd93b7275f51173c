use gear_opt::character::{CharacterModel, CombatSecond};
use gear_opt::fixed::Fixed;
use gear_opt::gear::{
    Catalog, GearSlot, PerGearSlot, PerQuality, Prefix, Quality, SlotInfo, StatFormula,
};
use gear_opt::optimize::coarse::random::{
    anneal_fraction, draw_bound, drawn_move, exp_neg, pick_index, skew, Move,
};
use gear_opt::optimize::coarse::restart::{
    accepts, best_first, cooling, seed_config, seed_weights, temperature,
};
use gear_opt::optimize::coarse::{
    calc_gear_stats, optimize_coarse, optimize_coarse_anneal, optimize_coarse_basin_hopping,
    optimize_coarse_one, optimize_coarse_one_ex, optimize_coarse_randomized,
    optimize_coarse_scan, zero_weights, BestSeen, Hold,
};
use gear_opt::optimize::{calc_max_weight, evaluate_config, worst_objective, AssertTotal};
use gear_opt::stats::{base_stats, Modifiers, PerStat, Stat, Stats};
use gear_opt::vary::Vary;

fn whole(n: i64) -> Fixed {
    Fixed::from_int(n)
}

fn frac(n: i64, d: i64) -> Fixed {
    Fixed::from_ratio(n, d)
}

fn value(x: Fixed) -> f64 {
    x.raw as f64 / 1e6
}

/// A configuration with one field of three values.
#[derive(Clone, Copy, Debug, PartialEq, Eq)]
struct Level(u16);

impl Vary for Level {
    fn num_fields(&self) -> usize {
        1
    }

    fn num_field_values(&self, _field: usize) -> u16 {
        3
    }

    fn get_field(&self, _field: usize) -> u16 {
        self.0
    }

    fn set_field(&mut self, _field: usize, value: u16) {
        self.0 = value;
    }
}

/// A build whose damage is power plus twice the ferocity, with a bonus for the level.  The
/// middle level is not valid.
struct Striker;

impl CharacterModel for Striker {
    type Config = Level;

    fn is_config_valid(&self, config: &Level) -> bool {
        config.0 != 1
    }

    fn calc_stats(&self, gear: &Stats, _config: &Level) -> (Stats, Modifiers, CombatSecond) {
        (base_stats().add(*gear), Modifiers::default(), CombatSecond::default())
    }

    fn evaluate(&self, config: &Level, stats: &Stats, _m: &Modifiers, _c: &CombatSecond) -> Fixed {
        let bonus = Fixed::from_int(100 * config.0 as i64);
        stats.power.add(stats.ferocity.mul(Fixed::from_int(2))).add(bonus).neg()
    }
}

/// A build that wants condition damage, but no more than 200.
struct Capped;

impl CharacterModel for Capped {
    type Config = Level;

    fn is_config_valid(&self, _config: &Level) -> bool {
        true
    }

    fn calc_stats(&self, gear: &Stats, _config: &Level) -> (Stats, Modifiers, CombatSecond) {
        (*gear, Modifiers::default(), CombatSecond::default())
    }

    fn evaluate(&self, _config: &Level, stats: &Stats, _m: &Modifiers, _c: &CombatSecond) -> Fixed {
        stats.condition_damage.min(Fixed::from_int(200)).add(stats.power).neg()
    }
}

fn catalog() -> Catalog {
    let formula = |factor: Fixed| StatFormula { factor, base: PerQuality::splat(whole(0)) };
    let mut berserker = PerStat::splat(StatFormula::zero());
    berserker.set(Stat::Power, formula(frac(35, 100)));
    berserker.set(Stat::Precision, formula(frac(25, 100)));
    berserker.set(Stat::Ferocity, formula(frac(25, 100)));
    let mut sinister = PerStat::splat(StatFormula::zero());
    sinister.set(Stat::ConditionDamage, formula(frac(35, 100)));
    sinister.set(Stat::Power, formula(frac(25, 100)));
    sinister.set(Stat::Precision, formula(frac(25, 100)));
    let mut soldier = PerStat::splat(StatFormula::zero());
    soldier.set(Stat::Power, formula(frac(35, 100)));
    soldier.set(Stat::Toughness, formula(frac(25, 100)));
    soldier.set(Stat::Vitality, formula(frac(25, 100)));
    let slots = PerGearSlot::from_fn(|_slot: GearSlot| SlotInfo {
        points: PerQuality::splat(whole(100)),
        add_base: false,
    });
    Catalog::new(
        vec![
            Prefix { name: "Sinister".to_string(), formulas: sinister },
            Prefix { name: "Berserker's".to_string(), formulas: berserker },
            Prefix { name: "Soldier's".to_string(), formulas: soldier },
        ],
        slots,
    )
    .unwrap()
}

fn pieces() -> Vec<(GearSlot, Quality)> {
    vec![
        (GearSlot::Helm, Quality::Exotic),
        (GearSlot::Coat, Quality::Exotic),
        (GearSlot::Boots, Quality::Ascended),
        (GearSlot::Ring1, Quality::Exotic),
    ]
}

fn objective<C: CharacterModel>(ch: &C, c: &Catalog, pw: &Vec<Fixed>, cfg: &C::Config) -> Fixed {
    evaluate_config(ch, &calc_gear_stats(c, pw), cfg)
}

fn sum(pw: &[Fixed]) -> i64 {
    pw.iter().map(|w| w.raw).sum()
}

fn within_budget(pw: &[Fixed], max: Fixed) -> bool {
    pw.iter().all(|w| w.raw >= 0) && sum(pw) <= max.raw
}

#[test]
fn evaluate_config_runs_the_model() {
    let c = catalog();
    let gear = calc_gear_stats(&c, &vec![whole(0), whole(400), whole(0)]);
    // Power 1000 + 140, ferocity 100, level 2.
    assert_eq!(evaluate_config(&Striker, &gear, &Level(2)), whole(-1540));
    assert_eq!(worst_objective(), whole(999999999));
}

#[test]
fn budget_of_the_pieces() {
    assert_eq!(calc_max_weight(&catalog(), &pieces()), whole(400));
}

#[test]
fn local_search_moves_to_the_best_prefix() {
    let c = catalog();
    let max = whole(400);
    let seed = vec![whole(400), whole(0), whole(0)];
    let (pw, cfg) = optimize_coarse_one(&Striker, &c, max, &seed, &Level(0));
    assert_eq!(pw, vec![whole(0), whole(400), whole(0)]);
    assert_eq!(cfg, Level(2));
    assert_eq!(objective(&Striker, &c, &pw, &cfg), whole(-1540));
}

#[test]
fn local_search_never_returns_worse_than_its_seed() {
    let c = catalog();
    let max = whole(400);
    for seed in [
        vec![whole(0), whole(0), whole(0)],
        vec![whole(100), whole(100), whole(200)],
        vec![whole(0), whole(400), whole(0)],
        vec![whole(13), whole(7), whole(0)],
    ] {
        for level in [0, 2] {
            let (pw, cfg) = optimize_coarse_one(&Capped, &c, max, &seed, &Level(level));
            assert!(within_budget(&pw, max));
            assert!(objective(&Capped, &c, &pw, &cfg).le(objective(&Capped, &c, &seed, &Level(level))));
        }
    }
}

#[test]
fn local_search_finds_the_mix() {
    // Condition damage counts up to 200 only: beyond that, power alone counts.  The best mix
    // gives Sinister just enough weight for 200 condition damage.
    let c = catalog();
    let max = whole(1000);
    let seed = vec![whole(1000), whole(0), whole(0)];
    let (pw, cfg) = optimize_coarse_one(&Capped, &c, max, &seed, &Level(0));
    assert!(within_budget(&pw, max));
    let found = value(objective(&Capped, &c, &pw, &cfg));
    // 200 + 0.25 * (200 / 0.35) + 0.35 * (1000 - 200 / 0.35) = 492.857...
    assert!(found <= -490.0);
    assert!(found >= -492.858);
}

#[test]
fn held_field_is_not_changed() {
    let c = catalog();
    let max = whole(400);
    let seed = vec![whole(0), whole(0), whole(400)];
    let mut seen = BestSeen::new(3, &Level(0));
    let (pw, cfg) =
        optimize_coarse_one_ex(&Striker, &c, max, &seed, &Level(0), Hold::Field(0), &mut seen);
    assert_eq!(cfg, Level(0));
    assert_eq!(pw, vec![whole(0), whole(400), whole(0)]);
    // Level 0 was seen with the best objective of the search; the others were not seen.
    assert_eq!(seen.for_field_value[0][0], whole(-1340));
    assert_eq!(seen.for_field_value[0][1], worst_objective());
    assert_eq!(seen.for_field_value[0][2], worst_objective());
    assert_eq!(seen.for_prefix[1], whole(-1340));
}

#[test]
fn held_prefix_keeps_its_weight() {
    let c = catalog();
    let max = whole(400);
    let seed = vec![whole(400), whole(0), whole(0)];
    let mut seen = BestSeen::new(3, &Level(0));
    let hold = Hold::Prefix(0, whole(100));
    let (pw, _) = optimize_coarse_one_ex(&Striker, &c, max, &seed, &Level(0), hold, &mut seen);
    assert!(within_budget(&pw, max));
    // Sinister is the worst prefix for this build, and still keeps the weight held.
    assert_eq!(pw, vec![whole(100), whole(300), whole(0)]);
}

#[test]
fn invalid_configurations_are_not_tried() {
    let c = catalog();
    let mut seen = BestSeen::new(3, &Level(0));
    let seed = zero_weights(3);
    let (_, cfg) =
        optimize_coarse_one_ex(&Striker, &c, whole(400), &seed, &Level(0), Hold::Nothing, &mut seen);
    assert_eq!(cfg, Level(2));
    assert_eq!(seen.for_field_value[0][1], worst_objective());
}

#[test]
fn best_seen_records_improvements() {
    let mut seen = BestSeen::new(2, &Level(0));
    assert_eq!(seen.for_prefix, vec![worst_objective(); 2]);
    assert_eq!(seen.for_field_value, vec![vec![worst_objective(); 3]]);
    seen.record(&vec![whole(400), whole(399)], &Level(2), whole(-5));
    assert_eq!(seen.for_prefix, vec![whole(-5), worst_objective()]);
    assert_eq!(seen.for_field_value[0], vec![worst_objective(), worst_objective(), whole(-5)]);
    seen.record(&vec![whole(1000), whole(1000)], &Level(2), whole(-3));
    assert_eq!(seen.for_prefix, vec![whole(-5), whole(-3)]);
    assert_eq!(seen.for_field_value[0][2], whole(-5));
    seen.record(&vec![whole(1000), whole(0)], &Level(0), whole(-9));
    assert_eq!(seen.for_prefix, vec![whole(-9), whole(-3)]);
    assert_eq!(seen.for_field_value[0], vec![whole(-9), worst_objective(), whole(-5)]);
}

#[test]
fn coarse_stage_finds_the_best_prefix() {
    let c = catalog();
    let (pw, cfg) = optimize_coarse(&Striker, &c, &pieces(), &Level(0));
    assert_eq!(cfg, Level(2));
    assert_eq!(pw, vec![whole(0), whole(400), whole(0)]);
}

#[test]
fn scan_finds_the_best_prefix() {
    let c = catalog();
    let (pw, cfg) = optimize_coarse_scan(&Striker, &c, &pieces(), &Level(0));
    assert_eq!(cfg, Level(2));
    assert_eq!(pw, vec![whole(0), whole(400), whole(0)]);
}

#[test]
fn basin_hopping_is_no_worse_than_the_scan() {
    let c = catalog();
    let scan = optimize_coarse_scan(&Capped, &c, &pieces(), &Level(0));
    let hop = optimize_coarse_basin_hopping(&Capped, &c, &pieces(), &Level(0), Some(5));
    assert!(within_budget(&hop.0, whole(400)));
    assert!(objective(&Capped, &c, &hop.0, &hop.1).le(objective(&Capped, &c, &scan.0, &scan.1)));
    let none = optimize_coarse_basin_hopping(&Capped, &c, &pieces(), &Level(0), Some(0));
    assert_eq!(none, scan);
}

#[test]
fn restart_strategies_repeat_themselves() {
    let c = catalog();
    let a = optimize_coarse_basin_hopping(&Capped, &c, &pieces(), &Level(0), Some(3));
    let b = optimize_coarse_basin_hopping(&Capped, &c, &pieces(), &Level(0), Some(3));
    assert_eq!(a, b);
    let a = optimize_coarse_anneal(&Striker, &c, &pieces(), &Level(0), 200);
    let b = optimize_coarse_anneal(&Striker, &c, &pieces(), &Level(0), 200);
    assert_eq!(a, b);
    let a = optimize_coarse_randomized(&Striker, &c, &pieces(), &Level(0), 2);
    let b = optimize_coarse_randomized(&Striker, &c, &pieces(), &Level(0), 2);
    assert_eq!(a, b);
}

#[test]
fn annealing_improves_on_the_start() {
    let c = catalog();
    let (pw, cfg) = optimize_coarse_anneal(&Striker, &c, &pieces(), &Level(0), 500);
    assert!(within_budget(&pw, whole(400)));
    assert!(Striker.is_config_valid(&cfg));
    // The state without any weight has the objective -1000.
    assert!(objective(&Striker, &c, &pw, &cfg).lt(whole(-1000)));
    let (pw, cfg) = optimize_coarse_anneal(&Striker, &c, &pieces(), &Level(0), 0);
    assert_eq!((pw, cfg), (zero_weights(3), Level(0)));
}

#[test]
fn randomized_multi_start_finds_the_best_prefix() {
    let c = catalog();
    let (pw, cfg) = optimize_coarse_randomized(&Striker, &c, &pieces(), &Level(0), 3);
    assert!(within_budget(&pw, whole(400)));
    assert_eq!(cfg, Level(2));
    assert_eq!(objective(&Striker, &c, &pw, &cfg), whole(-1540));
}

#[test]
fn temperature_falls() {
    assert_eq!(cooling(), Fixed::from_raw(933_033));
    assert_eq!(temperature(0), whole(100));
    assert_eq!(temperature(1), Fixed::from_raw(93_303_300));
    // The temperature halves in ten steps.
    assert_eq!(temperature(10), whole(50));
    assert_eq!(temperature(20), Fixed::from_raw(24_999_998));
    assert_eq!(temperature(90), Fixed::from_raw(195_305));
    assert!(temperature(200).lt(temperature(199)));
    // In the end nothing is left of it.
    assert_eq!(temperature(235), whole(0));
    assert_eq!(temperature(usize::MAX), whole(0));
}

#[test]
fn exponential_approximation() {
    assert_eq!(exp_neg(whole(0)), whole(1));
    assert_eq!(exp_neg(whole(1024)), whole(0));
    assert_eq!(exp_neg(whole(5000)), whole(0));
    for (x, d) in [(1, 10), (1, 2), (1, 1), (2, 1), (5, 1), (10, 1)] {
        let approx = value(exp_neg(frac(x, d)));
        let exact = (-(x as f64) / d as f64).exp();
        assert!((approx - exact).abs() < 0.003, "{} / {}: {} vs {}", x, d, approx, exact);
    }
    // The more is lost, the less likely the move.
    assert!(exp_neg(whole(2)).lt(exp_neg(whole(1))));
}

#[test]
fn metropolis_acceptance() {
    // Improvements are always accepted.
    assert!(accepts(whole(10), whole(9), whole(1), frac(999, 1000)));
    assert!(accepts(whole(10), whole(9), whole(0), frac(999, 1000)));
    // A loss of one temperature is accepted with a chance of about 0.37.
    assert!(accepts(whole(10), whole(15), whole(5), frac(36, 100)));
    assert!(!accepts(whole(10), whole(15), whole(5), frac(38, 100)));
    // No loss is accepted without temperature.
    assert!(!accepts(whole(10), whole(15), whole(0), whole(0)));
    // A step sideways is accepted whatever the draw below one.
    assert!(accepts(whole(10), whole(10), whole(5), frac(999, 1000)));
}

#[test]
fn skewed_picks() {
    assert_eq!(skew(whole(0)), whole(0));
    assert_eq!(skew(frac(1, 10)), frac(1, 4));
    assert_eq!(skew(frac(1, 5)), frac(1, 2));
    assert_eq!(skew(frac(6, 10)), frac(3, 4));
    assert_eq!(skew(whole(1)), whole(1));
    // A draw near one picks the first entry, a draw of zero the last.
    assert_eq!(pick_index(10, frac(999, 1000)), 0);
    assert_eq!(pick_index(10, whole(0)), 9);
    assert_eq!(pick_index(10, frac(1, 5)), 5);
    assert_eq!(pick_index(10, frac(1, 10)), 7);
    assert_eq!(pick_index(1, frac(1, 3)), 0);
    // A fifth of the draws picks from the worse half.
    let worse = (0..1000).filter(|&i| pick_index(10, frac(i, 1000)) >= 5).count();
    assert_eq!(worse, 201);
}

#[test]
fn best_objectives_first() {
    let keys = vec![whole(5), whole(-3), whole(5), whole(0), whole(-3)];
    assert_eq!(best_first(&keys), vec![1, 4, 3, 0, 2]);
    assert_eq!(best_first(&vec![]), Vec::<usize>::new());
    let worst = vec![worst_objective(); 3];
    assert_eq!(best_first(&worst), vec![0, 1, 2]);
}

#[test]
fn assert_total_orders_like_its_value() {
    let mut v = vec![AssertTotal(whole(3)), AssertTotal(whole(-1)), AssertTotal(whole(2))];
    v.sort();
    assert_eq!(v, vec![AssertTotal(whole(-1)), AssertTotal(whole(2)), AssertTotal(whole(3))]);
    assert!(AssertTotal(1u8) < AssertTotal(2u8));
}

#[test]
fn draws_select_a_move() {
    // A first draw of zero selects the weights: a prefix and a fraction of the budget.
    match drawn_move(0, 3, frac(1, 4)) {
        Move::Weight { prefix, fraction } => {
            assert_eq!(prefix, 3);
            assert_eq!(fraction, frac(1, 4));
        },
        Move::Field { .. } => panic!("a move of a field"),
    }
    // Any other first draw selects the field before it, and the second draw its value.
    match drawn_move(1, 2, whole(0)) {
        Move::Field { field, value } => assert_eq!((field, value), (0, 2)),
        Move::Weight { .. } => panic!("a move of weight"),
    }
    match drawn_move(5, 0, frac(1, 2)) {
        Move::Field { field, value } => assert_eq!((field, value), (4, 0)),
        Move::Weight { .. } => panic!("a move of weight"),
    }
}

#[test]
fn second_draw_is_bounded_by_what_the_first_selects() {
    let cfg = (Level(0), Level(2));
    assert_eq!(cfg.num_fields(), 2);
    assert_eq!(draw_bound(7, &cfg, 0), 7);
    assert_eq!(draw_bound(7, &cfg, 1), 3);
    assert_eq!(draw_bound(7, &cfg, 2), 3);
    assert_eq!(draw_bound(1, &Level(1), 0), 1);
}

/// A build to which every gear and every configuration is the same.
struct Flat;

impl CharacterModel for Flat {
    type Config = Level;

    fn is_config_valid(&self, _config: &Level) -> bool {
        true
    }

    fn calc_stats(&self, gear: &Stats, _config: &Level) -> (Stats, Modifiers, CombatSecond) {
        (base_stats().add(*gear), Modifiers::default(), CombatSecond::zero())
    }

    fn evaluate(
        &self,
        _config: &Level,
        _stats: &Stats,
        _mods: &Modifiers,
        _combat: &CombatSecond,
    ) -> Fixed {
        whole(0)
    }
}

#[test]
fn without_a_strict_improvement_the_seed_is_kept() {
    let c = catalog();
    let seed = vec![whole(100), whole(0), whole(0)];
    let mut seen = BestSeen::new(3, &Level(0));
    let (pw, cfg) =
        optimize_coarse_one_ex(&Flat, &c, whole(400), &seed, &Level(0), Hold::Nothing, &mut seen);
    assert_eq!((pw, cfg), (seed, Level(0)));
    // Every neighbour was evaluated and recorded: each prefix was in use in some move of
    // weight, and each value of the field was tried.
    assert_eq!(seen.for_prefix, vec![whole(0); 3]);
    assert_eq!(seen.for_field_value, vec![vec![whole(0); 3]]);
}

#[test]
fn search_records_what_it_evaluates() {
    let c = catalog();
    let seed = zero_weights(3);
    let mut seen = BestSeen::new(3, &Level(0));
    optimize_coarse_one_ex(&Striker, &c, whole(400), &seed, &Level(0), Hold::Nothing, &mut seen);
    // The first round moves the whole budget to each prefix in turn.
    for j in 0..3 {
        let mut all = zero_weights(3);
        all[j] = whole(400);
        assert!(seen.for_prefix[j].le(objective(&Striker, &c, &all, &Level(0))));
    }
    // It tries the valid values of the field with the weights of the seed, and no other.
    assert!(seen.for_field_value[0][0].le(objective(&Striker, &c, &seed, &Level(0))));
    assert!(seen.for_field_value[0][2].le(objective(&Striker, &c, &seed, &Level(2))));
    assert_eq!(seen.for_field_value[0][1], worst_objective());
}

#[test]
fn seeds_are_assembled_from_the_draws() {
    assert_eq!(
        seed_weights(3, whole(400), 0, 1, frac(3, 4)),
        vec![whole(300), whole(100), whole(0)]
    );
    // The second prefix takes the place of the first where they are the same.
    assert_eq!(seed_weights(3, whole(400), 2, 2, frac(3, 4)), vec![whole(0), whole(0), whole(100)]);
    assert_eq!(seed_config(&Striker, &Level(0), &vec![2]), Level(2));
    // The middle level is not valid: the seed falls back.
    assert_eq!(seed_config(&Striker, &Level(0), &vec![1]), Level(0));
}

#[test]
fn annealing_shifts_the_whole_budget_on_heads() {
    assert_eq!(anneal_fraction(0, frac(1, 4)), whole(1));
    assert_eq!(anneal_fraction(1, frac(1, 4)), frac(1, 4));
}

/// A build that wants power and nothing else.
struct Powered;

impl CharacterModel for Powered {
    type Config = Level;

    fn is_config_valid(&self, _config: &Level) -> bool {
        true
    }

    fn calc_stats(&self, gear: &Stats, _config: &Level) -> (Stats, Modifiers, CombatSecond) {
        (*gear, Modifiers::default(), CombatSecond::zero())
    }

    fn evaluate(&self, _config: &Level, stats: &Stats, _m: &Modifiers, _c: &CombatSecond) -> Fixed {
        stats.power.neg()
    }
}

#[test]
fn of_equally_good_neighbours_the_first_wins() {
    let c = catalog();
    // The second and the third prefix give the same power, which is the most.
    let (pw, cfg) = optimize_coarse_one(&Powered, &c, whole(400), &zero_weights(3), &Level(1));
    assert_eq!((pw, cfg), (vec![whole(0), whole(400), whole(0)], Level(1)));
    // The scan takes the first of the equally good outcomes too, and basin hopping without a
    // hop returns what the scan returns.
    let scan = optimize_coarse_scan(&Powered, &c, &pieces(), &Level(1));
    assert_eq!(scan, (vec![whole(0), whole(400), whole(0)], Level(1)));
    let hop = optimize_coarse_basin_hopping(&Powered, &c, &pieces(), &Level(1), Some(0));
    assert_eq!(hop, scan);
    let hops = optimize_coarse_basin_hopping(&Powered, &c, &pieces(), &Level(1), Some(4));
    assert!(objective(&Powered, &c, &hops.0, &hops.1).le(objective(&Powered, &c, &scan.0, &scan.1)));
    let pairs = optimize_coarse(&Powered, &c, &pieces(), &Level(1));
    assert_eq!(objective(&Powered, &c, &pairs.0, &pairs.1), whole(-140));
}
