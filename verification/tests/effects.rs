use gear_opt::character::{CombatEvent, CombatSecond};
use gear_opt::effect::boon::{Fury, Might, OldFury, OldMight};
use gear_opt::effect::food::{Food, PotatoLeekSoup, RedLentilSaobosa};
use gear_opt::effect::rune::{Elementalist, Krait, Rune};
use gear_opt::effect::sigil::{Agony, Sigil, Smoldering};
use gear_opt::effect::{proc_frequency, Chain, Effect, EffectExt, NoEffect, ROUNDS};
use gear_opt::fixed::Fixed;
use gear_opt::stats::{base_stats, Modifiers, Stats};
use gear_opt::vary::Vary;

fn whole(n: i64) -> Fixed {
    Fixed::from_int(n)
}

fn frac(n: i64, d: i64) -> Fixed {
    Fixed::from_ratio(n, d)
}

#[test]
fn no_effect_only_sets_the_crits() {
    let mut combat = CombatSecond::zero();
    combat.strike = CombatEvent::new(whole(2), whole(5));
    let stats = base_stats();
    let mods = Modifiers::default();
    let (s, m, c) = NoEffect.apply(stats, mods, combat);
    assert_eq!(s, stats);
    assert_eq!(m, mods);
    // Crit chance 5 %, two hits per second.
    assert_eq!(c.crit, frac(1, 10));
    assert_eq!(c.strike, combat.strike);
}

#[test]
fn applying_no_effect_twice_changes_nothing() {
    let mut combat = CombatSecond::zero();
    combat.strike = CombatEvent::new(whole(3), whole(5));
    combat.crit = whole(77);
    let mut stats = base_stats();
    stats.precision = whole(1525);
    let composites_agree = |once: (Stats, Modifiers, CombatSecond),
                            twice: (Stats, Modifiers, CombatSecond)| {
        assert_eq!(once.0, twice.0);
        assert_eq!(once.1, twice.1);
        assert_eq!(once.2, twice.2);
    };
    let once = NoEffect.apply(stats, Modifiers::default(), combat);
    let twice = NoEffect.apply(once.0, once.1, once.2);
    composites_agree(once, twice);
    assert_eq!(once.2.crit, frac(9, 10));

    let chain = NoEffect.chain(NoEffect).chain(None::<NoEffect>).chain(Some(NoEffect));
    let once = chain.apply(stats, Modifiers::default(), combat);
    let twice = chain.apply(once.0, once.1, once.2);
    composites_agree(once, twice);
    composites_agree(once, NoEffect.apply(stats, Modifiers::default(), combat));
}

#[test]
fn runes_add_permanently() {
    let (s, m, _) = Elementalist.apply(base_stats(), Modifiers::default(), CombatSecond::zero());
    assert_eq!(s.power, whole(1175));
    assert_eq!(s.condition_damage, whole(225));
    assert_eq!(m.condition_duration.bleed, whole(10));
    assert_eq!(m.condition_duration.torment, whole(10));
    let (s, m, _) = Krait.apply(base_stats(), Modifiers::default(), CombatSecond::zero());
    assert_eq!(s.power, whole(1000));
    assert_eq!(s.condition_damage, whole(175));
    assert_eq!(m.condition_duration.bleed, whole(50));
    assert_eq!(m.condition_duration.burn, whole(0));
    let rune: Rune = Krait.into();
    let (s2, m2, _) = rune.apply(base_stats(), Modifiers::default(), CombatSecond::zero());
    assert_eq!((s2, m2), (s, m));
}

#[test]
fn sigils_and_food_add_temporarily() {
    let zero = CombatSecond::zero();
    let (_, m, _) = Agony.apply(base_stats(), Modifiers::default(), zero);
    assert_eq!(m.condition_duration.bleed, whole(20));
    let (_, m, _) = Sigil::Smoldering(Smoldering).apply(base_stats(), Modifiers::default(), zero);
    assert_eq!(m.condition_duration.burn, whole(20));
    assert_eq!(m.condition_duration.bleed, whole(0));
    let (s, _, _) = PotatoLeekSoup.apply(base_stats(), Modifiers::default(), zero);
    assert_eq!(s.precision, whole(1100));
    assert_eq!(s.condition_damage, whole(70));
    let (s, _, _) = Food::RedLentilSaobosa(RedLentilSaobosa).apply(
        base_stats(),
        Modifiers::default(),
        zero,
    );
    assert_eq!(s.expertise, whole(100));
    assert_eq!(s.condition_damage, whole(70));
}

#[test]
fn stages_run_in_order() {
    // The permanent stage of every effect runs before any distribution, whatever the order
    // of the chain: ferocity gets a tenth of the vitality that the later effect adds.
    let effect = NoEffect
        .chain_distribute(|mut s: Stats, m: Modifiers| {
            s.ferocity = s.ferocity.add(s.vitality.mul(Fixed::from_ratio(1, 10)));
            (s, m)
        })
        .chain_add_permanent(|mut s: Stats, m: Modifiers| {
            s.vitality = s.vitality.add(Fixed::from_int(500));
            (s, m)
        })
        .chain_add_temporary(|mut s: Stats, m: Modifiers, _c: CombatSecond| {
            s.vitality = s.vitality.add(Fixed::from_int(1000));
            (s, m)
        });
    let (s, _, _) = effect.apply(base_stats(), Modifiers::default(), CombatSecond::zero());
    assert_eq!(s.ferocity, whole(150));
    assert_eq!(s.vitality, whole(2500));
}

#[test]
fn chain_applies_left_then_right() {
    let double = gear_opt::effect::AddPermanent(|mut s: Stats, m: Modifiers| {
        s.power = s.power.mul(Fixed::from_int(2));
        (s, m)
    });
    let plus = gear_opt::effect::AddPermanent(|mut s: Stats, m: Modifiers| {
        s.power = s.power.add(Fixed::from_int(100));
        (s, m)
    });
    let mut s = base_stats();
    let mut m = Modifiers::default();
    Chain(double, plus).add_permanent(&mut s, &mut m);
    assert_eq!(s.power, whole(2100));
}

#[test]
fn might_and_fury_follow_the_combat_summary() {
    let mut combat = CombatSecond::zero();
    combat.boon.might = CombatEvent::new(whole(1), whole(10));
    combat.boon.fury = CombatEvent::new(whole(1), frac(1, 2));
    let (s, m, _) = NoEffect.chain(Might).chain(Fury).apply(
        base_stats(),
        Modifiers::default(),
        combat,
    );
    assert_eq!(s.power, whole(1300));
    assert_eq!(s.condition_damage, whole(300));
    assert_eq!(m.crit_chance, frac(25, 2));
}

#[test]
fn old_might_and_fury_are_capped() {
    let zero = CombatSecond::zero();
    let (s, _, _) = OldMight(whole(10)).apply(base_stats(), Modifiers::default(), zero);
    assert_eq!(s.power, whole(1300));
    let (s, _, _) = OldMight(whole(40)).apply(base_stats(), Modifiers::default(), zero);
    assert_eq!(s.power, whole(1750));
    assert_eq!(s.condition_damage, whole(750));
    let mut mods = Modifiers::default();
    mods.boon_points.fury = frac(1, 4);
    let (_, m, _) = OldFury(frac(1, 4)).apply(base_stats(), mods, zero);
    assert_eq!(m.crit_chance, frac(25, 2));
    let (_, m, _) = OldFury(whole(3)).apply(base_stats(), mods, zero);
    assert_eq!(m.crit_chance, whole(25));
}

#[test]
fn procs_feed_back_through_the_rounds() {
    assert_eq!(ROUNDS, 5);
    // Fury on crit: each crit per second gives half a point of fury; fury raises the crit
    // chance, which raises the crits.
    let effect = NoEffect
        .chain_combat_procs(|events: CombatSecond, mut c: CombatSecond| {
            c.boon.fury = c.boon.fury.add(CombatEvent::single(Fixed::from_ratio(1, 2)).scale(events.crit));
            c
        })
        .chain(Fury);
    let mut combat = CombatSecond::zero();
    combat.strike = CombatEvent::new(whole(1), whole(1));
    let mut stats = base_stats();
    stats.precision = whole(2995);
    let (_, m, c) = effect.apply(stats, Modifiers::default(), combat);
    // Crit chance is 100 % from precision alone: one crit per second, half a point of fury.
    assert_eq!(c.crit, whole(1));
    assert_eq!(c.boon.fury.magnitude, frac(1, 2));
    assert_eq!(m.crit_chance, frac(25, 2));
}

#[test]
fn proc_frequency_cases() {
    // Nothing triggers: no procs.
    assert_eq!(proc_frequency(whole(5), whole(0)), whole(0));
    assert_eq!(proc_frequency(whole(5), whole(-1)), whole(0));
    // The trigger is rarer than the cooldown: every trigger procs.
    assert_eq!(proc_frequency(whole(5), frac(1, 10)), frac(1, 10));
    // The trigger is more frequent: one proc per cooldown plus half a trigger interval.
    assert_eq!(proc_frequency(whole(5), whole(2)), Fixed::from_raw(190_476));
    // The interval equals the cooldown: the cooldown counts.
    assert_eq!(proc_frequency(whole(5), frac(1, 5)), Fixed::from_raw(133_333));
    // A short cooldown: the event is still rarer than the cooldown allows, so every event
    // procs.
    assert_eq!(proc_frequency(Fixed::from_raw(1), whole(600_000)), whole(600_000));
    // Never more often than the event happens.
    assert!(proc_frequency(Fixed::from_raw(2), whole(600_000)).le(whole(600_000)));
    assert_eq!(proc_frequency(whole(1), whole(1)), frac(2, 3));
}

#[test]
fn absent_effect_changes_nothing() {
    let mut s = base_stats();
    let mut m = Modifiers::default();
    None::<Krait>.add_permanent(&mut s, &mut m);
    assert_eq!(s, base_stats());
    Some(Krait).add_permanent(&mut s, &mut m);
    assert_eq!(s.condition_damage, whole(175));
}

#[test]
fn effect_choices_vary() {
    let mut rune = Rune::Elementalist(Elementalist);
    assert_eq!(rune.num_fields(), 1);
    assert_eq!(rune.num_field_values(0), 2);
    assert_eq!(rune.get_field(0), 0);
    rune.set_field(0, 1);
    assert_eq!(rune, Rune::Krait(Krait));
    assert_eq!(Rune::COUNT, 2);
    assert_eq!(Rune::from_index(0), Rune::Elementalist(Elementalist));
    assert_eq!(Rune::Krait(Krait).index(), 1);
    let mut fixed = Agony;
    assert_eq!(fixed.num_fields(), 1);
    assert_eq!(fixed.num_field_values(0), 1);
    assert_eq!(fixed.get_field(0), 0);
    fixed.set_field(0, 0);
    assert_eq!(fixed, Agony);
}
