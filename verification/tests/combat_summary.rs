use gear_opt::character::{CombatEvent, CombatSecond};
use gear_opt::fixed::Fixed;
use gear_opt::stats::{Boon, Condition, Modifiers, PerBoon, PerCondition, Stats};

fn whole(n: i64) -> Fixed {
    Fixed::from_int(n)
}

fn frac(n: i64, d: i64) -> Fixed {
    Fixed::from_ratio(n, d)
}

#[test]
fn combat_event_constructors() {
    assert_eq!(CombatEvent::new(whole(2), whole(6)), CombatEvent { count: whole(2), magnitude: whole(6) });
    assert_eq!(CombatEvent::single(whole(3)), CombatEvent { count: whole(1), magnitude: whole(3) });
    assert_eq!(CombatEvent::zero(), CombatEvent { count: whole(0), magnitude: whole(0) });
    assert_eq!(CombatEvent::default(), CombatEvent::zero());
}

#[test]
fn combat_event_arithmetic() {
    let a = CombatEvent::new(whole(2), whole(6));
    let b = CombatEvent::new(whole(1), whole(4));
    assert_eq!(a.add(b), CombatEvent::new(whole(3), whole(10)));
    assert_eq!(a.sub(b), CombatEvent::new(whole(1), whole(2)));
    assert_eq!(a.scale(frac(1, 2)), CombatEvent::new(whole(1), whole(3)));
    assert_eq!(a.div(whole(4)), CombatEvent::new(frac(1, 2), frac(3, 2)));
    assert_eq!(a.add(b).sub(b), a);
}

#[test]
fn combat_second_composes_and_removes() {
    let mut a = CombatSecond::zero();
    a.strike = CombatEvent::new(whole(2), whole(3));
    a.condition.burn = CombatEvent::new(whole(1), whole(5));
    a.boon.might = CombatEvent::new(whole(1), whole(8));
    a.cast = whole(2);
    a.crit = whole(1);
    let mut b = CombatSecond::default();
    b.strike = CombatEvent::single(whole(1));
    b.condition.burn = CombatEvent::single(whole(2));
    b.weapon_swap = frac(1, 4);
    let sum = a.add(b);
    assert_eq!(sum.strike, CombatEvent::new(whole(3), whole(4)));
    assert_eq!(sum.condition.burn, CombatEvent::new(whole(2), whole(7)));
    assert_eq!(sum.boon.might, CombatEvent::new(whole(1), whole(8)));
    assert_eq!(sum.cast, whole(2));
    assert_eq!(sum.weapon_swap, frac(1, 4));
    assert_eq!(sum.sub(b), a);
    let half = a.scale(frac(1, 2));
    assert_eq!(half.strike, CombatEvent::new(whole(1), frac(3, 2)));
    assert_eq!(half.cast, whole(1));
    assert_eq!(half.crit, frac(1, 2));
}

#[test]
fn update_crit_uses_strike_count() {
    let mut c = CombatSecond::zero();
    c.strike = CombatEvent::new(whole(4), whole(9));
    c.update_crit(whole(75));
    assert_eq!(c.crit, whole(3));
    c.update_crit(whole(0));
    assert_eq!(c.crit, whole(0));
}

#[test]
fn dps_of_strikes_and_conditions() {
    let mut s = Stats::splat(Fixed::zero());
    s.power = whole(1000);
    s.precision = whole(895);
    s.condition_damage = whole(1000);
    let mut m = Modifiers::default();
    let mut c = CombatSecond::zero();
    c.strike = CombatEvent::new(whole(1), whole(10));
    c.condition.bleed = CombatEvent::new(whole(1), whole(5));
    // Strikes: 10 points at a factor of 100; bleeding: 5 points at a factor of 82.
    assert_eq!(c.calc_dps(&s, &m), whole(1410));
    // Gear adds two points of burning per second, at a factor of 286.
    m.condition_points.burn = whole(2);
    assert_eq!(c.calc_dps(&s, &m), whole(1982));
}

#[test]
fn boon_uptime_is_capped_at_the_stacks() {
    let mut s = Stats::splat(Fixed::zero());
    let m = Modifiers::default();
    let mut c = CombatSecond::zero();
    c.boon.might = CombatEvent::new(whole(1), whole(10));
    c.boon.fury = CombatEvent::new(whole(1), frac(1, 2));
    assert_eq!(c.calc_boon_uptime_raw(&s, &m, Boon::Might), whole(10));
    assert_eq!(c.calc_boon_uptime(&s, &m, Boon::Might), whole(10));
    assert_eq!(c.calc_boon_uptime(&s, &m, Boon::Fury), frac(1, 2));
    s.concentration = whole(1500);
    c.boon.might = CombatEvent::new(whole(1), whole(20));
    c.boon.fury = CombatEvent::new(whole(1), whole(3));
    assert_eq!(c.calc_boon_uptime_raw(&s, &m, Boon::Might), whole(40));
    assert_eq!(c.calc_boon_uptime(&s, &m, Boon::Might), whole(25));
    assert_eq!(c.calc_boon_uptime_raw(&s, &m, Boon::Fury), whole(6));
    assert_eq!(c.calc_boon_uptime(&s, &m, Boon::Fury), whole(1));
}

#[test]
fn condition_uptime() {
    let mut s = Stats::splat(Fixed::zero());
    s.expertise = whole(750);
    let mut m = Modifiers::default();
    m.condition_points.torment = whole(1);
    let mut c = CombatSecond::zero();
    c.condition.torment = CombatEvent::new(whole(1), whole(3));
    assert_eq!(c.calc_condition_uptime_raw(&s, &m, Condition::Torment), whole(6));
}

#[test]
fn heal_per_second() {
    let mut s = Stats::splat(Fixed::zero());
    s.healing_power = whole(1000);
    let m = Modifiers::default();
    let mut c = CombatSecond::zero();
    c.heal = CombatEvent::new(whole(1), frac(1, 2));
    c.heal_flat = CombatEvent::new(whole(1), whole(300));
    c.boon.regeneration = CombatEvent::new(whole(1), frac(1, 2));
    // 1000 * 0.5 + 300 + 0.5 stacks of regeneration at 130 + 0.125 * 1000 = 255
    assert_eq!(c.calc_heal_per_second(&s, &m), Fixed::from_raw(927_500_000));
}

#[test]
fn per_kind_event_tables() {
    let m = PerCondition::splat(CombatEvent::new(whole(1), whole(2)));
    assert_eq!(m.magnitudes(), PerCondition::splat(whole(2)));
    assert_eq!(m.add(m).bleed, CombatEvent::new(whole(2), whole(4)));
    assert_eq!(m.sub(m).burn, CombatEvent::zero());
    assert_eq!(m.scale(whole(3)).torment, CombatEvent::new(whole(3), whole(6)));
    let b = PerBoon::from_magnitudes(PerBoon::splat(whole(10)), whole(5));
    assert_eq!(b.might, CombatEvent::new(whole(2), whole(10)));
    assert_eq!(b.magnitudes(), PerBoon::splat(whole(10)));
}
