//! Composable effects: runes, sigils, traits, consumables and boons.
//!
//! An effect contributes to three ordered stages and may add combat events:
//! * permanent additions, such as flat bonus attributes from runes and traits;
//! * distributions of the form "add a share of one attribute to another";
//! * temporary additions, such as bonus attributes from might and other boons;
//! * procs, which add combat events in answer to the events observed.

use crate::character::CombatSecond;
use crate::fixed::{lemma_div_nonneg, lemma_mul_monotone, Fixed, SCALE};
use crate::stats::{mods_nonneg, stats_le, stats_nonneg, Modifiers, Stats};
use vstd::prelude::*;

pub mod boon;
pub mod food;
pub mod rune;
pub mod sigil;

verus! {

/// Number of times that [`EffectExt::apply`] recalculates temporary additions and procs.
pub const ROUNDS: usize = 5;

/// A unit of behaviour that influences attributes, modifiers and combat events.
///
/// An effect is a pure function at each stage: the specification functions give what the
/// stage makes of its input.  As they stand, a stage changes nothing.
pub trait Effect: Sized {
    /// The stages of the effect can be run.
    open spec fn wf(&self) -> bool {
        true
    }

    /// Attributes and modifiers after the permanent additions.
    open spec fn permanent(&self, stats: Stats, mods: Modifiers) -> (Stats, Modifiers) {
        (stats, mods)
    }

    /// Attributes and modifiers after the distributions.
    open spec fn distributed(&self, stats: Stats, mods: Modifiers) -> (Stats, Modifiers) {
        (stats, mods)
    }

    /// Attributes and modifiers after the temporary additions, given the combat summary.
    open spec fn temporary(&self, stats: Stats, mods: Modifiers, combat: CombatSecond) -> (
        Stats,
        Modifiers,
    ) {
        (stats, mods)
    }

    /// `combat` with the events added that the effect triggers on the observed `events`.
    open spec fn procs(&self, events: CombatSecond, combat: CombatSecond) -> CombatSecond {
        combat
    }

    /// Applies permanent additive effects.
    fn add_permanent(&self, stats: &mut Stats, mods: &mut Modifiers)
        requires
            self.wf(),
        ensures
            (*final(stats), *final(mods)) == self.permanent(*old(stats), *old(mods)),
    ;

    /// Applies effects that move a share of one attribute to another.
    fn distribute(&self, stats: &mut Stats, mods: &mut Modifiers)
        requires
            self.wf(),
        ensures
            (*final(stats), *final(mods)) == self.distributed(*old(stats), *old(mods)),
    ;

    /// Applies temporary effects, such as might and fury.
    fn add_temporary(&self, stats: &mut Stats, mods: &mut Modifiers, combat: &CombatSecond)
        requires
            self.wf(),
        ensures
            (*final(stats), *final(mods)) == self.temporary(*old(stats), *old(mods), *combat),
    ;

    /// Handles procs: adds to `combat` the events that the effect triggers on `events`.
    fn combat_procs(&self, events: &CombatSecond, combat: &mut CombatSecond)
        requires
            self.wf(),
        ensures
            *final(combat) == self.procs(*events, *old(combat)),
    ;
}

/// One round of the convergence loop of `e`, entered with the combat summary `combat`.
///
/// The temporary additions are recalculated from `combat`; the critical hits of `combat` are
/// set from the attributes so found; then the procs are recalculated from that summary, on top
/// of the base summary.
pub open spec fn apply_round<E: Effect>(
    e: &E,
    base: (Stats, Modifiers, CombatSecond),
    combat: CombatSecond,
) -> (Stats, Modifiers, CombatSecond) {
    let (stats, mods) = e.temporary(base.0, base.1, combat);
    let seen = combat.with_crit(stats.crit_chance(&mods));
    (stats, mods, e.procs(seen, base.2))
}

/// The state of the convergence loop of `e` after `n` rounds.
pub open spec fn apply_rounds<E: Effect>(
    e: &E,
    base: (Stats, Modifiers, CombatSecond),
    n: nat,
) -> (Stats, Modifiers, CombatSecond)
    decreases n,
{
    if n == 0 {
        base
    } else {
        apply_round(e, base, apply_rounds(e, base, (n - 1) as nat).2)
    }
}

/// What `e` makes of the given attributes, modifiers and combat summary: the permanent
/// additions, the distributions, [`ROUNDS`] rounds of the convergence loop, and the critical
/// hits of the last summary set from the last attributes.
pub open spec fn apply_spec<E: Effect>(
    e: &E,
    base_stats: Stats,
    base_mods: Modifiers,
    base_combat: CombatSecond,
) -> (Stats, Modifiers, CombatSecond) {
    let (s1, m1) = e.permanent(base_stats, base_mods);
    let (s2, m2) = e.distributed(s1, m1);
    let r = apply_rounds(e, (s2, m2, base_combat), ROUNDS as nat);
    (r.0, r.1, r.2.with_crit(r.0.crit_chance(&r.1)))
}

/// What every effect can do: run its stages in order, and be chained with another effect.
pub trait EffectExt: Effect {
    /// Applies the effect.
    ///
    /// Final attributes (temporary additions included) and combat behaviour are calculated
    /// in tandem, because they can affect each other: a trait that grants fury on a critical
    /// hit raises the chance of a critical hit.  The loop runs [`ROUNDS`] times and stops; no
    /// check is made that the values have settled.
    fn apply(&self, base_stats: Stats, base_mods: Modifiers, base_combat: CombatSecond) -> (r: (
        Stats,
        Modifiers,
        CombatSecond,
    ))
        requires
            self.wf(),
        ensures
            r == apply_spec(self, base_stats, base_mods, base_combat),
    ;

    /// This effect, then `other`.
    fn chain<E: Effect>(self, other: E) -> (r: Chain<Self, E>)
        ensures
            r == Chain(self, other),
    ;

    /// This effect, then the permanent addition `f`.
    fn chain_add_permanent<F: Fn(Stats, Modifiers) -> (Stats, Modifiers)>(self, f: F) -> (r: Chain<
        Self,
        AddPermanent<F>,
    >)
        ensures
            r == Chain(self, AddPermanent(f)),
    ;

    /// This effect, then the distribution `f`.
    fn chain_distribute<F: Fn(Stats, Modifiers) -> (Stats, Modifiers)>(self, f: F) -> (r: Chain<
        Self,
        Distribute<F>,
    >)
        ensures
            r == Chain(self, Distribute(f)),
    ;

    /// This effect, then the temporary addition `f`.
    fn chain_add_temporary<F: Fn(Stats, Modifiers, CombatSecond) -> (Stats, Modifiers)>(
        self,
        f: F,
    ) -> (r: Chain<Self, AddTemporary<F>>)
        ensures
            r == Chain(self, AddTemporary(f)),
    ;

    /// This effect, then the procs `f`.
    fn chain_combat_procs<F: Fn(CombatSecond, CombatSecond) -> CombatSecond>(self, f: F) -> (r:
        Chain<Self, CombatProcs<F>>)
        ensures
            r == Chain(self, CombatProcs(f)),
    ;
}

impl<T: Effect> EffectExt for T {
    fn apply(&self, base_stats: Stats, base_mods: Modifiers, base_combat: CombatSecond) -> (r: (
        Stats,
        Modifiers,
        CombatSecond,
    )) {
        let mut base_stats = base_stats;
        let mut base_mods = base_mods;
        self.add_permanent(&mut base_stats, &mut base_mods);
        self.distribute(&mut base_stats, &mut base_mods);

        let mut stats = base_stats;
        let mut mods = base_mods;
        let mut combat = base_combat;
        let ghost base = (base_stats, base_mods, base_combat);

        let mut i: usize = 0;
        while i < ROUNDS
            invariant
                self.wf(),
                i <= ROUNDS,
                base == (base_stats, base_mods, base_combat),
                (stats, mods, combat) == apply_rounds(self, base, i as nat),
            decreases ROUNDS - i,
        {
            stats = base_stats;
            mods = base_mods;
            self.add_temporary(&mut stats, &mut mods, &combat);
            combat.update_crit(stats.crit_chance(&mods));

            let old_combat = combat;
            combat = base_combat;
            self.combat_procs(&old_combat, &mut combat);
            i += 1;
        }

        combat.update_crit(stats.crit_chance(&mods));
        (stats, mods, combat)
    }

    fn chain<E: Effect>(self, other: E) -> (r: Chain<Self, E>) {
        Chain(self, other)
    }

    fn chain_add_permanent<F: Fn(Stats, Modifiers) -> (Stats, Modifiers)>(self, f: F) -> (r: Chain<
        Self,
        AddPermanent<F>,
    >) {
        Chain(self, AddPermanent(f))
    }

    fn chain_distribute<F: Fn(Stats, Modifiers) -> (Stats, Modifiers)>(self, f: F) -> (r: Chain<
        Self,
        Distribute<F>,
    >) {
        Chain(self, Distribute(f))
    }

    fn chain_add_temporary<F: Fn(Stats, Modifiers, CombatSecond) -> (Stats, Modifiers)>(
        self,
        f: F,
    ) -> (r: Chain<Self, AddTemporary<F>>) {
        Chain(self, AddTemporary(f))
    }

    fn chain_combat_procs<F: Fn(CombatSecond, CombatSecond) -> CombatSecond>(self, f: F) -> (r:
        Chain<Self, CombatProcs<F>>) {
        Chain(self, CombatProcs(f))
    }
}

/// A placeholder effect that changes nothing.
#[derive(Clone, Copy, Debug, PartialEq, Eq, Structural)]
pub struct NoEffect;

impl Effect for NoEffect {
    fn add_permanent(&self, stats: &mut Stats, mods: &mut Modifiers) {
    }

    fn distribute(&self, stats: &mut Stats, mods: &mut Modifiers) {
    }

    fn add_temporary(&self, stats: &mut Stats, mods: &mut Modifiers, combat: &CombatSecond) {
    }

    fn combat_procs(&self, events: &CombatSecond, combat: &mut CombatSecond) {
    }
}

/// Two effects in order: at each stage the second reads what the first has made.
pub struct Chain<T, U>(pub T, pub U);

impl<T: Effect, U: Effect> Effect for Chain<T, U> {
    open spec fn wf(&self) -> bool {
        self.0.wf() && self.1.wf()
    }

    open spec fn permanent(&self, stats: Stats, mods: Modifiers) -> (Stats, Modifiers) {
        let r = self.0.permanent(stats, mods);
        self.1.permanent(r.0, r.1)
    }

    open spec fn distributed(&self, stats: Stats, mods: Modifiers) -> (Stats, Modifiers) {
        let r = self.0.distributed(stats, mods);
        self.1.distributed(r.0, r.1)
    }

    open spec fn temporary(&self, stats: Stats, mods: Modifiers, combat: CombatSecond) -> (
        Stats,
        Modifiers,
    ) {
        let r = self.0.temporary(stats, mods, combat);
        self.1.temporary(r.0, r.1, combat)
    }

    open spec fn procs(&self, events: CombatSecond, combat: CombatSecond) -> CombatSecond {
        self.1.procs(events, self.0.procs(events, combat))
    }

    fn add_permanent(&self, stats: &mut Stats, mods: &mut Modifiers) {
        self.0.add_permanent(stats, mods);
        self.1.add_permanent(stats, mods);
    }

    fn distribute(&self, stats: &mut Stats, mods: &mut Modifiers) {
        self.0.distribute(stats, mods);
        self.1.distribute(stats, mods);
    }

    fn add_temporary(&self, stats: &mut Stats, mods: &mut Modifiers, combat: &CombatSecond) {
        self.0.add_temporary(stats, mods, combat);
        self.1.add_temporary(stats, mods, combat);
    }

    fn combat_procs(&self, events: &CombatSecond, combat: &mut CombatSecond) {
        self.0.combat_procs(events, combat);
        self.1.combat_procs(events, combat);
    }
}

/// A permanent addition given by a function from attributes and modifiers to new ones.
///
/// Like the other three effects that hold a function, it is well formed where the function can
/// be called on every input and has one result for each.
pub struct AddPermanent<F>(pub F);

impl<F: Fn(Stats, Modifiers) -> (Stats, Modifiers)> Effect for AddPermanent<F> {
    open spec fn wf(&self) -> bool {
        &&& forall|s: Stats, m: Modifiers| #[trigger] self.0.requires((s, m))
        &&& forall|s: Stats, m: Modifiers, a: (Stats, Modifiers), b: (Stats, Modifiers)|
            self.0.ensures((s, m), a) && self.0.ensures((s, m), b) ==> a == b
    }

    open spec fn permanent(&self, stats: Stats, mods: Modifiers) -> (Stats, Modifiers) {
        choose|r: (Stats, Modifiers)| self.0.ensures((stats, mods), r)
    }

    fn add_permanent(&self, stats: &mut Stats, mods: &mut Modifiers) {
        let r = (self.0)(*stats, *mods);
        *stats = r.0;
        *mods = r.1;
    }

    fn distribute(&self, stats: &mut Stats, mods: &mut Modifiers) {
    }

    fn add_temporary(&self, stats: &mut Stats, mods: &mut Modifiers, combat: &CombatSecond) {
    }

    fn combat_procs(&self, events: &CombatSecond, combat: &mut CombatSecond) {
    }
}

/// A distribution given by a function from attributes and modifiers to new ones.
pub struct Distribute<F>(pub F);

impl<F: Fn(Stats, Modifiers) -> (Stats, Modifiers)> Effect for Distribute<F> {
    open spec fn wf(&self) -> bool {
        &&& forall|s: Stats, m: Modifiers| #[trigger] self.0.requires((s, m))
        &&& forall|s: Stats, m: Modifiers, a: (Stats, Modifiers), b: (Stats, Modifiers)|
            self.0.ensures((s, m), a) && self.0.ensures((s, m), b) ==> a == b
    }

    open spec fn distributed(&self, stats: Stats, mods: Modifiers) -> (Stats, Modifiers) {
        choose|r: (Stats, Modifiers)| self.0.ensures((stats, mods), r)
    }

    fn add_permanent(&self, stats: &mut Stats, mods: &mut Modifiers) {
    }

    fn distribute(&self, stats: &mut Stats, mods: &mut Modifiers) {
        let r = (self.0)(*stats, *mods);
        *stats = r.0;
        *mods = r.1;
    }

    fn add_temporary(&self, stats: &mut Stats, mods: &mut Modifiers, combat: &CombatSecond) {
    }

    fn combat_procs(&self, events: &CombatSecond, combat: &mut CombatSecond) {
    }
}

/// A temporary addition given by a function from attributes, modifiers and the combat summary
/// to new attributes and modifiers.
pub struct AddTemporary<F>(pub F);

impl<F: Fn(Stats, Modifiers, CombatSecond) -> (Stats, Modifiers)> Effect for AddTemporary<F> {
    open spec fn wf(&self) -> bool {
        &&& forall|s: Stats, m: Modifiers, c: CombatSecond| #[trigger] self.0.requires((s, m, c))
        &&& forall|s: Stats, m: Modifiers, c: CombatSecond, a: (Stats, Modifiers), b: (Stats, Modifiers)|
            self.0.ensures((s, m, c), a) && self.0.ensures((s, m, c), b) ==> a == b
    }

    open spec fn temporary(&self, stats: Stats, mods: Modifiers, combat: CombatSecond) -> (
        Stats,
        Modifiers,
    ) {
        choose|r: (Stats, Modifiers)| self.0.ensures((stats, mods, combat), r)
    }

    fn add_permanent(&self, stats: &mut Stats, mods: &mut Modifiers) {
    }

    fn distribute(&self, stats: &mut Stats, mods: &mut Modifiers) {
    }

    fn add_temporary(&self, stats: &mut Stats, mods: &mut Modifiers, combat: &CombatSecond) {
        let r = (self.0)(*stats, *mods, *combat);
        *stats = r.0;
        *mods = r.1;
    }

    fn combat_procs(&self, events: &CombatSecond, combat: &mut CombatSecond) {
    }
}

/// Procs given by a function from the observed events and the summary to the new summary.
pub struct CombatProcs<F>(pub F);

impl<F: Fn(CombatSecond, CombatSecond) -> CombatSecond> Effect for CombatProcs<F> {
    open spec fn wf(&self) -> bool {
        &&& forall|ev: CombatSecond, c: CombatSecond| #[trigger] self.0.requires((ev, c))
        &&& forall|ev: CombatSecond, c: CombatSecond, a: CombatSecond, b: CombatSecond|
            self.0.ensures((ev, c), a) && self.0.ensures((ev, c), b) ==> a == b
    }

    open spec fn procs(&self, events: CombatSecond, combat: CombatSecond) -> CombatSecond {
        choose|r: CombatSecond| self.0.ensures((events, combat), r)
    }

    fn add_permanent(&self, stats: &mut Stats, mods: &mut Modifiers) {
    }

    fn distribute(&self, stats: &mut Stats, mods: &mut Modifiers) {
    }

    fn add_temporary(&self, stats: &mut Stats, mods: &mut Modifiers, combat: &CombatSecond) {
    }

    fn combat_procs(&self, events: &CombatSecond, combat: &mut CombatSecond) {
        let r = (self.0)(*events, *combat);
        *combat = r;
    }
}

/// An effect that may be absent.  An absent effect changes nothing.
impl<E: Effect> Effect for Option<E> {
    open spec fn wf(&self) -> bool {
        match self {
            Some(e) => e.wf(),
            None => true,
        }
    }

    open spec fn permanent(&self, stats: Stats, mods: Modifiers) -> (Stats, Modifiers) {
        match self {
            Some(e) => e.permanent(stats, mods),
            None => (stats, mods),
        }
    }

    open spec fn distributed(&self, stats: Stats, mods: Modifiers) -> (Stats, Modifiers) {
        match self {
            Some(e) => e.distributed(stats, mods),
            None => (stats, mods),
        }
    }

    open spec fn temporary(&self, stats: Stats, mods: Modifiers, combat: CombatSecond) -> (
        Stats,
        Modifiers,
    ) {
        match self {
            Some(e) => e.temporary(stats, mods, combat),
            None => (stats, mods),
        }
    }

    open spec fn procs(&self, events: CombatSecond, combat: CombatSecond) -> CombatSecond {
        match self {
            Some(e) => e.procs(events, combat),
            None => combat,
        }
    }

    fn add_permanent(&self, stats: &mut Stats, mods: &mut Modifiers) {
        if let Some(x) = self {
            x.add_permanent(stats, mods);
        }
    }

    fn distribute(&self, stats: &mut Stats, mods: &mut Modifiers) {
        if let Some(x) = self {
            x.distribute(stats, mods);
        }
    }

    fn add_temporary(&self, stats: &mut Stats, mods: &mut Modifiers, combat: &CombatSecond) {
        if let Some(x) = self {
            x.add_temporary(stats, mods, combat);
        }
    }

    fn combat_procs(&self, events: &CombatSecond, combat: &mut CombatSecond) {
        if let Some(x) = self {
            x.combat_procs(events, combat);
        }
    }
}

/// How many times per second a passive effect procs.
///
/// `icd` is the internal cooldown of the passive and `trigger_frequency` is how often the
/// triggering event happens.  Where the event never happens, neither does the proc.  Where
/// the interval between two events exceeds the cooldown, which is where the product of
/// cooldown and frequency is less than one, every event procs.  Else the passive procs once
/// in a cooldown and half an interval, and never more often than the event happens.
pub open spec fn spec_proc_frequency(icd: Fixed, trigger_frequency: Fixed) -> Fixed {
    if trigger_frequency.raw <= 0 {
        Fixed::zero()
    } else if icd.raw * trigger_frequency.raw < SCALE * SCALE {
        trigger_frequency
    } else {
        let trigger_interval = Fixed::one().div(trigger_frequency);
        Fixed::one().div(icd.add(trigger_interval.mul(Fixed::from_ratio(1, 2)))).min(
            trigger_frequency,
        )
    }
}

/// How many times per second a passive effect procs: never more often than the triggering
/// event happens.
#[verifier::when_used_as_spec(spec_proc_frequency)]
pub fn proc_frequency(icd: Fixed, trigger_frequency: Fixed) -> (r: Fixed)
    ensures
        r == spec_proc_frequency(icd, trigger_frequency),
        trigger_frequency.raw > 0 ==> 0 <= r.raw <= trigger_frequency.raw,
        trigger_frequency.raw <= 0 ==> r.raw == 0,
{
    if trigger_frequency.raw <= 0 {
        return Fixed::zero();
    }
    proof {
        assert(-0x8000_0000_0000_0000 * 0x8000_0000_0000_0000 <= icd.raw * trigger_frequency.raw
            <= 0x8000_0000_0000_0000 * 0x8000_0000_0000_0000) by (nonlinear_arith)
            requires
                -0x8000_0000_0000_0000 <= icd.raw < 0x8000_0000_0000_0000,
                0 < trigger_frequency.raw < 0x8000_0000_0000_0000,
        ;
    }
    let product: i128 = (icd.raw as i128) * (trigger_frequency.raw as i128);
    if product < 1_000_000_000_000 {
        // The passive is always off cooldown when the triggering event happens.
        trigger_frequency
    } else {
        // When the passive comes off cooldown, the next triggering event is half an interval
        // away on average.
        let trigger_interval = Fixed::one().div(trigger_frequency);
        let half = trigger_interval.mul(Fixed::from_ratio(1, 2));
        proof {
            assert(icd.raw >= 1) by (nonlinear_arith)
                requires
                    icd.raw * trigger_frequency.raw >= 1_000_000_000_000,
                    trigger_frequency.raw > 0,
            ;
            lemma_div_nonneg(Fixed::one(), trigger_frequency);
            assert(Fixed::from_ratio(1, 2).raw == 500_000) by {
                assert(1 * SCALE == 1_000_000);
                assert(1_000_000int / 2int == 500_000int) by (nonlinear_arith);
            }
            lemma_mul_monotone(
                Fixed::zero(),
                Fixed::from_ratio(1, 2),
                trigger_interval,
                Fixed::from_ratio(1, 2),
            );
            lemma_div_nonneg(Fixed::one(), icd.add(half));
        }
        Fixed::one().div(icd.add(half)).min(trigger_frequency)
    }
}

/// The effect changes nothing at any stage.
pub open spec fn is_neutral<E: Effect>(e: &E) -> bool {
    &&& forall|s: Stats, m: Modifiers| #[trigger] e.permanent(s, m) == (s, m)
    &&& forall|s: Stats, m: Modifiers| #[trigger] e.distributed(s, m) == (s, m)
    &&& forall|s: Stats, m: Modifiers, c: CombatSecond| #[trigger] e.temporary(s, m, c) == (s, m)
    &&& forall|ev: CombatSecond, c: CombatSecond| #[trigger] e.procs(ev, c) == c
}

/// The placeholder effect is neutral.
pub proof fn lemma_no_effect_neutral()
    ensures
        is_neutral(&NoEffect),
{
}

/// A chain of neutral effects is neutral.
pub proof fn lemma_chain_neutral<T: Effect, U: Effect>(chain: Chain<T, U>)
    requires
        is_neutral(&chain.0),
        is_neutral(&chain.1),
    ensures
        is_neutral(&chain),
{
    assert forall|s: Stats, m: Modifiers| #[trigger] chain.permanent(s, m) == (s, m) by {
        assert(chain.0.permanent(s, m) == (s, m));
    }
    assert forall|s: Stats, m: Modifiers| #[trigger] chain.distributed(s, m) == (s, m) by {
        assert(chain.0.distributed(s, m) == (s, m));
    }
    assert forall|s: Stats, m: Modifiers, c: CombatSecond| #[trigger]
        chain.temporary(s, m, c) == (s, m) by {
        assert(chain.0.temporary(s, m, c) == (s, m));
    }
    assert forall|ev: CombatSecond, c: CombatSecond| #[trigger] chain.procs(ev, c) == c by {
        assert(chain.0.procs(ev, c) == c);
    }
}

/// An effect that is absent, or present and neutral, is neutral.
pub proof fn lemma_option_neutral<E: Effect>(e: Option<E>)
    requires
        e matches Some(inner) ==> is_neutral(&inner),
    ensures
        is_neutral(&e),
{
}

/// After any number of rounds, a neutral effect has left the base values as they were.
pub proof fn lemma_neutral_rounds<E: Effect>(
    e: &E,
    base: (Stats, Modifiers, CombatSecond),
    n: nat,
)
    requires
        is_neutral(e),
    ensures
        apply_rounds(e, base, n) == base,
    decreases n,
{
    if n > 0 {
        lemma_neutral_rounds(e, base, (n - 1) as nat);
        let combat = apply_rounds(e, base, (n - 1) as nat).2;
        assert(e.temporary(base.0, base.1, combat) == (base.0, base.1));
    }
}

/// A neutral effect leaves attributes and modifiers alone and sets the critical hits.
pub proof fn lemma_neutral_apply<E: Effect>(e: &E, stats: Stats, mods: Modifiers, combat: CombatSecond)
    requires
        is_neutral(e),
    ensures
        apply_spec(e, stats, mods, combat) == (
            stats,
            mods,
            combat.with_crit(stats.crit_chance(&mods)),
        ),
{
    assert(e.permanent(stats, mods) == (stats, mods));
    assert(e.distributed(stats, mods) == (stats, mods));
    lemma_neutral_rounds(e, (stats, mods, combat), ROUNDS as nat);
}

/// Applying a neutral effect, such as any composite of the placeholder effect, is idempotent:
/// applied to what it has produced, it changes nothing.
pub proof fn lemma_neutral_apply_idempotent<E: Effect>(
    e: &E,
    stats: Stats,
    mods: Modifiers,
    combat: CombatSecond,
)
    requires
        is_neutral(e),
    ensures
        ({
            let once = apply_spec(e, stats, mods, combat);
            apply_spec(e, once.0, once.1, once.2) == once
        }),
{
    lemma_neutral_apply(e, stats, mods, combat);
    let once = apply_spec(e, stats, mods, combat);
    lemma_neutral_apply(e, once.0, once.1, once.2);
}

/// What a stage of a steady effect gives for fewer attributes, `a`, and for more, `b`: no
/// attribute of `a` is negative or exceeds that of `b`, and the modifiers are the same and
/// hold no negative entry.
pub open spec fn grows(a: (Stats, Modifiers), b: (Stats, Modifiers)) -> bool {
    stats_nonneg(a.0) && stats_le(a.0, b.0) && a.1 == b.1 && mods_nonneg(a.1)
}

/// The effect is steady: at each stage, for attributes and modifiers that are not negative,
/// more of any attribute going in never means less of any attribute coming out, nothing
/// negative comes out, and the modifiers that come out depend neither on the attributes nor
/// on the combat summary.
pub open spec fn is_steady<E: Effect>(e: &E) -> bool {
    &&& forall|s: Stats, t: Stats, m: Modifiers|
        #![trigger e.permanent(s, m), e.permanent(t, m)]
        stats_nonneg(s) && stats_le(s, t) && mods_nonneg(m) ==> grows(
            e.permanent(s, m),
            e.permanent(t, m),
        )
    &&& forall|s: Stats, t: Stats, m: Modifiers|
        #![trigger e.distributed(s, m), e.distributed(t, m)]
        stats_nonneg(s) && stats_le(s, t) && mods_nonneg(m) ==> grows(
            e.distributed(s, m),
            e.distributed(t, m),
        )
    &&& forall|s: Stats, t: Stats, m: Modifiers, c: CombatSecond, d: CombatSecond|
        #![trigger e.temporary(s, m, c), e.temporary(t, m, d)]
        stats_nonneg(s) && stats_le(s, t) && mods_nonneg(m) ==> grows(
            e.temporary(s, m, c),
            e.temporary(t, m, d),
        )
}

/// An effect that changes nothing is steady.
pub proof fn lemma_neutral_steady<E: Effect>(e: &E)
    requires
        is_neutral(e),
    ensures
        is_steady(e),
{
}

/// A chain of steady effects is steady.
pub proof fn lemma_chain_steady<T: Effect, U: Effect>(chain: Chain<T, U>)
    requires
        is_steady(&chain.0),
        is_steady(&chain.1),
    ensures
        is_steady(&chain),
{
    assert forall|s: Stats, t: Stats, m: Modifiers|
        stats_nonneg(s) && stats_le(s, t) && mods_nonneg(m) implies grows(
        #[trigger] chain.permanent(s, m),
        #[trigger] chain.permanent(t, m),
    ) by {
        let a = chain.0.permanent(s, m);
        let b = chain.0.permanent(t, m);
        assert(grows(a, b));
        assert(grows(chain.1.permanent(a.0, a.1), chain.1.permanent(b.0, a.1)));
    }
    assert forall|s: Stats, t: Stats, m: Modifiers|
        stats_nonneg(s) && stats_le(s, t) && mods_nonneg(m) implies grows(
        #[trigger] chain.distributed(s, m),
        #[trigger] chain.distributed(t, m),
    ) by {
        let a = chain.0.distributed(s, m);
        let b = chain.0.distributed(t, m);
        assert(grows(a, b));
        assert(grows(chain.1.distributed(a.0, a.1), chain.1.distributed(b.0, a.1)));
    }
    assert forall|s: Stats, t: Stats, m: Modifiers, c: CombatSecond, d: CombatSecond|
        stats_nonneg(s) && stats_le(s, t) && mods_nonneg(m) implies grows(
        #[trigger] chain.temporary(s, m, c),
        #[trigger] chain.temporary(t, m, d),
    ) by {
        let a = chain.0.temporary(s, m, c);
        let b = chain.0.temporary(t, m, d);
        assert(grows(a, b));
        assert(grows(chain.1.temporary(a.0, a.1, c), chain.1.temporary(b.0, a.1, d)));
    }
}

/// Applied to more attributes, a steady effect gives no less of any attribute, and the same
/// modifiers, whatever the combat summaries are.
pub proof fn lemma_steady_apply<E: Effect>(
    e: &E,
    s: Stats,
    t: Stats,
    m: Modifiers,
    c: CombatSecond,
    d: CombatSecond,
)
    requires
        is_steady(e),
        stats_nonneg(s),
        stats_le(s, t),
        mods_nonneg(m),
    ensures
        ({
            let a = apply_spec(e, s, m, c);
            let b = apply_spec(e, t, m, d);
            grows((a.0, a.1), (b.0, b.1))
        }),
{
    let s1 = e.permanent(s, m);
    let t1 = e.permanent(t, m);
    assert(grows(s1, t1));
    let s2 = e.distributed(s1.0, s1.1);
    let t2 = e.distributed(t1.0, s1.1);
    assert(grows(s2, t2));
    let before_s = apply_rounds(e, (s2.0, s2.1, c), (ROUNDS - 1) as nat).2;
    let before_t = apply_rounds(e, (t2.0, t2.1, d), (ROUNDS - 1) as nat).2;
    assert(grows(e.temporary(s2.0, s2.1, before_s), e.temporary(t2.0, s2.1, before_t)));
    assert(apply_rounds(e, (s2.0, s2.1, c), ROUNDS as nat) == apply_round(
        e,
        (s2.0, s2.1, c),
        before_s,
    ));
    assert(apply_rounds(e, (t2.0, t2.1, d), ROUNDS as nat) == apply_round(
        e,
        (t2.0, t2.1, d),
        before_t,
    ));
}

} // verus!
