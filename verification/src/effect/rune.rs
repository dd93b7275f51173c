//! Runes: permanent additions.

use crate::character::CombatSecond;
use crate::effect::{is_steady, Effect};
use crate::fixed::Fixed;
use crate::stats::{Condition, Modifiers, PerStat, Stats};
use crate::vary::Vary;
use vstd::prelude::*;

verus! {

/// Superior Rune of the Elementalist: 175 power, 225 condition damage, and 10 percent
/// longer conditions.
#[derive(Clone, Copy, Debug, PartialEq, Eq, Structural, Hash, Default)]
pub struct Elementalist;

impl Effect for Elementalist {
    open spec fn permanent(&self, stats: Stats, mods: Modifiers) -> (Stats, Modifiers) {
        (
            PerStat {
                power: stats.power.add(Fixed::from_int(175)),
                condition_damage: stats.condition_damage.add(Fixed::from_int(225)),
                ..stats
            },
            Modifiers {
                condition_duration: mods.condition_duration.add_scalar(Fixed::from_int(10)),
                ..mods
            },
        )
    }

    fn add_permanent(&self, stats: &mut Stats, mods: &mut Modifiers) {
        stats.power = stats.power.add(Fixed::from_int(175));
        stats.condition_damage = stats.condition_damage.add(Fixed::from_int(225));
        mods.condition_duration = mods.condition_duration.add_scalar(Fixed::from_int(10));
    }

    fn distribute(&self, stats: &mut Stats, mods: &mut Modifiers) {
    }

    fn add_temporary(&self, stats: &mut Stats, mods: &mut Modifiers, combat: &CombatSecond) {
    }

    fn combat_procs(&self, events: &CombatSecond, combat: &mut CombatSecond) {
    }
}

/// A fixed choice: one field, which holds the one value there is.
impl Vary for Elementalist {
    open spec fn arity(&self) -> Seq<u16> {
        seq![1u16]
    }

    open spec fn fields(&self) -> Seq<u16> {
        seq![0u16]
    }

    fn num_fields(&self) -> (n: usize) {
        1
    }

    fn num_field_values(&self, field: usize) -> (n: u16) {
        1
    }

    fn get_field(&self, field: usize) -> (value: u16) {
        0
    }

    fn set_field(&mut self, field: usize, value: u16) {
        assert(seq![0u16] =~= seq![0u16].update(field as int, value));
    }
}

/// Superior Rune of the Krait: 175 condition damage, and 50 percent longer bleeding.
#[derive(Clone, Copy, Debug, PartialEq, Eq, Structural, Hash, Default)]
pub struct Krait;

impl Effect for Krait {
    open spec fn permanent(&self, stats: Stats, mods: Modifiers) -> (Stats, Modifiers) {
        (
            PerStat { condition_damage: stats.condition_damage.add(Fixed::from_int(175)), ..stats },
            Modifiers {
                condition_duration: mods.condition_duration.with(
                    Condition::Bleed,
                    mods.condition_duration.bleed.add(Fixed::from_int(50)),
                ),
                ..mods
            },
        )
    }

    fn add_permanent(&self, stats: &mut Stats, mods: &mut Modifiers) {
        stats.condition_damage = stats.condition_damage.add(Fixed::from_int(175));
        mods.condition_duration.bleed = mods.condition_duration.bleed.add(Fixed::from_int(50));
    }

    fn distribute(&self, stats: &mut Stats, mods: &mut Modifiers) {
    }

    fn add_temporary(&self, stats: &mut Stats, mods: &mut Modifiers, combat: &CombatSecond) {
    }

    fn combat_procs(&self, events: &CombatSecond, combat: &mut CombatSecond) {
    }
}

/// A fixed choice: one field, which holds the one value there is.
impl Vary for Krait {
    open spec fn arity(&self) -> Seq<u16> {
        seq![1u16]
    }

    open spec fn fields(&self) -> Seq<u16> {
        seq![0u16]
    }

    fn num_fields(&self) -> (n: usize) {
        1
    }

    fn num_field_values(&self, field: usize) -> (n: u16) {
        1
    }

    fn get_field(&self, field: usize) -> (value: u16) {
        0
    }

    fn set_field(&mut self, field: usize, value: u16) {
        assert(seq![0u16] =~= seq![0u16].update(field as int, value));
    }
}

/// The runes that a build can choose from.
#[derive(Clone, Copy, Debug, PartialEq, Eq, Structural, Hash)]
pub enum Rune {
    Elementalist(Elementalist),
    Krait(Krait),
}

impl Rune {
    /// Number of variants.
    pub const COUNT: u16 = 2;

    /// Position of the variant in declaration order.
    pub open spec fn spec_index(self) -> u16 {
        match self {
            Rune::Elementalist(_) => 0,
            Rune::Krait(_) => 1,
        }
    }

    /// Position of the variant in declaration order.
    #[verifier::when_used_as_spec(spec_index)]
    pub fn index(self) -> (i: u16)
        ensures
            i == self.spec_index(),
            i < Rune::COUNT,
    {
        match self {
            Rune::Elementalist(_) => 0,
            Rune::Krait(_) => 1,
        }
    }

    /// The variant at position `i`; the last one where `i` is past the end.
    pub open spec fn spec_from_index(i: u16) -> Rune {
        if i == 0 {
            Rune::Elementalist(Elementalist)
        } else {
            Rune::Krait(Krait)
        }
    }

    /// The variant at position `i`.
    #[verifier::when_used_as_spec(spec_from_index)]
    pub fn from_index(i: u16) -> (r: Rune)
        requires
            i < Rune::COUNT,
        ensures
            r == Rune::spec_from_index(i),
            r.spec_index() == i,
    {
        if i == 0 {
            Rune::Elementalist(Elementalist)
        } else {
            Rune::Krait(Krait)
        }
    }
}

impl Effect for Rune {
    open spec fn permanent(&self, stats: Stats, mods: Modifiers) -> (Stats, Modifiers) {
        match self {
            Rune::Elementalist(x) => x.permanent(stats, mods),
            Rune::Krait(x) => x.permanent(stats, mods),
        }
    }

    open spec fn distributed(&self, stats: Stats, mods: Modifiers) -> (Stats, Modifiers) {
        match self {
            Rune::Elementalist(x) => x.distributed(stats, mods),
            Rune::Krait(x) => x.distributed(stats, mods),
        }
    }

    open spec fn temporary(&self, stats: Stats, mods: Modifiers, combat: CombatSecond) -> (
        Stats,
        Modifiers,
    ) {
        match self {
            Rune::Elementalist(x) => x.temporary(stats, mods, combat),
            Rune::Krait(x) => x.temporary(stats, mods, combat),
        }
    }

    open spec fn procs(&self, events: CombatSecond, combat: CombatSecond) -> CombatSecond {
        match self {
            Rune::Elementalist(x) => x.procs(events, combat),
            Rune::Krait(x) => x.procs(events, combat),
        }
    }

    fn add_permanent(&self, stats: &mut Stats, mods: &mut Modifiers) {
        match self {
            Rune::Elementalist(x) => x.add_permanent(stats, mods),
            Rune::Krait(x) => x.add_permanent(stats, mods),
        }
    }

    fn distribute(&self, stats: &mut Stats, mods: &mut Modifiers) {
        match self {
            Rune::Elementalist(x) => x.distribute(stats, mods),
            Rune::Krait(x) => x.distribute(stats, mods),
        }
    }

    fn add_temporary(&self, stats: &mut Stats, mods: &mut Modifiers, combat: &CombatSecond) {
        match self {
            Rune::Elementalist(x) => x.add_temporary(stats, mods, combat),
            Rune::Krait(x) => x.add_temporary(stats, mods, combat),
        }
    }

    fn combat_procs(&self, events: &CombatSecond, combat: &mut CombatSecond) {
        match self {
            Rune::Elementalist(x) => x.combat_procs(events, combat),
            Rune::Krait(x) => x.combat_procs(events, combat),
        }
    }
}

/// One field, which holds the position of the variant.
impl Vary for Rune {
    open spec fn arity(&self) -> Seq<u16> {
        seq![Rune::COUNT]
    }

    open spec fn fields(&self) -> Seq<u16> {
        seq![self.spec_index()]
    }

    open spec fn with_field(&self, field: int, value: u16) -> Self {
        Rune::spec_from_index(value)
    }

    fn num_fields(&self) -> (n: usize) {
        1
    }

    fn num_field_values(&self, field: usize) -> (n: u16) {
        Rune::COUNT
    }

    fn get_field(&self, field: usize) -> (value: u16) {
        self.index()
    }

    fn set_field(&mut self, field: usize, value: u16) {
        *self = Rune::from_index(value);
        assert(seq![self.spec_index()] =~= seq![old(self).spec_index()].update(field as int, value));
    }
}

impl From<Elementalist> for Rune {
    fn from(x: Elementalist) -> (r: Rune) {
        Rune::Elementalist(x)
    }
}

impl vstd::std_specs::convert::FromSpecImpl<Elementalist> for Rune {
    open spec fn obeys_from_spec() -> bool {
        true
    }

    open spec fn from_spec(x: Elementalist) -> Rune {
        Rune::Elementalist(x)
    }
}

impl From<Krait> for Rune {
    fn from(x: Krait) -> (r: Rune) {
        Rune::Krait(x)
    }
}

impl vstd::std_specs::convert::FromSpecImpl<Krait> for Rune {
    open spec fn obeys_from_spec() -> bool {
        true
    }

    open spec fn from_spec(x: Krait) -> Rune {
        Rune::Krait(x)
    }
}

/// Every rune is steady: it only ever adds.
pub proof fn lemma_rune_steady(e: Rune)
    ensures
        is_steady(&e),
{
}

} // verus!
