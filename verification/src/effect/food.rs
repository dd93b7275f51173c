//! Food: temporary additions.

use crate::character::CombatSecond;
use crate::effect::{is_steady, Effect};
use crate::fixed::Fixed;
use crate::stats::{Modifiers, PerStat, Stats};
use crate::vary::Vary;
use vstd::prelude::*;

verus! {

/// Bowl of Potato and Leek Soup: 100 precision and 70 condition damage.
#[derive(Clone, Copy, Debug, PartialEq, Eq, Structural, Hash, Default)]
pub struct PotatoLeekSoup;

impl Effect for PotatoLeekSoup {
    open spec fn temporary(&self, stats: Stats, mods: Modifiers, combat: CombatSecond) -> (
        Stats,
        Modifiers,
    ) {
        (
            PerStat {
                precision: stats.precision.add(Fixed::from_int(100)),
                condition_damage: stats.condition_damage.add(Fixed::from_int(70)),
                ..stats
            },
            mods,
        )
    }

    fn add_permanent(&self, stats: &mut Stats, mods: &mut Modifiers) {
    }

    fn distribute(&self, stats: &mut Stats, mods: &mut Modifiers) {
    }

    fn add_temporary(&self, stats: &mut Stats, mods: &mut Modifiers, combat: &CombatSecond) {
        stats.precision = stats.precision.add(Fixed::from_int(100));
        stats.condition_damage = stats.condition_damage.add(Fixed::from_int(70));
    }

    fn combat_procs(&self, events: &CombatSecond, combat: &mut CombatSecond) {
    }
}

/// A fixed choice: one field, which holds the one value there is.
impl Vary for PotatoLeekSoup {
    open spec fn arity(&self) -> Seq<u16> {
        seq![1u16]
    }

    open spec fn fields(&self) -> Seq<u16> {
        seq![0u16]
    }

    fn num_fields(&self) -> (n: usize) {
        1
    }

    fn num_field_values(&self, field: usize) -> (n: u16) {
        1
    }

    fn get_field(&self, field: usize) -> (value: u16) {
        0
    }

    fn set_field(&mut self, field: usize, value: u16) {
        assert(seq![0u16] =~= seq![0u16].update(field as int, value));
    }
}

/// Red-Lentil Saobosa: 100 expertise and 70 condition damage.
#[derive(Clone, Copy, Debug, PartialEq, Eq, Structural, Hash, Default)]
pub struct RedLentilSaobosa;

impl Effect for RedLentilSaobosa {
    open spec fn temporary(&self, stats: Stats, mods: Modifiers, combat: CombatSecond) -> (
        Stats,
        Modifiers,
    ) {
        (
            PerStat {
                expertise: stats.expertise.add(Fixed::from_int(100)),
                condition_damage: stats.condition_damage.add(Fixed::from_int(70)),
                ..stats
            },
            mods,
        )
    }

    fn add_permanent(&self, stats: &mut Stats, mods: &mut Modifiers) {
    }

    fn distribute(&self, stats: &mut Stats, mods: &mut Modifiers) {
    }

    fn add_temporary(&self, stats: &mut Stats, mods: &mut Modifiers, combat: &CombatSecond) {
        stats.expertise = stats.expertise.add(Fixed::from_int(100));
        stats.condition_damage = stats.condition_damage.add(Fixed::from_int(70));
    }

    fn combat_procs(&self, events: &CombatSecond, combat: &mut CombatSecond) {
    }
}

/// A fixed choice: one field, which holds the one value there is.
impl Vary for RedLentilSaobosa {
    open spec fn arity(&self) -> Seq<u16> {
        seq![1u16]
    }

    open spec fn fields(&self) -> Seq<u16> {
        seq![0u16]
    }

    fn num_fields(&self) -> (n: usize) {
        1
    }

    fn num_field_values(&self, field: usize) -> (n: u16) {
        1
    }

    fn get_field(&self, field: usize) -> (value: u16) {
        0
    }

    fn set_field(&mut self, field: usize, value: u16) {
        assert(seq![0u16] =~= seq![0u16].update(field as int, value));
    }
}

/// The food that a build can choose from.
#[derive(Clone, Copy, Debug, PartialEq, Eq, Structural, Hash)]
pub enum Food {
    PotatoLeekSoup(PotatoLeekSoup),
    RedLentilSaobosa(RedLentilSaobosa),
}

impl Food {
    /// Number of variants.
    pub const COUNT: u16 = 2;

    /// Position of the variant in declaration order.
    pub open spec fn spec_index(self) -> u16 {
        match self {
            Food::PotatoLeekSoup(_) => 0,
            Food::RedLentilSaobosa(_) => 1,
        }
    }

    /// Position of the variant in declaration order.
    #[verifier::when_used_as_spec(spec_index)]
    pub fn index(self) -> (i: u16)
        ensures
            i == self.spec_index(),
            i < Food::COUNT,
    {
        match self {
            Food::PotatoLeekSoup(_) => 0,
            Food::RedLentilSaobosa(_) => 1,
        }
    }

    /// The variant at position `i`; the last one where `i` is past the end.
    pub open spec fn spec_from_index(i: u16) -> Food {
        if i == 0 {
            Food::PotatoLeekSoup(PotatoLeekSoup)
        } else {
            Food::RedLentilSaobosa(RedLentilSaobosa)
        }
    }

    /// The variant at position `i`.
    #[verifier::when_used_as_spec(spec_from_index)]
    pub fn from_index(i: u16) -> (r: Food)
        requires
            i < Food::COUNT,
        ensures
            r == Food::spec_from_index(i),
            r.spec_index() == i,
    {
        if i == 0 {
            Food::PotatoLeekSoup(PotatoLeekSoup)
        } else {
            Food::RedLentilSaobosa(RedLentilSaobosa)
        }
    }
}

impl Effect for Food {
    open spec fn permanent(&self, stats: Stats, mods: Modifiers) -> (Stats, Modifiers) {
        match self {
            Food::PotatoLeekSoup(x) => x.permanent(stats, mods),
            Food::RedLentilSaobosa(x) => x.permanent(stats, mods),
        }
    }

    open spec fn distributed(&self, stats: Stats, mods: Modifiers) -> (Stats, Modifiers) {
        match self {
            Food::PotatoLeekSoup(x) => x.distributed(stats, mods),
            Food::RedLentilSaobosa(x) => x.distributed(stats, mods),
        }
    }

    open spec fn temporary(&self, stats: Stats, mods: Modifiers, combat: CombatSecond) -> (
        Stats,
        Modifiers,
    ) {
        match self {
            Food::PotatoLeekSoup(x) => x.temporary(stats, mods, combat),
            Food::RedLentilSaobosa(x) => x.temporary(stats, mods, combat),
        }
    }

    open spec fn procs(&self, events: CombatSecond, combat: CombatSecond) -> CombatSecond {
        match self {
            Food::PotatoLeekSoup(x) => x.procs(events, combat),
            Food::RedLentilSaobosa(x) => x.procs(events, combat),
        }
    }

    fn add_permanent(&self, stats: &mut Stats, mods: &mut Modifiers) {
        match self {
            Food::PotatoLeekSoup(x) => x.add_permanent(stats, mods),
            Food::RedLentilSaobosa(x) => x.add_permanent(stats, mods),
        }
    }

    fn distribute(&self, stats: &mut Stats, mods: &mut Modifiers) {
        match self {
            Food::PotatoLeekSoup(x) => x.distribute(stats, mods),
            Food::RedLentilSaobosa(x) => x.distribute(stats, mods),
        }
    }

    fn add_temporary(&self, stats: &mut Stats, mods: &mut Modifiers, combat: &CombatSecond) {
        match self {
            Food::PotatoLeekSoup(x) => x.add_temporary(stats, mods, combat),
            Food::RedLentilSaobosa(x) => x.add_temporary(stats, mods, combat),
        }
    }

    fn combat_procs(&self, events: &CombatSecond, combat: &mut CombatSecond) {
        match self {
            Food::PotatoLeekSoup(x) => x.combat_procs(events, combat),
            Food::RedLentilSaobosa(x) => x.combat_procs(events, combat),
        }
    }
}

/// One field, which holds the position of the variant.
impl Vary for Food {
    open spec fn arity(&self) -> Seq<u16> {
        seq![Food::COUNT]
    }

    open spec fn fields(&self) -> Seq<u16> {
        seq![self.spec_index()]
    }

    open spec fn with_field(&self, field: int, value: u16) -> Self {
        Food::spec_from_index(value)
    }

    fn num_fields(&self) -> (n: usize) {
        1
    }

    fn num_field_values(&self, field: usize) -> (n: u16) {
        Food::COUNT
    }

    fn get_field(&self, field: usize) -> (value: u16) {
        self.index()
    }

    fn set_field(&mut self, field: usize, value: u16) {
        *self = Food::from_index(value);
        assert(seq![self.spec_index()] =~= seq![old(self).spec_index()].update(field as int, value));
    }
}

impl From<PotatoLeekSoup> for Food {
    fn from(x: PotatoLeekSoup) -> (r: Food) {
        Food::PotatoLeekSoup(x)
    }
}

impl vstd::std_specs::convert::FromSpecImpl<PotatoLeekSoup> for Food {
    open spec fn obeys_from_spec() -> bool {
        true
    }

    open spec fn from_spec(x: PotatoLeekSoup) -> Food {
        Food::PotatoLeekSoup(x)
    }
}

impl From<RedLentilSaobosa> for Food {
    fn from(x: RedLentilSaobosa) -> (r: Food) {
        Food::RedLentilSaobosa(x)
    }
}

impl vstd::std_specs::convert::FromSpecImpl<RedLentilSaobosa> for Food {
    open spec fn obeys_from_spec() -> bool {
        true
    }

    open spec fn from_spec(x: RedLentilSaobosa) -> Food {
        Food::RedLentilSaobosa(x)
    }
}

/// Every food is steady: it only ever adds.
pub proof fn lemma_food_steady(e: Food)
    ensures
        is_steady(&e),
{
}

} // verus!
