//! Sigils: temporary additions.

use crate::character::CombatSecond;
use crate::effect::{is_steady, Effect};
use crate::fixed::Fixed;
use crate::stats::{Condition, Modifiers, Stats};
use crate::vary::Vary;
use vstd::prelude::*;

verus! {

/// Superior Sigil of Agony: 20 percent longer bleeding.
#[derive(Clone, Copy, Debug, PartialEq, Eq, Structural, Hash, Default)]
pub struct Agony;

impl Effect for Agony {
    open spec fn temporary(&self, stats: Stats, mods: Modifiers, combat: CombatSecond) -> (
        Stats,
        Modifiers,
    ) {
        (
            stats,
            Modifiers {
                condition_duration: mods.condition_duration.with(
                    Condition::Bleed,
                    mods.condition_duration.bleed.add(Fixed::from_int(20)),
                ),
                ..mods
            },
        )
    }

    fn add_permanent(&self, stats: &mut Stats, mods: &mut Modifiers) {
    }

    fn distribute(&self, stats: &mut Stats, mods: &mut Modifiers) {
    }

    fn add_temporary(&self, stats: &mut Stats, mods: &mut Modifiers, combat: &CombatSecond) {
        mods.condition_duration.bleed = mods.condition_duration.bleed.add(Fixed::from_int(20));
    }

    fn combat_procs(&self, events: &CombatSecond, combat: &mut CombatSecond) {
    }
}

/// A fixed choice: one field, which holds the one value there is.
impl Vary for Agony {
    open spec fn arity(&self) -> Seq<u16> {
        seq![1u16]
    }

    open spec fn fields(&self) -> Seq<u16> {
        seq![0u16]
    }

    fn num_fields(&self) -> (n: usize) {
        1
    }

    fn num_field_values(&self, field: usize) -> (n: u16) {
        1
    }

    fn get_field(&self, field: usize) -> (value: u16) {
        0
    }

    fn set_field(&mut self, field: usize, value: u16) {
        assert(seq![0u16] =~= seq![0u16].update(field as int, value));
    }
}

/// Superior Sigil of Smoldering: 20 percent longer burning.
#[derive(Clone, Copy, Debug, PartialEq, Eq, Structural, Hash, Default)]
pub struct Smoldering;

impl Effect for Smoldering {
    open spec fn temporary(&self, stats: Stats, mods: Modifiers, combat: CombatSecond) -> (
        Stats,
        Modifiers,
    ) {
        (
            stats,
            Modifiers {
                condition_duration: mods.condition_duration.with(
                    Condition::Burn,
                    mods.condition_duration.burn.add(Fixed::from_int(20)),
                ),
                ..mods
            },
        )
    }

    fn add_permanent(&self, stats: &mut Stats, mods: &mut Modifiers) {
    }

    fn distribute(&self, stats: &mut Stats, mods: &mut Modifiers) {
    }

    fn add_temporary(&self, stats: &mut Stats, mods: &mut Modifiers, combat: &CombatSecond) {
        mods.condition_duration.burn = mods.condition_duration.burn.add(Fixed::from_int(20));
    }

    fn combat_procs(&self, events: &CombatSecond, combat: &mut CombatSecond) {
    }
}

/// A fixed choice: one field, which holds the one value there is.
impl Vary for Smoldering {
    open spec fn arity(&self) -> Seq<u16> {
        seq![1u16]
    }

    open spec fn fields(&self) -> Seq<u16> {
        seq![0u16]
    }

    fn num_fields(&self) -> (n: usize) {
        1
    }

    fn num_field_values(&self, field: usize) -> (n: u16) {
        1
    }

    fn get_field(&self, field: usize) -> (value: u16) {
        0
    }

    fn set_field(&mut self, field: usize, value: u16) {
        assert(seq![0u16] =~= seq![0u16].update(field as int, value));
    }
}

/// The sigils that a build can choose from.
#[derive(Clone, Copy, Debug, PartialEq, Eq, Structural, Hash)]
pub enum Sigil {
    Agony(Agony),
    Smoldering(Smoldering),
}

impl Sigil {
    /// Number of variants.
    pub const COUNT: u16 = 2;

    /// Position of the variant in declaration order.
    pub open spec fn spec_index(self) -> u16 {
        match self {
            Sigil::Agony(_) => 0,
            Sigil::Smoldering(_) => 1,
        }
    }

    /// Position of the variant in declaration order.
    #[verifier::when_used_as_spec(spec_index)]
    pub fn index(self) -> (i: u16)
        ensures
            i == self.spec_index(),
            i < Sigil::COUNT,
    {
        match self {
            Sigil::Agony(_) => 0,
            Sigil::Smoldering(_) => 1,
        }
    }

    /// The variant at position `i`; the last one where `i` is past the end.
    pub open spec fn spec_from_index(i: u16) -> Sigil {
        if i == 0 {
            Sigil::Agony(Agony)
        } else {
            Sigil::Smoldering(Smoldering)
        }
    }

    /// The variant at position `i`.
    #[verifier::when_used_as_spec(spec_from_index)]
    pub fn from_index(i: u16) -> (r: Sigil)
        requires
            i < Sigil::COUNT,
        ensures
            r == Sigil::spec_from_index(i),
            r.spec_index() == i,
    {
        if i == 0 {
            Sigil::Agony(Agony)
        } else {
            Sigil::Smoldering(Smoldering)
        }
    }
}

impl Effect for Sigil {
    open spec fn permanent(&self, stats: Stats, mods: Modifiers) -> (Stats, Modifiers) {
        match self {
            Sigil::Agony(x) => x.permanent(stats, mods),
            Sigil::Smoldering(x) => x.permanent(stats, mods),
        }
    }

    open spec fn distributed(&self, stats: Stats, mods: Modifiers) -> (Stats, Modifiers) {
        match self {
            Sigil::Agony(x) => x.distributed(stats, mods),
            Sigil::Smoldering(x) => x.distributed(stats, mods),
        }
    }

    open spec fn temporary(&self, stats: Stats, mods: Modifiers, combat: CombatSecond) -> (
        Stats,
        Modifiers,
    ) {
        match self {
            Sigil::Agony(x) => x.temporary(stats, mods, combat),
            Sigil::Smoldering(x) => x.temporary(stats, mods, combat),
        }
    }

    open spec fn procs(&self, events: CombatSecond, combat: CombatSecond) -> CombatSecond {
        match self {
            Sigil::Agony(x) => x.procs(events, combat),
            Sigil::Smoldering(x) => x.procs(events, combat),
        }
    }

    fn add_permanent(&self, stats: &mut Stats, mods: &mut Modifiers) {
        match self {
            Sigil::Agony(x) => x.add_permanent(stats, mods),
            Sigil::Smoldering(x) => x.add_permanent(stats, mods),
        }
    }

    fn distribute(&self, stats: &mut Stats, mods: &mut Modifiers) {
        match self {
            Sigil::Agony(x) => x.distribute(stats, mods),
            Sigil::Smoldering(x) => x.distribute(stats, mods),
        }
    }

    fn add_temporary(&self, stats: &mut Stats, mods: &mut Modifiers, combat: &CombatSecond) {
        match self {
            Sigil::Agony(x) => x.add_temporary(stats, mods, combat),
            Sigil::Smoldering(x) => x.add_temporary(stats, mods, combat),
        }
    }

    fn combat_procs(&self, events: &CombatSecond, combat: &mut CombatSecond) {
        match self {
            Sigil::Agony(x) => x.combat_procs(events, combat),
            Sigil::Smoldering(x) => x.combat_procs(events, combat),
        }
    }
}

/// One field, which holds the position of the variant.
impl Vary for Sigil {
    open spec fn arity(&self) -> Seq<u16> {
        seq![Sigil::COUNT]
    }

    open spec fn fields(&self) -> Seq<u16> {
        seq![self.spec_index()]
    }

    open spec fn with_field(&self, field: int, value: u16) -> Self {
        Sigil::spec_from_index(value)
    }

    fn num_fields(&self) -> (n: usize) {
        1
    }

    fn num_field_values(&self, field: usize) -> (n: u16) {
        Sigil::COUNT
    }

    fn get_field(&self, field: usize) -> (value: u16) {
        self.index()
    }

    fn set_field(&mut self, field: usize, value: u16) {
        *self = Sigil::from_index(value);
        assert(seq![self.spec_index()] =~= seq![old(self).spec_index()].update(field as int, value));
    }
}

impl From<Agony> for Sigil {
    fn from(x: Agony) -> (r: Sigil) {
        Sigil::Agony(x)
    }
}

impl vstd::std_specs::convert::FromSpecImpl<Agony> for Sigil {
    open spec fn obeys_from_spec() -> bool {
        true
    }

    open spec fn from_spec(x: Agony) -> Sigil {
        Sigil::Agony(x)
    }
}

impl From<Smoldering> for Sigil {
    fn from(x: Smoldering) -> (r: Sigil) {
        Sigil::Smoldering(x)
    }
}

impl vstd::std_specs::convert::FromSpecImpl<Smoldering> for Sigil {
    open spec fn obeys_from_spec() -> bool {
        true
    }

    open spec fn from_spec(x: Smoldering) -> Sigil {
        Sigil::Smoldering(x)
    }
}

/// Every sigil is steady: it only ever adds.
pub proof fn lemma_sigil_steady(e: Sigil)
    ensures
        is_steady(&e),
{
}

} // verus!
