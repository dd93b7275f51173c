//! Character attributes, percentage modifiers, and the formulas that turn them into damage
//! and survivability coefficients.

use crate::fixed::{lemma_div_monotone, lemma_mul_monotone, Fixed, SCALE};
use vstd::prelude::*;

verus! {

/// A character attribute.
#[derive(Clone, Copy, Debug, PartialEq, Eq, Structural, Hash)]
pub enum Stat {
    Power,
    Precision,
    Ferocity,
    ConditionDamage,
    Expertise,
    Vitality,
    Toughness,
    HealingPower,
    Concentration,
}

/// One value per attribute.
#[derive(Clone, Copy, Debug, PartialEq, Eq, Hash)]
pub struct PerStat<T> {
    pub power: T,
    pub precision: T,
    pub ferocity: T,
    pub condition_damage: T,
    pub expertise: T,
    pub vitality: T,
    pub toughness: T,
    pub healing_power: T,
    pub concentration: T,
}

impl Stat {
    /// Number of variants.
    pub const COUNT: usize = 9;

    /// Position of the variant in declaration order.
    pub open spec fn spec_index(self) -> usize {
        match self {
            Stat::Power => 0,
            Stat::Precision => 1,
            Stat::Ferocity => 2,
            Stat::ConditionDamage => 3,
            Stat::Expertise => 4,
            Stat::Vitality => 5,
            Stat::Toughness => 6,
            Stat::HealingPower => 7,
            Stat::Concentration => 8,
        }
    }

    /// Position of the variant in declaration order.
    #[verifier::when_used_as_spec(spec_index)]
    pub fn index(self) -> (i: usize)
        ensures
            i == self.spec_index(),
            i < Stat::COUNT,
    {
        match self {
            Stat::Power => 0,
            Stat::Precision => 1,
            Stat::Ferocity => 2,
            Stat::ConditionDamage => 3,
            Stat::Expertise => 4,
            Stat::Vitality => 5,
            Stat::Toughness => 6,
            Stat::HealingPower => 7,
            Stat::Concentration => 8,
        }
    }

    /// The variant at position `i`; the last one where `i` is past the end.
    pub open spec fn spec_from_index(i: usize) -> Stat {
        if i == 0 {
            Stat::Power
        } else if i == 1 {
            Stat::Precision
        } else if i == 2 {
            Stat::Ferocity
        } else if i == 3 {
            Stat::ConditionDamage
        } else if i == 4 {
            Stat::Expertise
        } else if i == 5 {
            Stat::Vitality
        } else if i == 6 {
            Stat::Toughness
        } else if i == 7 {
            Stat::HealingPower
        } else {
            Stat::Concentration
        }
    }

    /// The variant at position `i`.
    #[verifier::when_used_as_spec(spec_from_index)]
    pub fn from_index(i: usize) -> (r: Stat)
        requires
            i < Stat::COUNT,
        ensures
            r == Stat::spec_from_index(i),
            r.spec_index() == i,
    {
        if i == 0 {
            Stat::Power
        } else if i == 1 {
            Stat::Precision
        } else if i == 2 {
            Stat::Ferocity
        } else if i == 3 {
            Stat::ConditionDamage
        } else if i == 4 {
            Stat::Expertise
        } else if i == 5 {
            Stat::Vitality
        } else if i == 6 {
            Stat::Toughness
        } else if i == 7 {
            Stat::HealingPower
        } else {
            Stat::Concentration
        }
    }
}

impl<T> PerStat<T> {
    /// The entry for `key`.
    pub open spec fn at(self, key: Stat) -> T {
        match key {
            Stat::Power => self.power,
            Stat::Precision => self.precision,
            Stat::Ferocity => self.ferocity,
            Stat::ConditionDamage => self.condition_damage,
            Stat::Expertise => self.expertise,
            Stat::Vitality => self.vitality,
            Stat::Toughness => self.toughness,
            Stat::HealingPower => self.healing_power,
            Stat::Concentration => self.concentration,
        }
    }

    /// `self` with the entry for `key` replaced by `value`.
    pub open spec fn with(self, key: Stat, value: T) -> PerStat<T> {
        match key {
            Stat::Power => (PerStat { power: value, ..self }),
            Stat::Precision => (PerStat { precision: value, ..self }),
            Stat::Ferocity => (PerStat { ferocity: value, ..self }),
            Stat::ConditionDamage => (PerStat { condition_damage: value, ..self }),
            Stat::Expertise => (PerStat { expertise: value, ..self }),
            Stat::Vitality => (PerStat { vitality: value, ..self }),
            Stat::Toughness => (PerStat { toughness: value, ..self }),
            Stat::HealingPower => (PerStat { healing_power: value, ..self }),
            Stat::Concentration => (PerStat { concentration: value, ..self }),
        }
    }

    /// Builds a value by asking `f` for each entry, in declaration order.
    pub fn from_fn<F: Fn(Stat) -> T>(f: F) -> (r: PerStat<T>)
        requires
            forall|key: Stat| #[trigger] f.requires((key,)),
        ensures
            forall|key: Stat| #[trigger] f.ensures((key,), r.at(key)),
    {
        let r = PerStat {
            power: f(Stat::Power),
            precision: f(Stat::Precision),
            ferocity: f(Stat::Ferocity),
            condition_damage: f(Stat::ConditionDamage),
            expertise: f(Stat::Expertise),
            vitality: f(Stat::Vitality),
            toughness: f(Stat::Toughness),
            healing_power: f(Stat::HealingPower),
            concentration: f(Stat::Concentration),
        };
        assert forall|key: Stat| #[trigger] f.ensures((key,), r.at(key)) by {
            match key {
                Stat::Power => {},
                Stat::Precision => {},
                Stat::Ferocity => {},
                Stat::ConditionDamage => {},
                Stat::Expertise => {},
                Stat::Vitality => {},
                Stat::Toughness => {},
                Stat::HealingPower => {},
                Stat::Concentration => {},
            }
        }
        r
    }

    /// Applies `f` to each entry together with its key, in declaration order.
    pub fn map<U, F: Fn(Stat, T) -> U>(self, f: F) -> (r: PerStat<U>)
        requires
            forall|key: Stat| #[trigger] f.requires((key, self.at(key))),
        ensures
            forall|key: Stat| #[trigger] f.ensures((key, self.at(key)), r.at(key)),
    {
        assert(f.requires((Stat::Power, self.at(Stat::Power))));
        assert(f.requires((Stat::Precision, self.at(Stat::Precision))));
        assert(f.requires((Stat::Ferocity, self.at(Stat::Ferocity))));
        assert(f.requires((Stat::ConditionDamage, self.at(Stat::ConditionDamage))));
        assert(f.requires((Stat::Expertise, self.at(Stat::Expertise))));
        assert(f.requires((Stat::Vitality, self.at(Stat::Vitality))));
        assert(f.requires((Stat::Toughness, self.at(Stat::Toughness))));
        assert(f.requires((Stat::HealingPower, self.at(Stat::HealingPower))));
        assert(f.requires((Stat::Concentration, self.at(Stat::Concentration))));
        let ghost before = self;
        let r = PerStat {
            power: f(Stat::Power, self.power),
            precision: f(Stat::Precision, self.precision),
            ferocity: f(Stat::Ferocity, self.ferocity),
            condition_damage: f(Stat::ConditionDamage, self.condition_damage),
            expertise: f(Stat::Expertise, self.expertise),
            vitality: f(Stat::Vitality, self.vitality),
            toughness: f(Stat::Toughness, self.toughness),
            healing_power: f(Stat::HealingPower, self.healing_power),
            concentration: f(Stat::Concentration, self.concentration),
        };
        assert forall|key: Stat| #[trigger] f.ensures((key, before.at(key)), r.at(key)) by {
            match key {
                Stat::Power => {},
                Stat::Precision => {},
                Stat::Ferocity => {},
                Stat::ConditionDamage => {},
                Stat::Expertise => {},
                Stat::Vitality => {},
                Stat::Toughness => {},
                Stat::HealingPower => {},
                Stat::Concentration => {},
            }
        }
        r
    }

    /// The entry for `key`.
    pub fn get(&self, key: Stat) -> (r: &T)
        ensures
            *r == self.at(key),
    {
        match key {
            Stat::Power => &self.power,
            Stat::Precision => &self.precision,
            Stat::Ferocity => &self.ferocity,
            Stat::ConditionDamage => &self.condition_damage,
            Stat::Expertise => &self.expertise,
            Stat::Vitality => &self.vitality,
            Stat::Toughness => &self.toughness,
            Stat::HealingPower => &self.healing_power,
            Stat::Concentration => &self.concentration,
        }
    }

    /// Replaces the entry for `key`.
    pub fn set(&mut self, key: Stat, value: T)
        ensures
            *final(self) == old(self).with(key, value),
    {
        match key {
            Stat::Power => {
                self.power = value;
            },
            Stat::Precision => {
                self.precision = value;
            },
            Stat::Ferocity => {
                self.ferocity = value;
            },
            Stat::ConditionDamage => {
                self.condition_damage = value;
            },
            Stat::Expertise => {
                self.expertise = value;
            },
            Stat::Vitality => {
                self.vitality = value;
            },
            Stat::Toughness => {
                self.toughness = value;
            },
            Stat::HealingPower => {
                self.healing_power = value;
            },
            Stat::Concentration => {
                self.concentration = value;
            },
        }
    }
}

impl<T: Copy> PerStat<T> {
    /// The value whose every entry is `x`.
    pub open spec fn spec_splat(x: T) -> PerStat<T> {
        PerStat {
            power: x,
            precision: x,
            ferocity: x,
            condition_damage: x,
            expertise: x,
            vitality: x,
            toughness: x,
            healing_power: x,
            concentration: x,
        }
    }

    /// The value whose every entry is `x`.
    #[verifier::when_used_as_spec(spec_splat)]
    pub fn splat(x: T) -> (r: PerStat<T>)
        ensures
            r == PerStat::spec_splat(x),
    {
        PerStat {
            power: x,
            precision: x,
            ferocity: x,
            condition_damage: x,
            expertise: x,
            vitality: x,
            toughness: x,
            healing_power: x,
            concentration: x,
        }
    }
}

impl PerStat<Fixed> {
    /// Sum, entry by entry.
    pub open spec fn spec_add(self, rhs: PerStat<Fixed>) -> PerStat<Fixed> {
        PerStat {
            power: self.power.add(rhs.power),
            precision: self.precision.add(rhs.precision),
            ferocity: self.ferocity.add(rhs.ferocity),
            condition_damage: self.condition_damage.add(rhs.condition_damage),
            expertise: self.expertise.add(rhs.expertise),
            vitality: self.vitality.add(rhs.vitality),
            toughness: self.toughness.add(rhs.toughness),
            healing_power: self.healing_power.add(rhs.healing_power),
            concentration: self.concentration.add(rhs.concentration),
        }
    }

    /// Sum, entry by entry.
    #[verifier::when_used_as_spec(spec_add)]
    pub fn add(self, rhs: PerStat<Fixed>) -> (r: PerStat<Fixed>)
        ensures
            r == self.spec_add(rhs),
    {
        PerStat {
            power: self.power.add(rhs.power),
            precision: self.precision.add(rhs.precision),
            ferocity: self.ferocity.add(rhs.ferocity),
            condition_damage: self.condition_damage.add(rhs.condition_damage),
            expertise: self.expertise.add(rhs.expertise),
            vitality: self.vitality.add(rhs.vitality),
            toughness: self.toughness.add(rhs.toughness),
            healing_power: self.healing_power.add(rhs.healing_power),
            concentration: self.concentration.add(rhs.concentration),
        }
    }

    /// Difference, entry by entry.
    pub open spec fn spec_sub(self, rhs: PerStat<Fixed>) -> PerStat<Fixed> {
        PerStat {
            power: self.power.sub(rhs.power),
            precision: self.precision.sub(rhs.precision),
            ferocity: self.ferocity.sub(rhs.ferocity),
            condition_damage: self.condition_damage.sub(rhs.condition_damage),
            expertise: self.expertise.sub(rhs.expertise),
            vitality: self.vitality.sub(rhs.vitality),
            toughness: self.toughness.sub(rhs.toughness),
            healing_power: self.healing_power.sub(rhs.healing_power),
            concentration: self.concentration.sub(rhs.concentration),
        }
    }

    /// Difference, entry by entry.
    #[verifier::when_used_as_spec(spec_sub)]
    pub fn sub(self, rhs: PerStat<Fixed>) -> (r: PerStat<Fixed>)
        ensures
            r == self.spec_sub(rhs),
    {
        PerStat {
            power: self.power.sub(rhs.power),
            precision: self.precision.sub(rhs.precision),
            ferocity: self.ferocity.sub(rhs.ferocity),
            condition_damage: self.condition_damage.sub(rhs.condition_damage),
            expertise: self.expertise.sub(rhs.expertise),
            vitality: self.vitality.sub(rhs.vitality),
            toughness: self.toughness.sub(rhs.toughness),
            healing_power: self.healing_power.sub(rhs.healing_power),
            concentration: self.concentration.sub(rhs.concentration),
        }
    }

    /// Product, entry by entry.
    pub open spec fn spec_mul(self, rhs: PerStat<Fixed>) -> PerStat<Fixed> {
        PerStat {
            power: self.power.mul(rhs.power),
            precision: self.precision.mul(rhs.precision),
            ferocity: self.ferocity.mul(rhs.ferocity),
            condition_damage: self.condition_damage.mul(rhs.condition_damage),
            expertise: self.expertise.mul(rhs.expertise),
            vitality: self.vitality.mul(rhs.vitality),
            toughness: self.toughness.mul(rhs.toughness),
            healing_power: self.healing_power.mul(rhs.healing_power),
            concentration: self.concentration.mul(rhs.concentration),
        }
    }

    /// Product, entry by entry.
    #[verifier::when_used_as_spec(spec_mul)]
    pub fn mul(self, rhs: PerStat<Fixed>) -> (r: PerStat<Fixed>)
        ensures
            r == self.spec_mul(rhs),
    {
        PerStat {
            power: self.power.mul(rhs.power),
            precision: self.precision.mul(rhs.precision),
            ferocity: self.ferocity.mul(rhs.ferocity),
            condition_damage: self.condition_damage.mul(rhs.condition_damage),
            expertise: self.expertise.mul(rhs.expertise),
            vitality: self.vitality.mul(rhs.vitality),
            toughness: self.toughness.mul(rhs.toughness),
            healing_power: self.healing_power.mul(rhs.healing_power),
            concentration: self.concentration.mul(rhs.concentration),
        }
    }

    /// Quotient, entry by entry.
    pub open spec fn spec_div(self, rhs: PerStat<Fixed>) -> PerStat<Fixed> {
        PerStat {
            power: self.power.div(rhs.power),
            precision: self.precision.div(rhs.precision),
            ferocity: self.ferocity.div(rhs.ferocity),
            condition_damage: self.condition_damage.div(rhs.condition_damage),
            expertise: self.expertise.div(rhs.expertise),
            vitality: self.vitality.div(rhs.vitality),
            toughness: self.toughness.div(rhs.toughness),
            healing_power: self.healing_power.div(rhs.healing_power),
            concentration: self.concentration.div(rhs.concentration),
        }
    }

    /// Quotient, entry by entry.
    #[verifier::when_used_as_spec(spec_div)]
    pub fn div(self, rhs: PerStat<Fixed>) -> (r: PerStat<Fixed>)
        ensures
            r == self.spec_div(rhs),
    {
        PerStat {
            power: self.power.div(rhs.power),
            precision: self.precision.div(rhs.precision),
            ferocity: self.ferocity.div(rhs.ferocity),
            condition_damage: self.condition_damage.div(rhs.condition_damage),
            expertise: self.expertise.div(rhs.expertise),
            vitality: self.vitality.div(rhs.vitality),
            toughness: self.toughness.div(rhs.toughness),
            healing_power: self.healing_power.div(rhs.healing_power),
            concentration: self.concentration.div(rhs.concentration),
        }
    }

    /// Adds `x` to every entry.
    pub open spec fn spec_add_scalar(self, x: Fixed) -> PerStat<Fixed> {
        PerStat {
            power: self.power.add(x),
            precision: self.precision.add(x),
            ferocity: self.ferocity.add(x),
            condition_damage: self.condition_damage.add(x),
            expertise: self.expertise.add(x),
            vitality: self.vitality.add(x),
            toughness: self.toughness.add(x),
            healing_power: self.healing_power.add(x),
            concentration: self.concentration.add(x),
        }
    }

    /// Adds `x` to every entry.
    #[verifier::when_used_as_spec(spec_add_scalar)]
    pub fn add_scalar(self, x: Fixed) -> (r: PerStat<Fixed>)
        ensures
            r == self.spec_add_scalar(x),
    {
        PerStat {
            power: self.power.add(x),
            precision: self.precision.add(x),
            ferocity: self.ferocity.add(x),
            condition_damage: self.condition_damage.add(x),
            expertise: self.expertise.add(x),
            vitality: self.vitality.add(x),
            toughness: self.toughness.add(x),
            healing_power: self.healing_power.add(x),
            concentration: self.concentration.add(x),
        }
    }

    /// Multiplies every entry by `x`.
    pub open spec fn spec_scale(self, x: Fixed) -> PerStat<Fixed> {
        PerStat {
            power: self.power.mul(x),
            precision: self.precision.mul(x),
            ferocity: self.ferocity.mul(x),
            condition_damage: self.condition_damage.mul(x),
            expertise: self.expertise.mul(x),
            vitality: self.vitality.mul(x),
            toughness: self.toughness.mul(x),
            healing_power: self.healing_power.mul(x),
            concentration: self.concentration.mul(x),
        }
    }

    /// Multiplies every entry by `x`.
    #[verifier::when_used_as_spec(spec_scale)]
    pub fn scale(self, x: Fixed) -> (r: PerStat<Fixed>)
        ensures
            r == self.spec_scale(x),
    {
        PerStat {
            power: self.power.mul(x),
            precision: self.precision.mul(x),
            ferocity: self.ferocity.mul(x),
            condition_damage: self.condition_damage.mul(x),
            expertise: self.expertise.mul(x),
            vitality: self.vitality.mul(x),
            toughness: self.toughness.mul(x),
            healing_power: self.healing_power.mul(x),
            concentration: self.concentration.mul(x),
        }
    }

    /// Divides every entry by `x`.
    pub open spec fn spec_div_scalar(self, x: Fixed) -> PerStat<Fixed> {
        PerStat {
            power: self.power.div(x),
            precision: self.precision.div(x),
            ferocity: self.ferocity.div(x),
            condition_damage: self.condition_damage.div(x),
            expertise: self.expertise.div(x),
            vitality: self.vitality.div(x),
            toughness: self.toughness.div(x),
            healing_power: self.healing_power.div(x),
            concentration: self.concentration.div(x),
        }
    }

    /// Divides every entry by `x`.
    #[verifier::when_used_as_spec(spec_div_scalar)]
    pub fn div_scalar(self, x: Fixed) -> (r: PerStat<Fixed>)
        ensures
            r == self.spec_div_scalar(x),
    {
        PerStat {
            power: self.power.div(x),
            precision: self.precision.div(x),
            ferocity: self.ferocity.div(x),
            condition_damage: self.condition_damage.div(x),
            expertise: self.expertise.div(x),
            vitality: self.vitality.div(x),
            toughness: self.toughness.div(x),
            healing_power: self.healing_power.div(x),
            concentration: self.concentration.div(x),
        }
    }

    /// Sum of all entries, added in declaration order.
    pub open spec fn spec_sum(&self) -> Fixed {
        self.power
            .add(self.precision)
            .add(self.ferocity)
            .add(self.condition_damage)
            .add(self.expertise)
            .add(self.vitality)
            .add(self.toughness)
            .add(self.healing_power)
            .add(self.concentration)
    }

    /// Sum of all entries, added in declaration order.
    #[verifier::when_used_as_spec(spec_sum)]
    pub fn sum(&self) -> (r: Fixed)
        ensures
            r == self.spec_sum(),
    {
        self.power
            .add(self.precision)
            .add(self.ferocity)
            .add(self.condition_damage)
            .add(self.expertise)
            .add(self.vitality)
            .add(self.toughness)
            .add(self.healing_power)
            .add(self.concentration)
    }
}

/// A damaging condition.
#[derive(Clone, Copy, Debug, PartialEq, Eq, Structural, Hash)]
pub enum Condition {
    Bleed,
    Burn,
    Confuse,
    Poison,
    Torment,
}

/// One value per condition.
#[derive(Clone, Copy, Debug, PartialEq, Eq, Hash)]
pub struct PerCondition<T> {
    pub bleed: T,
    pub burn: T,
    pub confuse: T,
    pub poison: T,
    pub torment: T,
}

impl Condition {
    /// Number of variants.
    pub const COUNT: usize = 5;

    /// Position of the variant in declaration order.
    pub open spec fn spec_index(self) -> usize {
        match self {
            Condition::Bleed => 0,
            Condition::Burn => 1,
            Condition::Confuse => 2,
            Condition::Poison => 3,
            Condition::Torment => 4,
        }
    }

    /// Position of the variant in declaration order.
    #[verifier::when_used_as_spec(spec_index)]
    pub fn index(self) -> (i: usize)
        ensures
            i == self.spec_index(),
            i < Condition::COUNT,
    {
        match self {
            Condition::Bleed => 0,
            Condition::Burn => 1,
            Condition::Confuse => 2,
            Condition::Poison => 3,
            Condition::Torment => 4,
        }
    }

    /// The variant at position `i`; the last one where `i` is past the end.
    pub open spec fn spec_from_index(i: usize) -> Condition {
        if i == 0 {
            Condition::Bleed
        } else if i == 1 {
            Condition::Burn
        } else if i == 2 {
            Condition::Confuse
        } else if i == 3 {
            Condition::Poison
        } else {
            Condition::Torment
        }
    }

    /// The variant at position `i`.
    #[verifier::when_used_as_spec(spec_from_index)]
    pub fn from_index(i: usize) -> (r: Condition)
        requires
            i < Condition::COUNT,
        ensures
            r == Condition::spec_from_index(i),
            r.spec_index() == i,
    {
        if i == 0 {
            Condition::Bleed
        } else if i == 1 {
            Condition::Burn
        } else if i == 2 {
            Condition::Confuse
        } else if i == 3 {
            Condition::Poison
        } else {
            Condition::Torment
        }
    }
}

impl<T> PerCondition<T> {
    /// The entry for `key`.
    pub open spec fn at(self, key: Condition) -> T {
        match key {
            Condition::Bleed => self.bleed,
            Condition::Burn => self.burn,
            Condition::Confuse => self.confuse,
            Condition::Poison => self.poison,
            Condition::Torment => self.torment,
        }
    }

    /// `self` with the entry for `key` replaced by `value`.
    pub open spec fn with(self, key: Condition, value: T) -> PerCondition<T> {
        match key {
            Condition::Bleed => (PerCondition { bleed: value, ..self }),
            Condition::Burn => (PerCondition { burn: value, ..self }),
            Condition::Confuse => (PerCondition { confuse: value, ..self }),
            Condition::Poison => (PerCondition { poison: value, ..self }),
            Condition::Torment => (PerCondition { torment: value, ..self }),
        }
    }

    /// Builds a value by asking `f` for each entry, in declaration order.
    pub fn from_fn<F: Fn(Condition) -> T>(f: F) -> (r: PerCondition<T>)
        requires
            forall|key: Condition| #[trigger] f.requires((key,)),
        ensures
            forall|key: Condition| #[trigger] f.ensures((key,), r.at(key)),
    {
        let r = PerCondition {
            bleed: f(Condition::Bleed),
            burn: f(Condition::Burn),
            confuse: f(Condition::Confuse),
            poison: f(Condition::Poison),
            torment: f(Condition::Torment),
        };
        assert forall|key: Condition| #[trigger] f.ensures((key,), r.at(key)) by {
            match key {
                Condition::Bleed => {},
                Condition::Burn => {},
                Condition::Confuse => {},
                Condition::Poison => {},
                Condition::Torment => {},
            }
        }
        r
    }

    /// Applies `f` to each entry together with its key, in declaration order.
    pub fn map<U, F: Fn(Condition, T) -> U>(self, f: F) -> (r: PerCondition<U>)
        requires
            forall|key: Condition| #[trigger] f.requires((key, self.at(key))),
        ensures
            forall|key: Condition| #[trigger] f.ensures((key, self.at(key)), r.at(key)),
    {
        assert(f.requires((Condition::Bleed, self.at(Condition::Bleed))));
        assert(f.requires((Condition::Burn, self.at(Condition::Burn))));
        assert(f.requires((Condition::Confuse, self.at(Condition::Confuse))));
        assert(f.requires((Condition::Poison, self.at(Condition::Poison))));
        assert(f.requires((Condition::Torment, self.at(Condition::Torment))));
        let ghost before = self;
        let r = PerCondition {
            bleed: f(Condition::Bleed, self.bleed),
            burn: f(Condition::Burn, self.burn),
            confuse: f(Condition::Confuse, self.confuse),
            poison: f(Condition::Poison, self.poison),
            torment: f(Condition::Torment, self.torment),
        };
        assert forall|key: Condition| #[trigger] f.ensures((key, before.at(key)), r.at(key)) by {
            match key {
                Condition::Bleed => {},
                Condition::Burn => {},
                Condition::Confuse => {},
                Condition::Poison => {},
                Condition::Torment => {},
            }
        }
        r
    }

    /// The entry for `key`.
    pub fn get(&self, key: Condition) -> (r: &T)
        ensures
            *r == self.at(key),
    {
        match key {
            Condition::Bleed => &self.bleed,
            Condition::Burn => &self.burn,
            Condition::Confuse => &self.confuse,
            Condition::Poison => &self.poison,
            Condition::Torment => &self.torment,
        }
    }

    /// Replaces the entry for `key`.
    pub fn set(&mut self, key: Condition, value: T)
        ensures
            *final(self) == old(self).with(key, value),
    {
        match key {
            Condition::Bleed => {
                self.bleed = value;
            },
            Condition::Burn => {
                self.burn = value;
            },
            Condition::Confuse => {
                self.confuse = value;
            },
            Condition::Poison => {
                self.poison = value;
            },
            Condition::Torment => {
                self.torment = value;
            },
        }
    }
}

impl<T: Copy> PerCondition<T> {
    /// The value whose every entry is `x`.
    pub open spec fn spec_splat(x: T) -> PerCondition<T> {
        PerCondition {
            bleed: x,
            burn: x,
            confuse: x,
            poison: x,
            torment: x,
        }
    }

    /// The value whose every entry is `x`.
    #[verifier::when_used_as_spec(spec_splat)]
    pub fn splat(x: T) -> (r: PerCondition<T>)
        ensures
            r == PerCondition::spec_splat(x),
    {
        PerCondition {
            bleed: x,
            burn: x,
            confuse: x,
            poison: x,
            torment: x,
        }
    }
}

impl PerCondition<Fixed> {
    /// Sum, entry by entry.
    pub open spec fn spec_add(self, rhs: PerCondition<Fixed>) -> PerCondition<Fixed> {
        PerCondition {
            bleed: self.bleed.add(rhs.bleed),
            burn: self.burn.add(rhs.burn),
            confuse: self.confuse.add(rhs.confuse),
            poison: self.poison.add(rhs.poison),
            torment: self.torment.add(rhs.torment),
        }
    }

    /// Sum, entry by entry.
    #[verifier::when_used_as_spec(spec_add)]
    pub fn add(self, rhs: PerCondition<Fixed>) -> (r: PerCondition<Fixed>)
        ensures
            r == self.spec_add(rhs),
    {
        PerCondition {
            bleed: self.bleed.add(rhs.bleed),
            burn: self.burn.add(rhs.burn),
            confuse: self.confuse.add(rhs.confuse),
            poison: self.poison.add(rhs.poison),
            torment: self.torment.add(rhs.torment),
        }
    }

    /// Difference, entry by entry.
    pub open spec fn spec_sub(self, rhs: PerCondition<Fixed>) -> PerCondition<Fixed> {
        PerCondition {
            bleed: self.bleed.sub(rhs.bleed),
            burn: self.burn.sub(rhs.burn),
            confuse: self.confuse.sub(rhs.confuse),
            poison: self.poison.sub(rhs.poison),
            torment: self.torment.sub(rhs.torment),
        }
    }

    /// Difference, entry by entry.
    #[verifier::when_used_as_spec(spec_sub)]
    pub fn sub(self, rhs: PerCondition<Fixed>) -> (r: PerCondition<Fixed>)
        ensures
            r == self.spec_sub(rhs),
    {
        PerCondition {
            bleed: self.bleed.sub(rhs.bleed),
            burn: self.burn.sub(rhs.burn),
            confuse: self.confuse.sub(rhs.confuse),
            poison: self.poison.sub(rhs.poison),
            torment: self.torment.sub(rhs.torment),
        }
    }

    /// Product, entry by entry.
    pub open spec fn spec_mul(self, rhs: PerCondition<Fixed>) -> PerCondition<Fixed> {
        PerCondition {
            bleed: self.bleed.mul(rhs.bleed),
            burn: self.burn.mul(rhs.burn),
            confuse: self.confuse.mul(rhs.confuse),
            poison: self.poison.mul(rhs.poison),
            torment: self.torment.mul(rhs.torment),
        }
    }

    /// Product, entry by entry.
    #[verifier::when_used_as_spec(spec_mul)]
    pub fn mul(self, rhs: PerCondition<Fixed>) -> (r: PerCondition<Fixed>)
        ensures
            r == self.spec_mul(rhs),
    {
        PerCondition {
            bleed: self.bleed.mul(rhs.bleed),
            burn: self.burn.mul(rhs.burn),
            confuse: self.confuse.mul(rhs.confuse),
            poison: self.poison.mul(rhs.poison),
            torment: self.torment.mul(rhs.torment),
        }
    }

    /// Quotient, entry by entry.
    pub open spec fn spec_div(self, rhs: PerCondition<Fixed>) -> PerCondition<Fixed> {
        PerCondition {
            bleed: self.bleed.div(rhs.bleed),
            burn: self.burn.div(rhs.burn),
            confuse: self.confuse.div(rhs.confuse),
            poison: self.poison.div(rhs.poison),
            torment: self.torment.div(rhs.torment),
        }
    }

    /// Quotient, entry by entry.
    #[verifier::when_used_as_spec(spec_div)]
    pub fn div(self, rhs: PerCondition<Fixed>) -> (r: PerCondition<Fixed>)
        ensures
            r == self.spec_div(rhs),
    {
        PerCondition {
            bleed: self.bleed.div(rhs.bleed),
            burn: self.burn.div(rhs.burn),
            confuse: self.confuse.div(rhs.confuse),
            poison: self.poison.div(rhs.poison),
            torment: self.torment.div(rhs.torment),
        }
    }

    /// Adds `x` to every entry.
    pub open spec fn spec_add_scalar(self, x: Fixed) -> PerCondition<Fixed> {
        PerCondition {
            bleed: self.bleed.add(x),
            burn: self.burn.add(x),
            confuse: self.confuse.add(x),
            poison: self.poison.add(x),
            torment: self.torment.add(x),
        }
    }

    /// Adds `x` to every entry.
    #[verifier::when_used_as_spec(spec_add_scalar)]
    pub fn add_scalar(self, x: Fixed) -> (r: PerCondition<Fixed>)
        ensures
            r == self.spec_add_scalar(x),
    {
        PerCondition {
            bleed: self.bleed.add(x),
            burn: self.burn.add(x),
            confuse: self.confuse.add(x),
            poison: self.poison.add(x),
            torment: self.torment.add(x),
        }
    }

    /// Multiplies every entry by `x`.
    pub open spec fn spec_scale(self, x: Fixed) -> PerCondition<Fixed> {
        PerCondition {
            bleed: self.bleed.mul(x),
            burn: self.burn.mul(x),
            confuse: self.confuse.mul(x),
            poison: self.poison.mul(x),
            torment: self.torment.mul(x),
        }
    }

    /// Multiplies every entry by `x`.
    #[verifier::when_used_as_spec(spec_scale)]
    pub fn scale(self, x: Fixed) -> (r: PerCondition<Fixed>)
        ensures
            r == self.spec_scale(x),
    {
        PerCondition {
            bleed: self.bleed.mul(x),
            burn: self.burn.mul(x),
            confuse: self.confuse.mul(x),
            poison: self.poison.mul(x),
            torment: self.torment.mul(x),
        }
    }

    /// Divides every entry by `x`.
    pub open spec fn spec_div_scalar(self, x: Fixed) -> PerCondition<Fixed> {
        PerCondition {
            bleed: self.bleed.div(x),
            burn: self.burn.div(x),
            confuse: self.confuse.div(x),
            poison: self.poison.div(x),
            torment: self.torment.div(x),
        }
    }

    /// Divides every entry by `x`.
    #[verifier::when_used_as_spec(spec_div_scalar)]
    pub fn div_scalar(self, x: Fixed) -> (r: PerCondition<Fixed>)
        ensures
            r == self.spec_div_scalar(x),
    {
        PerCondition {
            bleed: self.bleed.div(x),
            burn: self.burn.div(x),
            confuse: self.confuse.div(x),
            poison: self.poison.div(x),
            torment: self.torment.div(x),
        }
    }

    /// Sum of all entries, added in declaration order.
    pub open spec fn spec_sum(&self) -> Fixed {
        self.bleed.add(self.burn).add(self.confuse).add(self.poison).add(self.torment)
    }

    /// Sum of all entries, added in declaration order.
    #[verifier::when_used_as_spec(spec_sum)]
    pub fn sum(&self) -> (r: Fixed)
        ensures
            r == self.spec_sum(),
    {
        self.bleed.add(self.burn).add(self.confuse).add(self.poison).add(self.torment)
    }
}

/// A boon.
#[derive(Clone, Copy, Debug, PartialEq, Eq, Structural, Hash)]
pub enum Boon {
    Aegis,
    Alacrity,
    Fury,
    Might,
    Protection,
    Quickness,
    Regeneration,
    Resistance,
    Resolution,
    Stability,
    Swiftness,
    Vigor,
}

/// One value per boon.
#[derive(Clone, Copy, Debug, PartialEq, Eq, Hash)]
pub struct PerBoon<T> {
    pub aegis: T,
    pub alacrity: T,
    pub fury: T,
    pub might: T,
    pub protection: T,
    pub quickness: T,
    pub regeneration: T,
    pub resistance: T,
    pub resolution: T,
    pub stability: T,
    pub swiftness: T,
    pub vigor: T,
}

impl Boon {
    /// Number of variants.
    pub const COUNT: usize = 12;

    /// Position of the variant in declaration order.
    pub open spec fn spec_index(self) -> usize {
        match self {
            Boon::Aegis => 0,
            Boon::Alacrity => 1,
            Boon::Fury => 2,
            Boon::Might => 3,
            Boon::Protection => 4,
            Boon::Quickness => 5,
            Boon::Regeneration => 6,
            Boon::Resistance => 7,
            Boon::Resolution => 8,
            Boon::Stability => 9,
            Boon::Swiftness => 10,
            Boon::Vigor => 11,
        }
    }

    /// Position of the variant in declaration order.
    #[verifier::when_used_as_spec(spec_index)]
    pub fn index(self) -> (i: usize)
        ensures
            i == self.spec_index(),
            i < Boon::COUNT,
    {
        match self {
            Boon::Aegis => 0,
            Boon::Alacrity => 1,
            Boon::Fury => 2,
            Boon::Might => 3,
            Boon::Protection => 4,
            Boon::Quickness => 5,
            Boon::Regeneration => 6,
            Boon::Resistance => 7,
            Boon::Resolution => 8,
            Boon::Stability => 9,
            Boon::Swiftness => 10,
            Boon::Vigor => 11,
        }
    }

    /// The variant at position `i`; the last one where `i` is past the end.
    pub open spec fn spec_from_index(i: usize) -> Boon {
        if i == 0 {
            Boon::Aegis
        } else if i == 1 {
            Boon::Alacrity
        } else if i == 2 {
            Boon::Fury
        } else if i == 3 {
            Boon::Might
        } else if i == 4 {
            Boon::Protection
        } else if i == 5 {
            Boon::Quickness
        } else if i == 6 {
            Boon::Regeneration
        } else if i == 7 {
            Boon::Resistance
        } else if i == 8 {
            Boon::Resolution
        } else if i == 9 {
            Boon::Stability
        } else if i == 10 {
            Boon::Swiftness
        } else {
            Boon::Vigor
        }
    }

    /// The variant at position `i`.
    #[verifier::when_used_as_spec(spec_from_index)]
    pub fn from_index(i: usize) -> (r: Boon)
        requires
            i < Boon::COUNT,
        ensures
            r == Boon::spec_from_index(i),
            r.spec_index() == i,
    {
        if i == 0 {
            Boon::Aegis
        } else if i == 1 {
            Boon::Alacrity
        } else if i == 2 {
            Boon::Fury
        } else if i == 3 {
            Boon::Might
        } else if i == 4 {
            Boon::Protection
        } else if i == 5 {
            Boon::Quickness
        } else if i == 6 {
            Boon::Regeneration
        } else if i == 7 {
            Boon::Resistance
        } else if i == 8 {
            Boon::Resolution
        } else if i == 9 {
            Boon::Stability
        } else if i == 10 {
            Boon::Swiftness
        } else {
            Boon::Vigor
        }
    }
}

impl<T> PerBoon<T> {
    /// The entry for `key`.
    pub open spec fn at(self, key: Boon) -> T {
        match key {
            Boon::Aegis => self.aegis,
            Boon::Alacrity => self.alacrity,
            Boon::Fury => self.fury,
            Boon::Might => self.might,
            Boon::Protection => self.protection,
            Boon::Quickness => self.quickness,
            Boon::Regeneration => self.regeneration,
            Boon::Resistance => self.resistance,
            Boon::Resolution => self.resolution,
            Boon::Stability => self.stability,
            Boon::Swiftness => self.swiftness,
            Boon::Vigor => self.vigor,
        }
    }

    /// `self` with the entry for `key` replaced by `value`.
    pub open spec fn with(self, key: Boon, value: T) -> PerBoon<T> {
        match key {
            Boon::Aegis => (PerBoon { aegis: value, ..self }),
            Boon::Alacrity => (PerBoon { alacrity: value, ..self }),
            Boon::Fury => (PerBoon { fury: value, ..self }),
            Boon::Might => (PerBoon { might: value, ..self }),
            Boon::Protection => (PerBoon { protection: value, ..self }),
            Boon::Quickness => (PerBoon { quickness: value, ..self }),
            Boon::Regeneration => (PerBoon { regeneration: value, ..self }),
            Boon::Resistance => (PerBoon { resistance: value, ..self }),
            Boon::Resolution => (PerBoon { resolution: value, ..self }),
            Boon::Stability => (PerBoon { stability: value, ..self }),
            Boon::Swiftness => (PerBoon { swiftness: value, ..self }),
            Boon::Vigor => (PerBoon { vigor: value, ..self }),
        }
    }

    /// Builds a value by asking `f` for each entry, in declaration order.
    pub fn from_fn<F: Fn(Boon) -> T>(f: F) -> (r: PerBoon<T>)
        requires
            forall|key: Boon| #[trigger] f.requires((key,)),
        ensures
            forall|key: Boon| #[trigger] f.ensures((key,), r.at(key)),
    {
        let r = PerBoon {
            aegis: f(Boon::Aegis),
            alacrity: f(Boon::Alacrity),
            fury: f(Boon::Fury),
            might: f(Boon::Might),
            protection: f(Boon::Protection),
            quickness: f(Boon::Quickness),
            regeneration: f(Boon::Regeneration),
            resistance: f(Boon::Resistance),
            resolution: f(Boon::Resolution),
            stability: f(Boon::Stability),
            swiftness: f(Boon::Swiftness),
            vigor: f(Boon::Vigor),
        };
        assert forall|key: Boon| #[trigger] f.ensures((key,), r.at(key)) by {
            match key {
                Boon::Aegis => {},
                Boon::Alacrity => {},
                Boon::Fury => {},
                Boon::Might => {},
                Boon::Protection => {},
                Boon::Quickness => {},
                Boon::Regeneration => {},
                Boon::Resistance => {},
                Boon::Resolution => {},
                Boon::Stability => {},
                Boon::Swiftness => {},
                Boon::Vigor => {},
            }
        }
        r
    }

    /// Applies `f` to each entry together with its key, in declaration order.
    pub fn map<U, F: Fn(Boon, T) -> U>(self, f: F) -> (r: PerBoon<U>)
        requires
            forall|key: Boon| #[trigger] f.requires((key, self.at(key))),
        ensures
            forall|key: Boon| #[trigger] f.ensures((key, self.at(key)), r.at(key)),
    {
        assert(f.requires((Boon::Aegis, self.at(Boon::Aegis))));
        assert(f.requires((Boon::Alacrity, self.at(Boon::Alacrity))));
        assert(f.requires((Boon::Fury, self.at(Boon::Fury))));
        assert(f.requires((Boon::Might, self.at(Boon::Might))));
        assert(f.requires((Boon::Protection, self.at(Boon::Protection))));
        assert(f.requires((Boon::Quickness, self.at(Boon::Quickness))));
        assert(f.requires((Boon::Regeneration, self.at(Boon::Regeneration))));
        assert(f.requires((Boon::Resistance, self.at(Boon::Resistance))));
        assert(f.requires((Boon::Resolution, self.at(Boon::Resolution))));
        assert(f.requires((Boon::Stability, self.at(Boon::Stability))));
        assert(f.requires((Boon::Swiftness, self.at(Boon::Swiftness))));
        assert(f.requires((Boon::Vigor, self.at(Boon::Vigor))));
        let ghost before = self;
        let r = PerBoon {
            aegis: f(Boon::Aegis, self.aegis),
            alacrity: f(Boon::Alacrity, self.alacrity),
            fury: f(Boon::Fury, self.fury),
            might: f(Boon::Might, self.might),
            protection: f(Boon::Protection, self.protection),
            quickness: f(Boon::Quickness, self.quickness),
            regeneration: f(Boon::Regeneration, self.regeneration),
            resistance: f(Boon::Resistance, self.resistance),
            resolution: f(Boon::Resolution, self.resolution),
            stability: f(Boon::Stability, self.stability),
            swiftness: f(Boon::Swiftness, self.swiftness),
            vigor: f(Boon::Vigor, self.vigor),
        };
        assert forall|key: Boon| #[trigger] f.ensures((key, before.at(key)), r.at(key)) by {
            match key {
                Boon::Aegis => {},
                Boon::Alacrity => {},
                Boon::Fury => {},
                Boon::Might => {},
                Boon::Protection => {},
                Boon::Quickness => {},
                Boon::Regeneration => {},
                Boon::Resistance => {},
                Boon::Resolution => {},
                Boon::Stability => {},
                Boon::Swiftness => {},
                Boon::Vigor => {},
            }
        }
        r
    }

    /// The entry for `key`.
    pub fn get(&self, key: Boon) -> (r: &T)
        ensures
            *r == self.at(key),
    {
        match key {
            Boon::Aegis => &self.aegis,
            Boon::Alacrity => &self.alacrity,
            Boon::Fury => &self.fury,
            Boon::Might => &self.might,
            Boon::Protection => &self.protection,
            Boon::Quickness => &self.quickness,
            Boon::Regeneration => &self.regeneration,
            Boon::Resistance => &self.resistance,
            Boon::Resolution => &self.resolution,
            Boon::Stability => &self.stability,
            Boon::Swiftness => &self.swiftness,
            Boon::Vigor => &self.vigor,
        }
    }

    /// Replaces the entry for `key`.
    pub fn set(&mut self, key: Boon, value: T)
        ensures
            *final(self) == old(self).with(key, value),
    {
        match key {
            Boon::Aegis => {
                self.aegis = value;
            },
            Boon::Alacrity => {
                self.alacrity = value;
            },
            Boon::Fury => {
                self.fury = value;
            },
            Boon::Might => {
                self.might = value;
            },
            Boon::Protection => {
                self.protection = value;
            },
            Boon::Quickness => {
                self.quickness = value;
            },
            Boon::Regeneration => {
                self.regeneration = value;
            },
            Boon::Resistance => {
                self.resistance = value;
            },
            Boon::Resolution => {
                self.resolution = value;
            },
            Boon::Stability => {
                self.stability = value;
            },
            Boon::Swiftness => {
                self.swiftness = value;
            },
            Boon::Vigor => {
                self.vigor = value;
            },
        }
    }
}

impl<T: Copy> PerBoon<T> {
    /// The value whose every entry is `x`.
    pub open spec fn spec_splat(x: T) -> PerBoon<T> {
        PerBoon {
            aegis: x,
            alacrity: x,
            fury: x,
            might: x,
            protection: x,
            quickness: x,
            regeneration: x,
            resistance: x,
            resolution: x,
            stability: x,
            swiftness: x,
            vigor: x,
        }
    }

    /// The value whose every entry is `x`.
    #[verifier::when_used_as_spec(spec_splat)]
    pub fn splat(x: T) -> (r: PerBoon<T>)
        ensures
            r == PerBoon::spec_splat(x),
    {
        PerBoon {
            aegis: x,
            alacrity: x,
            fury: x,
            might: x,
            protection: x,
            quickness: x,
            regeneration: x,
            resistance: x,
            resolution: x,
            stability: x,
            swiftness: x,
            vigor: x,
        }
    }
}

impl PerBoon<Fixed> {
    /// Sum, entry by entry.
    pub open spec fn spec_add(self, rhs: PerBoon<Fixed>) -> PerBoon<Fixed> {
        PerBoon {
            aegis: self.aegis.add(rhs.aegis),
            alacrity: self.alacrity.add(rhs.alacrity),
            fury: self.fury.add(rhs.fury),
            might: self.might.add(rhs.might),
            protection: self.protection.add(rhs.protection),
            quickness: self.quickness.add(rhs.quickness),
            regeneration: self.regeneration.add(rhs.regeneration),
            resistance: self.resistance.add(rhs.resistance),
            resolution: self.resolution.add(rhs.resolution),
            stability: self.stability.add(rhs.stability),
            swiftness: self.swiftness.add(rhs.swiftness),
            vigor: self.vigor.add(rhs.vigor),
        }
    }

    /// Sum, entry by entry.
    #[verifier::when_used_as_spec(spec_add)]
    pub fn add(self, rhs: PerBoon<Fixed>) -> (r: PerBoon<Fixed>)
        ensures
            r == self.spec_add(rhs),
    {
        PerBoon {
            aegis: self.aegis.add(rhs.aegis),
            alacrity: self.alacrity.add(rhs.alacrity),
            fury: self.fury.add(rhs.fury),
            might: self.might.add(rhs.might),
            protection: self.protection.add(rhs.protection),
            quickness: self.quickness.add(rhs.quickness),
            regeneration: self.regeneration.add(rhs.regeneration),
            resistance: self.resistance.add(rhs.resistance),
            resolution: self.resolution.add(rhs.resolution),
            stability: self.stability.add(rhs.stability),
            swiftness: self.swiftness.add(rhs.swiftness),
            vigor: self.vigor.add(rhs.vigor),
        }
    }

    /// Difference, entry by entry.
    pub open spec fn spec_sub(self, rhs: PerBoon<Fixed>) -> PerBoon<Fixed> {
        PerBoon {
            aegis: self.aegis.sub(rhs.aegis),
            alacrity: self.alacrity.sub(rhs.alacrity),
            fury: self.fury.sub(rhs.fury),
            might: self.might.sub(rhs.might),
            protection: self.protection.sub(rhs.protection),
            quickness: self.quickness.sub(rhs.quickness),
            regeneration: self.regeneration.sub(rhs.regeneration),
            resistance: self.resistance.sub(rhs.resistance),
            resolution: self.resolution.sub(rhs.resolution),
            stability: self.stability.sub(rhs.stability),
            swiftness: self.swiftness.sub(rhs.swiftness),
            vigor: self.vigor.sub(rhs.vigor),
        }
    }

    /// Difference, entry by entry.
    #[verifier::when_used_as_spec(spec_sub)]
    pub fn sub(self, rhs: PerBoon<Fixed>) -> (r: PerBoon<Fixed>)
        ensures
            r == self.spec_sub(rhs),
    {
        PerBoon {
            aegis: self.aegis.sub(rhs.aegis),
            alacrity: self.alacrity.sub(rhs.alacrity),
            fury: self.fury.sub(rhs.fury),
            might: self.might.sub(rhs.might),
            protection: self.protection.sub(rhs.protection),
            quickness: self.quickness.sub(rhs.quickness),
            regeneration: self.regeneration.sub(rhs.regeneration),
            resistance: self.resistance.sub(rhs.resistance),
            resolution: self.resolution.sub(rhs.resolution),
            stability: self.stability.sub(rhs.stability),
            swiftness: self.swiftness.sub(rhs.swiftness),
            vigor: self.vigor.sub(rhs.vigor),
        }
    }

    /// Product, entry by entry.
    pub open spec fn spec_mul(self, rhs: PerBoon<Fixed>) -> PerBoon<Fixed> {
        PerBoon {
            aegis: self.aegis.mul(rhs.aegis),
            alacrity: self.alacrity.mul(rhs.alacrity),
            fury: self.fury.mul(rhs.fury),
            might: self.might.mul(rhs.might),
            protection: self.protection.mul(rhs.protection),
            quickness: self.quickness.mul(rhs.quickness),
            regeneration: self.regeneration.mul(rhs.regeneration),
            resistance: self.resistance.mul(rhs.resistance),
            resolution: self.resolution.mul(rhs.resolution),
            stability: self.stability.mul(rhs.stability),
            swiftness: self.swiftness.mul(rhs.swiftness),
            vigor: self.vigor.mul(rhs.vigor),
        }
    }

    /// Product, entry by entry.
    #[verifier::when_used_as_spec(spec_mul)]
    pub fn mul(self, rhs: PerBoon<Fixed>) -> (r: PerBoon<Fixed>)
        ensures
            r == self.spec_mul(rhs),
    {
        PerBoon {
            aegis: self.aegis.mul(rhs.aegis),
            alacrity: self.alacrity.mul(rhs.alacrity),
            fury: self.fury.mul(rhs.fury),
            might: self.might.mul(rhs.might),
            protection: self.protection.mul(rhs.protection),
            quickness: self.quickness.mul(rhs.quickness),
            regeneration: self.regeneration.mul(rhs.regeneration),
            resistance: self.resistance.mul(rhs.resistance),
            resolution: self.resolution.mul(rhs.resolution),
            stability: self.stability.mul(rhs.stability),
            swiftness: self.swiftness.mul(rhs.swiftness),
            vigor: self.vigor.mul(rhs.vigor),
        }
    }

    /// Quotient, entry by entry.
    pub open spec fn spec_div(self, rhs: PerBoon<Fixed>) -> PerBoon<Fixed> {
        PerBoon {
            aegis: self.aegis.div(rhs.aegis),
            alacrity: self.alacrity.div(rhs.alacrity),
            fury: self.fury.div(rhs.fury),
            might: self.might.div(rhs.might),
            protection: self.protection.div(rhs.protection),
            quickness: self.quickness.div(rhs.quickness),
            regeneration: self.regeneration.div(rhs.regeneration),
            resistance: self.resistance.div(rhs.resistance),
            resolution: self.resolution.div(rhs.resolution),
            stability: self.stability.div(rhs.stability),
            swiftness: self.swiftness.div(rhs.swiftness),
            vigor: self.vigor.div(rhs.vigor),
        }
    }

    /// Quotient, entry by entry.
    #[verifier::when_used_as_spec(spec_div)]
    pub fn div(self, rhs: PerBoon<Fixed>) -> (r: PerBoon<Fixed>)
        ensures
            r == self.spec_div(rhs),
    {
        PerBoon {
            aegis: self.aegis.div(rhs.aegis),
            alacrity: self.alacrity.div(rhs.alacrity),
            fury: self.fury.div(rhs.fury),
            might: self.might.div(rhs.might),
            protection: self.protection.div(rhs.protection),
            quickness: self.quickness.div(rhs.quickness),
            regeneration: self.regeneration.div(rhs.regeneration),
            resistance: self.resistance.div(rhs.resistance),
            resolution: self.resolution.div(rhs.resolution),
            stability: self.stability.div(rhs.stability),
            swiftness: self.swiftness.div(rhs.swiftness),
            vigor: self.vigor.div(rhs.vigor),
        }
    }

    /// Adds `x` to every entry.
    pub open spec fn spec_add_scalar(self, x: Fixed) -> PerBoon<Fixed> {
        PerBoon {
            aegis: self.aegis.add(x),
            alacrity: self.alacrity.add(x),
            fury: self.fury.add(x),
            might: self.might.add(x),
            protection: self.protection.add(x),
            quickness: self.quickness.add(x),
            regeneration: self.regeneration.add(x),
            resistance: self.resistance.add(x),
            resolution: self.resolution.add(x),
            stability: self.stability.add(x),
            swiftness: self.swiftness.add(x),
            vigor: self.vigor.add(x),
        }
    }

    /// Adds `x` to every entry.
    #[verifier::when_used_as_spec(spec_add_scalar)]
    pub fn add_scalar(self, x: Fixed) -> (r: PerBoon<Fixed>)
        ensures
            r == self.spec_add_scalar(x),
    {
        PerBoon {
            aegis: self.aegis.add(x),
            alacrity: self.alacrity.add(x),
            fury: self.fury.add(x),
            might: self.might.add(x),
            protection: self.protection.add(x),
            quickness: self.quickness.add(x),
            regeneration: self.regeneration.add(x),
            resistance: self.resistance.add(x),
            resolution: self.resolution.add(x),
            stability: self.stability.add(x),
            swiftness: self.swiftness.add(x),
            vigor: self.vigor.add(x),
        }
    }

    /// Multiplies every entry by `x`.
    pub open spec fn spec_scale(self, x: Fixed) -> PerBoon<Fixed> {
        PerBoon {
            aegis: self.aegis.mul(x),
            alacrity: self.alacrity.mul(x),
            fury: self.fury.mul(x),
            might: self.might.mul(x),
            protection: self.protection.mul(x),
            quickness: self.quickness.mul(x),
            regeneration: self.regeneration.mul(x),
            resistance: self.resistance.mul(x),
            resolution: self.resolution.mul(x),
            stability: self.stability.mul(x),
            swiftness: self.swiftness.mul(x),
            vigor: self.vigor.mul(x),
        }
    }

    /// Multiplies every entry by `x`.
    #[verifier::when_used_as_spec(spec_scale)]
    pub fn scale(self, x: Fixed) -> (r: PerBoon<Fixed>)
        ensures
            r == self.spec_scale(x),
    {
        PerBoon {
            aegis: self.aegis.mul(x),
            alacrity: self.alacrity.mul(x),
            fury: self.fury.mul(x),
            might: self.might.mul(x),
            protection: self.protection.mul(x),
            quickness: self.quickness.mul(x),
            regeneration: self.regeneration.mul(x),
            resistance: self.resistance.mul(x),
            resolution: self.resolution.mul(x),
            stability: self.stability.mul(x),
            swiftness: self.swiftness.mul(x),
            vigor: self.vigor.mul(x),
        }
    }

    /// Divides every entry by `x`.
    pub open spec fn spec_div_scalar(self, x: Fixed) -> PerBoon<Fixed> {
        PerBoon {
            aegis: self.aegis.div(x),
            alacrity: self.alacrity.div(x),
            fury: self.fury.div(x),
            might: self.might.div(x),
            protection: self.protection.div(x),
            quickness: self.quickness.div(x),
            regeneration: self.regeneration.div(x),
            resistance: self.resistance.div(x),
            resolution: self.resolution.div(x),
            stability: self.stability.div(x),
            swiftness: self.swiftness.div(x),
            vigor: self.vigor.div(x),
        }
    }

    /// Divides every entry by `x`.
    #[verifier::when_used_as_spec(spec_div_scalar)]
    pub fn div_scalar(self, x: Fixed) -> (r: PerBoon<Fixed>)
        ensures
            r == self.spec_div_scalar(x),
    {
        PerBoon {
            aegis: self.aegis.div(x),
            alacrity: self.alacrity.div(x),
            fury: self.fury.div(x),
            might: self.might.div(x),
            protection: self.protection.div(x),
            quickness: self.quickness.div(x),
            regeneration: self.regeneration.div(x),
            resistance: self.resistance.div(x),
            resolution: self.resolution.div(x),
            stability: self.stability.div(x),
            swiftness: self.swiftness.div(x),
            vigor: self.vigor.div(x),
        }
    }

    /// Sum of all entries, added in declaration order.
    pub open spec fn spec_sum(&self) -> Fixed {
        self.aegis
            .add(self.alacrity)
            .add(self.fury)
            .add(self.might)
            .add(self.protection)
            .add(self.quickness)
            .add(self.regeneration)
            .add(self.resistance)
            .add(self.resolution)
            .add(self.stability)
            .add(self.swiftness)
            .add(self.vigor)
    }

    /// Sum of all entries, added in declaration order.
    #[verifier::when_used_as_spec(spec_sum)]
    pub fn sum(&self) -> (r: Fixed)
        ensures
            r == self.spec_sum(),
    {
        self.aegis
            .add(self.alacrity)
            .add(self.fury)
            .add(self.might)
            .add(self.protection)
            .add(self.quickness)
            .add(self.regeneration)
            .add(self.resistance)
            .add(self.resolution)
            .add(self.stability)
            .add(self.swiftness)
            .add(self.vigor)
    }
}

/// The nine attributes of a character.
pub type Stats = PerStat<Fixed>;

/// Attributes of a character before any gear or effect is applied.
pub open spec fn spec_base_stats() -> Stats {
    PerStat {
        power: Fixed::from_int(1000),
        precision: Fixed::from_int(1000),
        ferocity: Fixed::zero(),
        condition_damage: Fixed::zero(),
        expertise: Fixed::zero(),
        vitality: Fixed::from_int(1000),
        toughness: Fixed::from_int(1000),
        healing_power: Fixed::zero(),
        concentration: Fixed::zero(),
    }
}

/// Attributes of a character before any gear or effect is applied.
#[verifier::when_used_as_spec(spec_base_stats)]
pub fn base_stats() -> (r: Stats)
    ensures
        r == spec_base_stats(),
{
    PerStat {
        power: Fixed::from_int(1000),
        precision: Fixed::from_int(1000),
        ferocity: Fixed::zero(),
        condition_damage: Fixed::zero(),
        expertise: Fixed::zero(),
        vitality: Fixed::from_int(1000),
        toughness: Fixed::from_int(1000),
        healing_power: Fixed::zero(),
        concentration: Fixed::zero(),
    }
}

/// Percentage modifiers.  Values are percentage increases, so a `strike_damage` of 5 means all
/// strike damage is multiplied by 1.05.
#[derive(Clone, Copy, Debug, PartialEq, Eq)]
pub struct Modifiers {
    pub strike_damage: Fixed,
    pub crit_chance: Fixed,
    /// Multiplicative increase to critical hit damage.  This is not equivalent to an increase in
    /// ferocity, but instead multiplies the final damage, similar to `strike_damage` but only for
    /// crits.
    pub crit_damage: Fixed,
    pub condition_damage: PerCondition<Fixed>,
    pub condition_duration: PerCondition<Fixed>,
    pub boon_duration: PerBoon<Fixed>,
    pub max_health: Fixed,
    /// Extra condition points per second provided by gear, as opposed to points that come from
    /// the skill rotation.  One point is one stack for one second.
    pub condition_points: PerCondition<Fixed>,
    /// Extra boon points per second provided by gear.
    pub boon_points: PerBoon<Fixed>,
}

impl Modifiers {
    /// The neutral modifiers: every entry zero.
    pub open spec fn neutral() -> Modifiers {
        Modifiers {
            strike_damage: Fixed::zero(),
            crit_chance: Fixed::zero(),
            crit_damage: Fixed::zero(),
            condition_damage: PerCondition::splat(Fixed::zero()),
            condition_duration: PerCondition::splat(Fixed::zero()),
            boon_duration: PerBoon::splat(Fixed::zero()),
            max_health: Fixed::zero(),
            condition_points: PerCondition::splat(Fixed::zero()),
            boon_points: PerBoon::splat(Fixed::zero()),
        }
    }
}

impl Default for Modifiers {
    /// The neutral modifiers.
    fn default() -> (r: Modifiers)
        ensures
            r == Modifiers::neutral(),
    {
        Modifiers {
            strike_damage: Fixed::zero(),
            crit_chance: Fixed::zero(),
            crit_damage: Fixed::zero(),
            condition_damage: PerCondition::splat(Fixed::zero()),
            condition_duration: PerCondition::splat(Fixed::zero()),
            boon_duration: PerBoon::splat(Fixed::zero()),
            max_health: Fixed::zero(),
            condition_points: PerCondition::splat(Fixed::zero()),
            boon_points: PerBoon::splat(Fixed::zero()),
        }
    }
}

impl Condition {
    /// Damage per stack per second: the flat part, and the part per point of condition damage.
    pub open spec fn spec_damage_params(self) -> (Fixed, Fixed) {
        match self {
            Condition::Bleed => (Fixed::from_int(22), Fixed::from_ratio(6, 100)),
            Condition::Burn => (Fixed::from_int(131), Fixed::from_ratio(155, 1000)),
            Condition::Confuse => (Fixed::from_int(11), Fixed::from_ratio(3, 100)),
            Condition::Poison => (Fixed::from_ratio(335, 10), Fixed::from_ratio(6, 100)),
            Condition::Torment => (Fixed::from_ratio(318, 10), Fixed::from_ratio(9, 100)),
        }
    }

    /// Damage per stack per second: the flat part, and the part per point of condition damage.
    #[verifier::when_used_as_spec(spec_damage_params)]
    pub fn damage_params(self) -> (r: (Fixed, Fixed))
        ensures
            r == self.spec_damage_params(),
    {
        match self {
            Condition::Bleed => (Fixed::from_int(22), Fixed::from_ratio(6, 100)),
            Condition::Burn => (Fixed::from_int(131), Fixed::from_ratio(155, 1000)),
            // Confusion, over time, against non-player foes.
            Condition::Confuse => (Fixed::from_int(11), Fixed::from_ratio(3, 100)),
            Condition::Poison => (Fixed::from_ratio(335, 10), Fixed::from_ratio(6, 100)),
            // Torment, while stationary, against non-player foes.
            Condition::Torment => (Fixed::from_ratio(318, 10), Fixed::from_ratio(9, 100)),
        }
    }
}

impl Boon {
    /// Largest number of stacks of the boon that can be held at once.
    pub open spec fn spec_max_stacks(self) -> Fixed {
        match self {
            Boon::Might => Fixed::from_int(25),
            _ => Fixed::from_int(1),
        }
    }

    /// Largest number of stacks of the boon that can be held at once.
    #[verifier::when_used_as_spec(spec_max_stacks)]
    pub fn max_stacks(self) -> (r: Fixed)
        ensures
            r == self.spec_max_stacks(),
    {
        match self {
            Boon::Might => Fixed::from_int(25),
            _ => Fixed::from_int(1),
        }
    }
}

/// Health pool class of a profession.
#[derive(Clone, Copy, Debug, PartialEq, Eq, Structural, Hash)]
pub enum HealthTier {
    Low,
    Mid,
    High,
}

impl HealthTier {
    /// Health of the tier at zero vitality.
    pub open spec fn spec_base_health(self) -> Fixed {
        match self {
            HealthTier::Low => Fixed::from_int(1645),
            HealthTier::Mid => Fixed::from_int(5922),
            HealthTier::High => Fixed::from_int(9212),
        }
    }

    /// Health of the tier at zero vitality.
    #[verifier::when_used_as_spec(spec_base_health)]
    pub fn base_health(self) -> (r: Fixed)
        ensures
            r == self.spec_base_health(),
    {
        match self {
            HealthTier::Low => Fixed::from_int(1645),
            HealthTier::Mid => Fixed::from_int(5922),
            HealthTier::High => Fixed::from_int(9212),
        }
    }
}

/// Armor class of a profession.
#[derive(Clone, Copy, Debug, PartialEq, Eq, Structural, Hash)]
pub enum ArmorWeight {
    Light,
    Medium,
    Heavy,
}

impl ArmorWeight {
    /// Defense of a full set of ascended armor of this weight.
    pub open spec fn spec_base_armor(self) -> Fixed {
        match self {
            ArmorWeight::Light => Fixed::from_int(967),
            ArmorWeight::Medium => Fixed::from_int(1118),
            ArmorWeight::Heavy => Fixed::from_int(1271),
        }
    }

    /// Defense of a full set of ascended armor of this weight.
    #[verifier::when_used_as_spec(spec_base_armor)]
    pub fn base_armor(self) -> (r: Fixed)
        ensures
            r == self.spec_base_armor(),
    {
        match self {
            ArmorWeight::Light => Fixed::from_int(967),
            ArmorWeight::Medium => Fixed::from_int(1118),
            ArmorWeight::Heavy => Fixed::from_int(1271),
        }
    }
}

impl PerStat<Fixed> {
    /// Chance of a critical hit, in percent: one point per 21 precision above 895, plus the
    /// modifier, limited to the range from 0 to 100.
    pub open spec fn spec_crit_chance(&self, mods: &Modifiers) -> Fixed {
        self.precision.sub(Fixed::from_int(895)).div(Fixed::from_int(21)).add(mods.crit_chance).clamp(
            Fixed::zero(),
            Fixed::from_int(100),
        )
    }

    /// Chance of a critical hit, in percent.
    #[verifier::when_used_as_spec(spec_crit_chance)]
    pub fn crit_chance(&self, mods: &Modifiers) -> (r: Fixed)
        ensures
            r == self.spec_crit_chance(mods),
            0 <= r.raw <= 100 * SCALE,
    {
        self.precision.sub(Fixed::from_int(895)).div(Fixed::from_int(21)).add(mods.crit_chance).clamp(
            Fixed::zero(),
            Fixed::from_int(100),
        )
    }

    /// Damage of one strike point: a tenth of power, scaled by the strike damage bonus and by
    /// the expected gain from critical hits.
    pub open spec fn spec_strike_factor(&self, mods: &Modifiers) -> Fixed {
        let hundred = Fixed::from_int(100);
        let damage = self.power.div(Fixed::from_int(10));
        let damage_bonus = Fixed::one().add(mods.strike_damage.div(hundred));
        let crit_chance = self.crit_chance(mods);
        let crit_damage = Fixed::from_int(150).add(self.ferocity.div(Fixed::from_int(15))).mul(
            Fixed::one().add(mods.crit_damage.div(hundred)),
        );
        let crit_factor = Fixed::one().add(
            crit_chance.div(hundred).mul(crit_damage.sub(hundred)).div(hundred),
        );
        damage.mul(damage_bonus).mul(crit_factor)
    }

    /// Damage of one strike point.
    #[verifier::when_used_as_spec(spec_strike_factor)]
    pub fn strike_factor(&self, mods: &Modifiers) -> (r: Fixed)
        ensures
            r == self.spec_strike_factor(mods),
    {
        let hundred = Fixed::from_int(100);
        let damage = self.power.div(Fixed::from_int(10));
        let damage_bonus = Fixed::one().add(mods.strike_damage.div(hundred));
        let crit_chance = self.crit_chance(mods);
        let crit_damage = Fixed::from_int(150).add(self.ferocity.div(Fixed::from_int(15))).mul(
            Fixed::one().add(mods.crit_damage.div(hundred)),
        );
        let crit_factor = Fixed::one().add(
            crit_chance.div(hundred).mul(crit_damage.sub(hundred)).div(hundred),
        );
        damage.mul(damage_bonus).mul(crit_factor)
    }

    /// Duration of a condition in percent of its base duration: 100, plus one point per 15
    /// expertise, plus the modifier, at most 200.
    pub open spec fn spec_condition_duration(&self, mods: &Modifiers, condi: Condition) -> Fixed {
        Fixed::from_int(100).add(self.expertise.div(Fixed::from_int(15))).add(
            mods.condition_duration.at(condi),
        ).min(Fixed::from_int(200))
    }

    /// Duration of a condition in percent of its base duration.
    #[verifier::when_used_as_spec(spec_condition_duration)]
    pub fn condition_duration(&self, mods: &Modifiers, condi: Condition) -> (r: Fixed)
        ensures
            r == self.spec_condition_duration(mods, condi),
            r.raw <= 200 * SCALE,
    {
        Fixed::from_int(100).add(self.expertise.div(Fixed::from_int(15))).add(
            *mods.condition_duration.get(condi),
        ).min(Fixed::from_int(200))
    }

    /// Damage of one condition point: the damage of a stack per second, scaled by the damage
    /// bonus and by the duration.
    pub open spec fn spec_condition_factor(&self, mods: &Modifiers, condi: Condition) -> Fixed {
        let hundred = Fixed::from_int(100);
        let params = condi.damage_params();
        let damage = params.0.add(params.1.mul(self.condition_damage));
        let damage_bonus = Fixed::one().add(mods.condition_damage.at(condi).div(hundred));
        let duration = self.condition_duration(mods, condi);
        damage.mul(damage_bonus).mul(duration).div(hundred)
    }

    /// Damage of one condition point.
    #[verifier::when_used_as_spec(spec_condition_factor)]
    pub fn condition_factor(&self, mods: &Modifiers, condi: Condition) -> (r: Fixed)
        ensures
            r == self.spec_condition_factor(mods, condi),
    {
        let hundred = Fixed::from_int(100);
        let params = condi.damage_params();
        let damage = params.0.add(params.1.mul(self.condition_damage));
        let damage_bonus = Fixed::one().add(mods.condition_damage.get(condi).div(hundred));
        let duration = self.condition_duration(mods, condi);
        damage.mul(damage_bonus).mul(duration).div(hundred)
    }

    /// Damage of one point of each condition.
    pub open spec fn spec_condition_factors(&self, mods: &Modifiers) -> PerCondition<Fixed> {
        PerCondition {
            bleed: self.condition_factor(mods, Condition::Bleed),
            burn: self.condition_factor(mods, Condition::Burn),
            confuse: self.condition_factor(mods, Condition::Confuse),
            poison: self.condition_factor(mods, Condition::Poison),
            torment: self.condition_factor(mods, Condition::Torment),
        }
    }

    /// Damage of one point of each condition.
    #[verifier::when_used_as_spec(spec_condition_factors)]
    pub fn condition_factors(&self, mods: &Modifiers) -> (r: PerCondition<Fixed>)
        ensures
            r == self.spec_condition_factors(mods),
    {
        PerCondition {
            bleed: self.condition_factor(mods, Condition::Bleed),
            burn: self.condition_factor(mods, Condition::Burn),
            confuse: self.condition_factor(mods, Condition::Confuse),
            poison: self.condition_factor(mods, Condition::Poison),
            torment: self.condition_factor(mods, Condition::Torment),
        }
    }

    /// Duration of a boon in percent of its base duration: 100, plus one point per 15
    /// concentration, plus the modifier, at most 200.
    pub open spec fn spec_boon_duration(&self, mods: &Modifiers, boon: Boon) -> Fixed {
        Fixed::from_int(100).add(self.concentration.div(Fixed::from_int(15))).add(
            mods.boon_duration.at(boon),
        ).min(Fixed::from_int(200))
    }

    /// Duration of a boon in percent of its base duration.
    #[verifier::when_used_as_spec(spec_boon_duration)]
    pub fn boon_duration(&self, mods: &Modifiers, boon: Boon) -> (r: Fixed)
        ensures
            r == self.spec_boon_duration(mods, boon),
            r.raw <= 200 * SCALE,
    {
        Fixed::from_int(100).add(self.concentration.div(Fixed::from_int(15))).add(
            *mods.boon_duration.get(boon),
        ).min(Fixed::from_int(200))
    }

    /// Duration of each boon in percent of its base duration.
    pub open spec fn spec_boon_durations(&self, mods: &Modifiers) -> PerBoon<Fixed> {
        PerBoon {
            aegis: self.boon_duration(mods, Boon::Aegis),
            alacrity: self.boon_duration(mods, Boon::Alacrity),
            fury: self.boon_duration(mods, Boon::Fury),
            might: self.boon_duration(mods, Boon::Might),
            protection: self.boon_duration(mods, Boon::Protection),
            quickness: self.boon_duration(mods, Boon::Quickness),
            regeneration: self.boon_duration(mods, Boon::Regeneration),
            resistance: self.boon_duration(mods, Boon::Resistance),
            resolution: self.boon_duration(mods, Boon::Resolution),
            stability: self.boon_duration(mods, Boon::Stability),
            swiftness: self.boon_duration(mods, Boon::Swiftness),
            vigor: self.boon_duration(mods, Boon::Vigor),
        }
    }

    /// Duration of each boon in percent of its base duration.
    #[verifier::when_used_as_spec(spec_boon_durations)]
    pub fn boon_durations(&self, mods: &Modifiers) -> (r: PerBoon<Fixed>)
        ensures
            r == self.spec_boon_durations(mods),
    {
        PerBoon {
            aegis: self.boon_duration(mods, Boon::Aegis),
            alacrity: self.boon_duration(mods, Boon::Alacrity),
            fury: self.boon_duration(mods, Boon::Fury),
            might: self.boon_duration(mods, Boon::Might),
            protection: self.boon_duration(mods, Boon::Protection),
            quickness: self.boon_duration(mods, Boon::Quickness),
            regeneration: self.boon_duration(mods, Boon::Regeneration),
            resistance: self.boon_duration(mods, Boon::Resistance),
            resolution: self.boon_duration(mods, Boon::Resolution),
            stability: self.boon_duration(mods, Boon::Stability),
            swiftness: self.boon_duration(mods, Boon::Swiftness),
            vigor: self.boon_duration(mods, Boon::Vigor),
        }
    }

    /// Heal per second of each stack of regeneration: 130 plus an eighth of healing power.
    pub open spec fn spec_regen_heal(&self, mods: &Modifiers) -> Fixed {
        Fixed::from_int(130).add(Fixed::from_ratio(125, 1000).mul(self.healing_power))
    }

    /// Heal per second of each stack of regeneration.
    #[verifier::when_used_as_spec(spec_regen_heal)]
    pub fn regen_heal(&self, mods: &Modifiers) -> (r: Fixed)
        ensures
            r == self.spec_regen_heal(mods),
    {
        Fixed::from_int(130).add(Fixed::from_ratio(125, 1000).mul(self.healing_power))
    }

    /// Health pool: the tier's base plus ten per point of vitality, scaled by the bonus.
    pub open spec fn spec_max_health(&self, mods: &Modifiers, tier: HealthTier) -> Fixed {
        let health = tier.base_health().add(self.vitality.mul(Fixed::from_int(10)));
        let health_bonus = Fixed::one().add(mods.max_health.div(Fixed::from_int(100)));
        health.mul(health_bonus)
    }

    /// Health pool.
    #[verifier::when_used_as_spec(spec_max_health)]
    pub fn max_health(&self, mods: &Modifiers, tier: HealthTier) -> (r: Fixed)
        ensures
            r == self.spec_max_health(mods, tier),
    {
        let health = tier.base_health().add(self.vitality.mul(Fixed::from_int(10)));
        let health_bonus = Fixed::one().add(mods.max_health.div(Fixed::from_int(100)));
        health.mul(health_bonus)
    }

    /// Armor: the defense of the armor class plus toughness.
    pub open spec fn spec_armor(&self, mods: &Modifiers, weight: ArmorWeight) -> Fixed {
        weight.base_armor().add(self.toughness)
    }

    /// Armor.
    #[verifier::when_used_as_spec(spec_armor)]
    pub fn armor(&self, mods: &Modifiers, weight: ArmorWeight) -> (r: Fixed)
        ensures
            r == self.spec_armor(mods, weight),
    {
        weight.base_armor().add(self.toughness)
    }
}

/// Every attribute of `a` is at most that of `b`.
pub open spec fn stats_le(a: Stats, b: Stats) -> bool {
    &&& a.power.raw <= b.power.raw
    &&& a.precision.raw <= b.precision.raw
    &&& a.ferocity.raw <= b.ferocity.raw
    &&& a.condition_damage.raw <= b.condition_damage.raw
    &&& a.expertise.raw <= b.expertise.raw
    &&& a.vitality.raw <= b.vitality.raw
    &&& a.toughness.raw <= b.toughness.raw
    &&& a.healing_power.raw <= b.healing_power.raw
    &&& a.concentration.raw <= b.concentration.raw
}

/// No attribute is negative.
pub open spec fn stats_nonneg(a: Stats) -> bool {
    stats_le(PerStat::splat(Fixed::zero()), a)
}

/// Attribute by attribute, the larger of the two.
pub open spec fn spec_stats_max(a: Stats, b: Stats) -> Stats {
    PerStat {
        power: a.power.max(b.power),
        precision: a.precision.max(b.precision),
        ferocity: a.ferocity.max(b.ferocity),
        condition_damage: a.condition_damage.max(b.condition_damage),
        expertise: a.expertise.max(b.expertise),
        vitality: a.vitality.max(b.vitality),
        toughness: a.toughness.max(b.toughness),
        healing_power: a.healing_power.max(b.healing_power),
        concentration: a.concentration.max(b.concentration),
    }
}

/// Attribute by attribute, the larger of the two.
#[verifier::when_used_as_spec(spec_stats_max)]
pub fn stats_max(a: Stats, b: Stats) -> (r: Stats)
    ensures
        r == spec_stats_max(a, b),
{
    PerStat {
        power: a.power.max(b.power),
        precision: a.precision.max(b.precision),
        ferocity: a.ferocity.max(b.ferocity),
        condition_damage: a.condition_damage.max(b.condition_damage),
        expertise: a.expertise.max(b.expertise),
        vitality: a.vitality.max(b.vitality),
        toughness: a.toughness.max(b.toughness),
        healing_power: a.healing_power.max(b.healing_power),
        concentration: a.concentration.max(b.concentration),
    }
}

/// Every attribute rounded to the nearest whole number.
pub open spec fn spec_stats_round(a: Stats) -> Stats {
    PerStat {
        power: a.power.round(),
        precision: a.precision.round(),
        ferocity: a.ferocity.round(),
        condition_damage: a.condition_damage.round(),
        expertise: a.expertise.round(),
        vitality: a.vitality.round(),
        toughness: a.toughness.round(),
        healing_power: a.healing_power.round(),
        concentration: a.concentration.round(),
    }
}

/// Every attribute rounded to the nearest whole number.
#[verifier::when_used_as_spec(spec_stats_round)]
pub fn stats_round(a: Stats) -> (r: Stats)
    ensures
        r == spec_stats_round(a),
{
    PerStat {
        power: a.power.round(),
        precision: a.precision.round(),
        ferocity: a.ferocity.round(),
        condition_damage: a.condition_damage.round(),
        expertise: a.expertise.round(),
        vitality: a.vitality.round(),
        toughness: a.toughness.round(),
        healing_power: a.healing_power.round(),
        concentration: a.concentration.round(),
    }
}

/// Among attributes that are not negative, a sum is bounded by the sum of bounds of its terms,
/// however the terms are grouped.
pub proof fn lemma_stats_add_regroup(g: Stats, t: Stats, r: Stats, s: Stats)
    requires
        stats_nonneg(g),
        stats_nonneg(t),
        stats_nonneg(r),
        stats_le(t, s),
    ensures
        stats_le(g.add(t).add(r), g.add(r.add(s))),
{
}

/// The chance of a critical hit stays between 0 and 100 percent, whatever the precision and the
/// modifier are.
pub proof fn lemma_crit_chance_bounded(stats: Stats, mods: Modifiers)
    ensures
        0 <= stats.crit_chance(&mods).raw <= 100 * SCALE,
{
}

/// Condition and boon durations never exceed 200 percent.
pub proof fn lemma_durations_capped(stats: Stats, mods: Modifiers, condi: Condition, boon: Boon)
    ensures
        stats.condition_duration(&mods, condi).raw <= 200 * SCALE,
        stats.boon_duration(&mods, boon).raw <= 200 * SCALE,
{
}

/// No entry is negative.
pub open spec fn conditions_nonneg(p: PerCondition<Fixed>) -> bool {
    &&& 0 <= p.bleed.raw
    &&& 0 <= p.burn.raw
    &&& 0 <= p.confuse.raw
    &&& 0 <= p.poison.raw
    &&& 0 <= p.torment.raw
}

/// No entry is negative.
pub open spec fn boons_nonneg(p: PerBoon<Fixed>) -> bool {
    &&& 0 <= p.aegis.raw
    &&& 0 <= p.alacrity.raw
    &&& 0 <= p.fury.raw
    &&& 0 <= p.might.raw
    &&& 0 <= p.protection.raw
    &&& 0 <= p.quickness.raw
    &&& 0 <= p.regeneration.raw
    &&& 0 <= p.resistance.raw
    &&& 0 <= p.resolution.raw
    &&& 0 <= p.stability.raw
    &&& 0 <= p.swiftness.raw
    &&& 0 <= p.vigor.raw
}

/// The modifiers only ever help: no entry is negative.
pub open spec fn mods_nonneg(m: Modifiers) -> bool {
    &&& 0 <= m.strike_damage.raw
    &&& 0 <= m.crit_chance.raw
    &&& 0 <= m.crit_damage.raw
    &&& conditions_nonneg(m.condition_damage)
    &&& conditions_nonneg(m.condition_duration)
    &&& boons_nonneg(m.boon_duration)
    &&& 0 <= m.max_health.raw
    &&& conditions_nonneg(m.condition_points)
    &&& boons_nonneg(m.boon_points)
}

/// More precision never lowers the chance of a critical hit.
pub proof fn lemma_crit_chance_monotone(s: Stats, t: Stats, m: Modifiers)
    requires
        s.precision.raw <= t.precision.raw,
    ensures
        s.crit_chance(&m).raw <= t.crit_chance(&m).raw,
{
    let floor = Fixed::from_int(895);
    lemma_div_monotone(s.precision.sub(floor), t.precision.sub(floor), Fixed::from_int(21));
}

/// More of any attribute never lowers the damage of a strike point, and the damage is not
/// negative, where no attribute is negative and the modifiers of strikes are not.
pub proof fn lemma_strike_factor_monotone(s: Stats, t: Stats, m: Modifiers)
    requires
        stats_nonneg(s),
        stats_le(s, t),
        0 <= m.strike_damage.raw,
        0 <= m.crit_damage.raw,
    ensures
        0 <= s.strike_factor(&m).raw <= t.strike_factor(&m).raw,
{
    let hundred = Fixed::from_int(100);
    let fifteen = Fixed::from_int(15);
    lemma_div_monotone(s.power, t.power, Fixed::from_int(10));
    let damage_s = s.power.div(Fixed::from_int(10));
    let damage_t = t.power.div(Fixed::from_int(10));
    lemma_div_monotone(Fixed::zero(), m.strike_damage, hundred);
    let damage_bonus = Fixed::one().add(m.strike_damage.div(hundred));
    assert(damage_bonus.raw >= SCALE);

    lemma_crit_chance_monotone(s, t, m);
    let chance_s = s.crit_chance(&m).div(hundred);
    let chance_t = t.crit_chance(&m).div(hundred);
    lemma_div_monotone(s.crit_chance(&m), t.crit_chance(&m), hundred);

    lemma_div_monotone(s.ferocity, t.ferocity, fifteen);
    let base_s = Fixed::from_int(150).add(s.ferocity.div(fifteen));
    let base_t = Fixed::from_int(150).add(t.ferocity.div(fifteen));
    lemma_div_monotone(Fixed::zero(), m.crit_damage, hundred);
    let crit_bonus = Fixed::one().add(m.crit_damage.div(hundred));
    assert(crit_bonus.raw >= SCALE);
    lemma_mul_monotone(Fixed::from_int(150), Fixed::one(), base_s, crit_bonus);
    lemma_mul_monotone(base_s, crit_bonus, base_t, crit_bonus);
    assert(Fixed::from_int(150).mul(Fixed::one()).raw == 150 * SCALE) by {
        let x = Fixed::from_int(150).raw * Fixed::one().raw;
        assert(x == 150_000_000_000_000int) by (nonlinear_arith)
            requires
                x == 150_000_000int * 1_000_000int,
        ;
        assert(150_000_000_000_000int / 1_000_000int == 150_000_000int) by (nonlinear_arith);
    }
    let gain_s = base_s.mul(crit_bonus).sub(hundred);
    let gain_t = base_t.mul(crit_bonus).sub(hundred);
    assert(0 <= gain_s.raw <= gain_t.raw);
    lemma_mul_monotone(chance_s, gain_s, chance_t, gain_t);
    lemma_div_monotone(chance_s.mul(gain_s), chance_t.mul(gain_t), hundred);
    let factor_s = Fixed::one().add(chance_s.mul(gain_s).div(hundred));
    let factor_t = Fixed::one().add(chance_t.mul(gain_t).div(hundred));
    assert(0 <= factor_s.raw <= factor_t.raw);

    lemma_mul_monotone(damage_s, damage_bonus, damage_t, damage_bonus);
    lemma_mul_monotone(
        damage_s.mul(damage_bonus),
        factor_s,
        damage_t.mul(damage_bonus),
        factor_t,
    );
}

/// The damage parameters of a condition are not negative.
pub proof fn lemma_damage_params_nonneg(condi: Condition)
    ensures
        0 <= condi.damage_params().0.raw,
        0 <= condi.damage_params().1.raw,
{
}

/// More expertise never shortens a condition, and its duration is not negative, where
/// neither the expertise nor the modifier is.
pub proof fn lemma_condition_duration_monotone(s: Stats, t: Stats, m: Modifiers, condi: Condition)
    requires
        0 <= s.expertise.raw <= t.expertise.raw,
        0 <= m.condition_duration.at(condi).raw,
    ensures
        0 <= s.condition_duration(&m, condi).raw <= t.condition_duration(&m, condi).raw,
{
    lemma_div_monotone(s.expertise, t.expertise, Fixed::from_int(15));
}

/// More concentration never shortens a boon, and its duration is not negative, where neither
/// the concentration nor the modifier is.
pub proof fn lemma_boon_duration_monotone(s: Stats, t: Stats, m: Modifiers, boon: Boon)
    requires
        0 <= s.concentration.raw <= t.concentration.raw,
        0 <= m.boon_duration.at(boon).raw,
    ensures
        0 <= s.boon_duration(&m, boon).raw <= t.boon_duration(&m, boon).raw,
{
    lemma_div_monotone(s.concentration, t.concentration, Fixed::from_int(15));
}

/// More of any attribute never lowers the damage of a condition point, and the damage is not
/// negative, where no attribute is negative and the modifiers of the condition are not.
pub proof fn lemma_condition_factor_monotone(s: Stats, t: Stats, m: Modifiers, condi: Condition)
    requires
        stats_nonneg(s),
        stats_le(s, t),
        0 <= m.condition_damage.at(condi).raw,
        0 <= m.condition_duration.at(condi).raw,
    ensures
        0 <= s.condition_factor(&m, condi).raw <= t.condition_factor(&m, condi).raw,
{
    let hundred = Fixed::from_int(100);
    let params = condi.damage_params();
    lemma_damage_params_nonneg(condi);
    lemma_mul_monotone(params.1, s.condition_damage, params.1, t.condition_damage);
    let damage_s = params.0.add(params.1.mul(s.condition_damage));
    let damage_t = params.0.add(params.1.mul(t.condition_damage));
    assert(0 <= damage_s.raw <= damage_t.raw);
    lemma_div_monotone(Fixed::zero(), m.condition_damage.at(condi), hundred);
    let damage_bonus = Fixed::one().add(m.condition_damage.at(condi).div(hundred));
    assert(damage_bonus.raw >= SCALE);
    lemma_condition_duration_monotone(s, t, m, condi);
    let duration_s = s.condition_duration(&m, condi);
    let duration_t = t.condition_duration(&m, condi);
    lemma_mul_monotone(damage_s, damage_bonus, damage_t, damage_bonus);
    lemma_mul_monotone(
        damage_s.mul(damage_bonus),
        duration_s,
        damage_t.mul(damage_bonus),
        duration_t,
    );
    lemma_div_monotone(
        damage_s.mul(damage_bonus).mul(duration_s),
        damage_t.mul(damage_bonus).mul(duration_t),
        hundred,
    );
}

} // verus!
