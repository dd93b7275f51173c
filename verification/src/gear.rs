//! Gear slots, item qualities, prefixes and the catalog that holds them.

use crate::fixed::{lemma_div_nonneg, lemma_mul_monotone, lemma_round_nonneg, Fixed};
use crate::stats::{stats_nonneg, stats_round, PerStat, Stats};
use vstd::prelude::*;

verus! {

/// A place where a piece of gear is worn.
#[derive(Clone, Copy, Debug, PartialEq, Eq, Structural, Hash)]
pub enum GearSlot {
    Weapon1H,
    Weapon2H,
    Helm,
    Shoulders,
    Coat,
    Gloves,
    Leggings,
    Boots,
    Amulet,
    Ring1,
    Ring2,
    Accessory1,
    Accessory2,
    Backpack,
}

/// One value per gear slot.
#[derive(Clone, Copy, Debug, PartialEq, Eq, Hash)]
pub struct PerGearSlot<T> {
    pub weapon_1h: T,
    pub weapon_2h: T,
    pub helm: T,
    pub shoulders: T,
    pub coat: T,
    pub gloves: T,
    pub leggings: T,
    pub boots: T,
    pub amulet: T,
    pub ring1: T,
    pub ring2: T,
    pub accessory1: T,
    pub accessory2: T,
    pub backpack: T,
}

impl GearSlot {
    /// Number of variants.
    pub const COUNT: usize = 14;

    /// Position of the variant in declaration order.
    pub open spec fn spec_index(self) -> usize {
        match self {
            GearSlot::Weapon1H => 0,
            GearSlot::Weapon2H => 1,
            GearSlot::Helm => 2,
            GearSlot::Shoulders => 3,
            GearSlot::Coat => 4,
            GearSlot::Gloves => 5,
            GearSlot::Leggings => 6,
            GearSlot::Boots => 7,
            GearSlot::Amulet => 8,
            GearSlot::Ring1 => 9,
            GearSlot::Ring2 => 10,
            GearSlot::Accessory1 => 11,
            GearSlot::Accessory2 => 12,
            GearSlot::Backpack => 13,
        }
    }

    /// Position of the variant in declaration order.
    #[verifier::when_used_as_spec(spec_index)]
    pub fn index(self) -> (i: usize)
        ensures
            i == self.spec_index(),
            i < GearSlot::COUNT,
    {
        match self {
            GearSlot::Weapon1H => 0,
            GearSlot::Weapon2H => 1,
            GearSlot::Helm => 2,
            GearSlot::Shoulders => 3,
            GearSlot::Coat => 4,
            GearSlot::Gloves => 5,
            GearSlot::Leggings => 6,
            GearSlot::Boots => 7,
            GearSlot::Amulet => 8,
            GearSlot::Ring1 => 9,
            GearSlot::Ring2 => 10,
            GearSlot::Accessory1 => 11,
            GearSlot::Accessory2 => 12,
            GearSlot::Backpack => 13,
        }
    }

    /// The variant at position `i`; the last one where `i` is past the end.
    pub open spec fn spec_from_index(i: usize) -> GearSlot {
        if i == 0 {
            GearSlot::Weapon1H
        } else if i == 1 {
            GearSlot::Weapon2H
        } else if i == 2 {
            GearSlot::Helm
        } else if i == 3 {
            GearSlot::Shoulders
        } else if i == 4 {
            GearSlot::Coat
        } else if i == 5 {
            GearSlot::Gloves
        } else if i == 6 {
            GearSlot::Leggings
        } else if i == 7 {
            GearSlot::Boots
        } else if i == 8 {
            GearSlot::Amulet
        } else if i == 9 {
            GearSlot::Ring1
        } else if i == 10 {
            GearSlot::Ring2
        } else if i == 11 {
            GearSlot::Accessory1
        } else if i == 12 {
            GearSlot::Accessory2
        } else {
            GearSlot::Backpack
        }
    }

    /// The variant at position `i`.
    #[verifier::when_used_as_spec(spec_from_index)]
    pub fn from_index(i: usize) -> (r: GearSlot)
        requires
            i < GearSlot::COUNT,
        ensures
            r == GearSlot::spec_from_index(i),
            r.spec_index() == i,
    {
        if i == 0 {
            GearSlot::Weapon1H
        } else if i == 1 {
            GearSlot::Weapon2H
        } else if i == 2 {
            GearSlot::Helm
        } else if i == 3 {
            GearSlot::Shoulders
        } else if i == 4 {
            GearSlot::Coat
        } else if i == 5 {
            GearSlot::Gloves
        } else if i == 6 {
            GearSlot::Leggings
        } else if i == 7 {
            GearSlot::Boots
        } else if i == 8 {
            GearSlot::Amulet
        } else if i == 9 {
            GearSlot::Ring1
        } else if i == 10 {
            GearSlot::Ring2
        } else if i == 11 {
            GearSlot::Accessory1
        } else if i == 12 {
            GearSlot::Accessory2
        } else {
            GearSlot::Backpack
        }
    }
}

impl<T> PerGearSlot<T> {
    /// The entry for `key`.
    pub open spec fn at(self, key: GearSlot) -> T {
        match key {
            GearSlot::Weapon1H => self.weapon_1h,
            GearSlot::Weapon2H => self.weapon_2h,
            GearSlot::Helm => self.helm,
            GearSlot::Shoulders => self.shoulders,
            GearSlot::Coat => self.coat,
            GearSlot::Gloves => self.gloves,
            GearSlot::Leggings => self.leggings,
            GearSlot::Boots => self.boots,
            GearSlot::Amulet => self.amulet,
            GearSlot::Ring1 => self.ring1,
            GearSlot::Ring2 => self.ring2,
            GearSlot::Accessory1 => self.accessory1,
            GearSlot::Accessory2 => self.accessory2,
            GearSlot::Backpack => self.backpack,
        }
    }

    /// `self` with the entry for `key` replaced by `value`.
    pub open spec fn with(self, key: GearSlot, value: T) -> PerGearSlot<T> {
        match key {
            GearSlot::Weapon1H => (PerGearSlot { weapon_1h: value, ..self }),
            GearSlot::Weapon2H => (PerGearSlot { weapon_2h: value, ..self }),
            GearSlot::Helm => (PerGearSlot { helm: value, ..self }),
            GearSlot::Shoulders => (PerGearSlot { shoulders: value, ..self }),
            GearSlot::Coat => (PerGearSlot { coat: value, ..self }),
            GearSlot::Gloves => (PerGearSlot { gloves: value, ..self }),
            GearSlot::Leggings => (PerGearSlot { leggings: value, ..self }),
            GearSlot::Boots => (PerGearSlot { boots: value, ..self }),
            GearSlot::Amulet => (PerGearSlot { amulet: value, ..self }),
            GearSlot::Ring1 => (PerGearSlot { ring1: value, ..self }),
            GearSlot::Ring2 => (PerGearSlot { ring2: value, ..self }),
            GearSlot::Accessory1 => (PerGearSlot { accessory1: value, ..self }),
            GearSlot::Accessory2 => (PerGearSlot { accessory2: value, ..self }),
            GearSlot::Backpack => (PerGearSlot { backpack: value, ..self }),
        }
    }

    /// Builds a value by asking `f` for each entry, in declaration order.
    pub fn from_fn<F: Fn(GearSlot) -> T>(f: F) -> (r: PerGearSlot<T>)
        requires
            forall|key: GearSlot| #[trigger] f.requires((key,)),
        ensures
            forall|key: GearSlot| #[trigger] f.ensures((key,), r.at(key)),
    {
        let r = PerGearSlot {
            weapon_1h: f(GearSlot::Weapon1H),
            weapon_2h: f(GearSlot::Weapon2H),
            helm: f(GearSlot::Helm),
            shoulders: f(GearSlot::Shoulders),
            coat: f(GearSlot::Coat),
            gloves: f(GearSlot::Gloves),
            leggings: f(GearSlot::Leggings),
            boots: f(GearSlot::Boots),
            amulet: f(GearSlot::Amulet),
            ring1: f(GearSlot::Ring1),
            ring2: f(GearSlot::Ring2),
            accessory1: f(GearSlot::Accessory1),
            accessory2: f(GearSlot::Accessory2),
            backpack: f(GearSlot::Backpack),
        };
        assert forall|key: GearSlot| #[trigger] f.ensures((key,), r.at(key)) by {
            match key {
                GearSlot::Weapon1H => {},
                GearSlot::Weapon2H => {},
                GearSlot::Helm => {},
                GearSlot::Shoulders => {},
                GearSlot::Coat => {},
                GearSlot::Gloves => {},
                GearSlot::Leggings => {},
                GearSlot::Boots => {},
                GearSlot::Amulet => {},
                GearSlot::Ring1 => {},
                GearSlot::Ring2 => {},
                GearSlot::Accessory1 => {},
                GearSlot::Accessory2 => {},
                GearSlot::Backpack => {},
            }
        }
        r
    }

    /// Applies `f` to each entry together with its key, in declaration order.
    pub fn map<U, F: Fn(GearSlot, T) -> U>(self, f: F) -> (r: PerGearSlot<U>)
        requires
            forall|key: GearSlot| #[trigger] f.requires((key, self.at(key))),
        ensures
            forall|key: GearSlot| #[trigger] f.ensures((key, self.at(key)), r.at(key)),
    {
        assert(f.requires((GearSlot::Weapon1H, self.at(GearSlot::Weapon1H))));
        assert(f.requires((GearSlot::Weapon2H, self.at(GearSlot::Weapon2H))));
        assert(f.requires((GearSlot::Helm, self.at(GearSlot::Helm))));
        assert(f.requires((GearSlot::Shoulders, self.at(GearSlot::Shoulders))));
        assert(f.requires((GearSlot::Coat, self.at(GearSlot::Coat))));
        assert(f.requires((GearSlot::Gloves, self.at(GearSlot::Gloves))));
        assert(f.requires((GearSlot::Leggings, self.at(GearSlot::Leggings))));
        assert(f.requires((GearSlot::Boots, self.at(GearSlot::Boots))));
        assert(f.requires((GearSlot::Amulet, self.at(GearSlot::Amulet))));
        assert(f.requires((GearSlot::Ring1, self.at(GearSlot::Ring1))));
        assert(f.requires((GearSlot::Ring2, self.at(GearSlot::Ring2))));
        assert(f.requires((GearSlot::Accessory1, self.at(GearSlot::Accessory1))));
        assert(f.requires((GearSlot::Accessory2, self.at(GearSlot::Accessory2))));
        assert(f.requires((GearSlot::Backpack, self.at(GearSlot::Backpack))));
        let ghost before = self;
        let r = PerGearSlot {
            weapon_1h: f(GearSlot::Weapon1H, self.weapon_1h),
            weapon_2h: f(GearSlot::Weapon2H, self.weapon_2h),
            helm: f(GearSlot::Helm, self.helm),
            shoulders: f(GearSlot::Shoulders, self.shoulders),
            coat: f(GearSlot::Coat, self.coat),
            gloves: f(GearSlot::Gloves, self.gloves),
            leggings: f(GearSlot::Leggings, self.leggings),
            boots: f(GearSlot::Boots, self.boots),
            amulet: f(GearSlot::Amulet, self.amulet),
            ring1: f(GearSlot::Ring1, self.ring1),
            ring2: f(GearSlot::Ring2, self.ring2),
            accessory1: f(GearSlot::Accessory1, self.accessory1),
            accessory2: f(GearSlot::Accessory2, self.accessory2),
            backpack: f(GearSlot::Backpack, self.backpack),
        };
        assert forall|key: GearSlot| #[trigger] f.ensures((key, before.at(key)), r.at(key)) by {
            match key {
                GearSlot::Weapon1H => {},
                GearSlot::Weapon2H => {},
                GearSlot::Helm => {},
                GearSlot::Shoulders => {},
                GearSlot::Coat => {},
                GearSlot::Gloves => {},
                GearSlot::Leggings => {},
                GearSlot::Boots => {},
                GearSlot::Amulet => {},
                GearSlot::Ring1 => {},
                GearSlot::Ring2 => {},
                GearSlot::Accessory1 => {},
                GearSlot::Accessory2 => {},
                GearSlot::Backpack => {},
            }
        }
        r
    }

    /// The entry for `key`.
    pub fn get(&self, key: GearSlot) -> (r: &T)
        ensures
            *r == self.at(key),
    {
        match key {
            GearSlot::Weapon1H => &self.weapon_1h,
            GearSlot::Weapon2H => &self.weapon_2h,
            GearSlot::Helm => &self.helm,
            GearSlot::Shoulders => &self.shoulders,
            GearSlot::Coat => &self.coat,
            GearSlot::Gloves => &self.gloves,
            GearSlot::Leggings => &self.leggings,
            GearSlot::Boots => &self.boots,
            GearSlot::Amulet => &self.amulet,
            GearSlot::Ring1 => &self.ring1,
            GearSlot::Ring2 => &self.ring2,
            GearSlot::Accessory1 => &self.accessory1,
            GearSlot::Accessory2 => &self.accessory2,
            GearSlot::Backpack => &self.backpack,
        }
    }

    /// Replaces the entry for `key`.
    pub fn set(&mut self, key: GearSlot, value: T)
        ensures
            *final(self) == old(self).with(key, value),
    {
        match key {
            GearSlot::Weapon1H => {
                self.weapon_1h = value;
            },
            GearSlot::Weapon2H => {
                self.weapon_2h = value;
            },
            GearSlot::Helm => {
                self.helm = value;
            },
            GearSlot::Shoulders => {
                self.shoulders = value;
            },
            GearSlot::Coat => {
                self.coat = value;
            },
            GearSlot::Gloves => {
                self.gloves = value;
            },
            GearSlot::Leggings => {
                self.leggings = value;
            },
            GearSlot::Boots => {
                self.boots = value;
            },
            GearSlot::Amulet => {
                self.amulet = value;
            },
            GearSlot::Ring1 => {
                self.ring1 = value;
            },
            GearSlot::Ring2 => {
                self.ring2 = value;
            },
            GearSlot::Accessory1 => {
                self.accessory1 = value;
            },
            GearSlot::Accessory2 => {
                self.accessory2 = value;
            },
            GearSlot::Backpack => {
                self.backpack = value;
            },
        }
    }
}

impl<T: Copy> PerGearSlot<T> {
    /// The value whose every entry is `x`.
    pub open spec fn spec_splat(x: T) -> PerGearSlot<T> {
        PerGearSlot {
            weapon_1h: x,
            weapon_2h: x,
            helm: x,
            shoulders: x,
            coat: x,
            gloves: x,
            leggings: x,
            boots: x,
            amulet: x,
            ring1: x,
            ring2: x,
            accessory1: x,
            accessory2: x,
            backpack: x,
        }
    }

    /// The value whose every entry is `x`.
    #[verifier::when_used_as_spec(spec_splat)]
    pub fn splat(x: T) -> (r: PerGearSlot<T>)
        ensures
            r == PerGearSlot::spec_splat(x),
    {
        PerGearSlot {
            weapon_1h: x,
            weapon_2h: x,
            helm: x,
            shoulders: x,
            coat: x,
            gloves: x,
            leggings: x,
            boots: x,
            amulet: x,
            ring1: x,
            ring2: x,
            accessory1: x,
            accessory2: x,
            backpack: x,
        }
    }
}

/// Quality of a piece of gear.
#[derive(Clone, Copy, Debug, PartialEq, Eq, Structural, Hash)]
pub enum Quality {
    Exotic,
    Ascended,
}

/// One value per item quality.
#[derive(Clone, Copy, Debug, PartialEq, Eq, Hash)]
pub struct PerQuality<T> {
    pub exotic: T,
    pub ascended: T,
}

impl Quality {
    /// Number of variants.
    pub const COUNT: usize = 2;

    /// Position of the variant in declaration order.
    pub open spec fn spec_index(self) -> usize {
        match self {
            Quality::Exotic => 0,
            Quality::Ascended => 1,
        }
    }

    /// Position of the variant in declaration order.
    #[verifier::when_used_as_spec(spec_index)]
    pub fn index(self) -> (i: usize)
        ensures
            i == self.spec_index(),
            i < Quality::COUNT,
    {
        match self {
            Quality::Exotic => 0,
            Quality::Ascended => 1,
        }
    }

    /// The variant at position `i`; the last one where `i` is past the end.
    pub open spec fn spec_from_index(i: usize) -> Quality {
        if i == 0 {
            Quality::Exotic
        } else {
            Quality::Ascended
        }
    }

    /// The variant at position `i`.
    #[verifier::when_used_as_spec(spec_from_index)]
    pub fn from_index(i: usize) -> (r: Quality)
        requires
            i < Quality::COUNT,
        ensures
            r == Quality::spec_from_index(i),
            r.spec_index() == i,
    {
        if i == 0 {
            Quality::Exotic
        } else {
            Quality::Ascended
        }
    }
}

impl<T> PerQuality<T> {
    /// The entry for `key`.
    pub open spec fn at(self, key: Quality) -> T {
        match key {
            Quality::Exotic => self.exotic,
            Quality::Ascended => self.ascended,
        }
    }

    /// `self` with the entry for `key` replaced by `value`.
    pub open spec fn with(self, key: Quality, value: T) -> PerQuality<T> {
        match key {
            Quality::Exotic => (PerQuality { exotic: value, ..self }),
            Quality::Ascended => (PerQuality { ascended: value, ..self }),
        }
    }

    /// Builds a value by asking `f` for each entry, in declaration order.
    pub fn from_fn<F: Fn(Quality) -> T>(f: F) -> (r: PerQuality<T>)
        requires
            forall|key: Quality| #[trigger] f.requires((key,)),
        ensures
            forall|key: Quality| #[trigger] f.ensures((key,), r.at(key)),
    {
        let r = PerQuality {
            exotic: f(Quality::Exotic),
            ascended: f(Quality::Ascended),
        };
        assert forall|key: Quality| #[trigger] f.ensures((key,), r.at(key)) by {
            match key {
                Quality::Exotic => {},
                Quality::Ascended => {},
            }
        }
        r
    }

    /// Applies `f` to each entry together with its key, in declaration order.
    pub fn map<U, F: Fn(Quality, T) -> U>(self, f: F) -> (r: PerQuality<U>)
        requires
            forall|key: Quality| #[trigger] f.requires((key, self.at(key))),
        ensures
            forall|key: Quality| #[trigger] f.ensures((key, self.at(key)), r.at(key)),
    {
        assert(f.requires((Quality::Exotic, self.at(Quality::Exotic))));
        assert(f.requires((Quality::Ascended, self.at(Quality::Ascended))));
        let ghost before = self;
        let r = PerQuality {
            exotic: f(Quality::Exotic, self.exotic),
            ascended: f(Quality::Ascended, self.ascended),
        };
        assert forall|key: Quality| #[trigger] f.ensures((key, before.at(key)), r.at(key)) by {
            match key {
                Quality::Exotic => {},
                Quality::Ascended => {},
            }
        }
        r
    }

    /// The entry for `key`.
    pub fn get(&self, key: Quality) -> (r: &T)
        ensures
            *r == self.at(key),
    {
        match key {
            Quality::Exotic => &self.exotic,
            Quality::Ascended => &self.ascended,
        }
    }

    /// Replaces the entry for `key`.
    pub fn set(&mut self, key: Quality, value: T)
        ensures
            *final(self) == old(self).with(key, value),
    {
        match key {
            Quality::Exotic => {
                self.exotic = value;
            },
            Quality::Ascended => {
                self.ascended = value;
            },
        }
    }
}

impl<T: Copy> PerQuality<T> {
    /// The value whose every entry is `x`.
    pub open spec fn spec_splat(x: T) -> PerQuality<T> {
        PerQuality {
            exotic: x,
            ascended: x,
        }
    }

    /// The value whose every entry is `x`.
    #[verifier::when_used_as_spec(spec_splat)]
    pub fn splat(x: T) -> (r: PerQuality<T>)
        ensures
            r == PerQuality::spec_splat(x),
    {
        PerQuality {
            exotic: x,
            ascended: x,
        }
    }
}

impl GearSlot {
    /// Whether the slot holds a trinket.  Trinkets are the pieces whose attributes include the
    /// fixed part of a formula.
    pub open spec fn spec_is_trinket(self) -> bool {
        match self {
            GearSlot::Amulet => true,
            GearSlot::Ring1 => true,
            GearSlot::Ring2 => true,
            GearSlot::Accessory1 => true,
            GearSlot::Accessory2 => true,
            GearSlot::Backpack => true,
            _ => false,
        }
    }

    /// Whether the slot holds a trinket.
    #[verifier::when_used_as_spec(spec_is_trinket)]
    pub fn is_trinket(self) -> (r: bool)
        ensures
            r == self.spec_is_trinket(),
    {
        match self {
            GearSlot::Amulet => true,
            GearSlot::Ring1 => true,
            GearSlot::Ring2 => true,
            GearSlot::Accessory1 => true,
            GearSlot::Accessory2 => true,
            GearSlot::Backpack => true,
            _ => false,
        }
    }
}

/// What a gear slot offers, whatever prefix the piece in it has.
#[derive(Clone, Copy, Debug, PartialEq, Eq)]
pub struct SlotInfo {
    /// Prefix-agnostic measure of the attributes of a piece in this slot.  It is multiplied by
    /// the per-attribute factors of the chosen prefix.
    pub points: PerQuality<Fixed>,
    /// Whether the fixed part of a formula is added.  Set only for trinket slots.
    pub add_base: bool,
}

/// How much of one attribute a prefix gives: `factor` per point of the slot, plus `base` on
/// trinkets.
#[derive(Clone, Copy, Debug, PartialEq, Eq)]
pub struct StatFormula {
    pub factor: Fixed,
    pub base: PerQuality<Fixed>,
}

impl StatFormula {
    /// The formula that gives nothing.
    pub open spec fn spec_zero() -> StatFormula {
        StatFormula { factor: Fixed::zero(), base: PerQuality::splat(Fixed::zero()) }
    }

    /// The formula that gives nothing.
    #[verifier::when_used_as_spec(spec_zero)]
    pub fn zero() -> (r: StatFormula)
        ensures
            r == StatFormula::spec_zero(),
    {
        StatFormula { factor: Fixed::zero(), base: PerQuality::splat(Fixed::zero()) }
    }

    /// Attribute points that the formula gives for `points` points of a slot, with the fixed
    /// part `base` where `add_base` is set.
    pub open spec fn spec_eval(&self, points: Fixed, quality: Quality, add_base: bool) -> Fixed {
        let base = if add_base { self.base.at(quality) } else { Fixed::zero() };
        self.factor.mul(points).add(base)
    }

    /// Attribute points that the formula gives for `points` points of a slot.
    #[verifier::when_used_as_spec(spec_eval)]
    pub fn eval(&self, points: Fixed, quality: Quality, add_base: bool) -> (r: Fixed)
        ensures
            r == self.spec_eval(points, quality, add_base),
    {
        let base = if add_base { *self.base.get(quality) } else { Fixed::zero() };
        self.factor.mul(points).add(base)
    }
}

/// An equipment prefix: a name and one formula per attribute.
#[derive(Clone, Debug)]
pub struct Prefix {
    pub name: String,
    pub formulas: PerStat<StatFormula>,
}

impl Prefix {
    /// Attributes of `points` slot points spent on this prefix, without any fixed part.
    pub open spec fn spec_calc_stats_coarse(&self, points: Fixed) -> Stats {
        PerStat {
            power: self.formulas.power.factor.mul(points),
            precision: self.formulas.precision.factor.mul(points),
            ferocity: self.formulas.ferocity.factor.mul(points),
            condition_damage: self.formulas.condition_damage.factor.mul(points),
            expertise: self.formulas.expertise.factor.mul(points),
            vitality: self.formulas.vitality.factor.mul(points),
            toughness: self.formulas.toughness.factor.mul(points),
            healing_power: self.formulas.healing_power.factor.mul(points),
            concentration: self.formulas.concentration.factor.mul(points),
        }
    }

    /// Attributes of `points` slot points spent on this prefix, without any fixed part.
    #[verifier::when_used_as_spec(spec_calc_stats_coarse)]
    pub fn calc_stats_coarse(&self, points: Fixed) -> (r: Stats)
        ensures
            r == self.spec_calc_stats_coarse(points),
    {
        PerStat {
            power: self.formulas.power.factor.mul(points),
            precision: self.formulas.precision.factor.mul(points),
            ferocity: self.formulas.ferocity.factor.mul(points),
            condition_damage: self.formulas.condition_damage.factor.mul(points),
            expertise: self.formulas.expertise.factor.mul(points),
            vitality: self.formulas.vitality.factor.mul(points),
            toughness: self.formulas.toughness.factor.mul(points),
            healing_power: self.formulas.healing_power.factor.mul(points),
            concentration: self.formulas.concentration.factor.mul(points),
        }
    }
}

impl SlotInfo {
    /// Attributes of a piece with the given `prefix` and `quality` in this slot, not rounded.
    pub open spec fn spec_calc_stats(&self, prefix: &Prefix, quality: Quality) -> Stats {
        let points = self.points.at(quality);
        PerStat {
            power: prefix.formulas.power.eval(points, quality, self.add_base),
            precision: prefix.formulas.precision.eval(points, quality, self.add_base),
            ferocity: prefix.formulas.ferocity.eval(points, quality, self.add_base),
            condition_damage: prefix.formulas.condition_damage.eval(points, quality, self.add_base),
            expertise: prefix.formulas.expertise.eval(points, quality, self.add_base),
            vitality: prefix.formulas.vitality.eval(points, quality, self.add_base),
            toughness: prefix.formulas.toughness.eval(points, quality, self.add_base),
            healing_power: prefix.formulas.healing_power.eval(points, quality, self.add_base),
            concentration: prefix.formulas.concentration.eval(points, quality, self.add_base),
        }
    }

    /// Attributes of a piece with the given `prefix` and `quality` in this slot, not rounded.
    #[verifier::when_used_as_spec(spec_calc_stats)]
    pub fn calc_stats(&self, prefix: &Prefix, quality: Quality) -> (r: Stats)
        ensures
            r == self.spec_calc_stats(prefix, quality),
    {
        let points = *self.points.get(quality);
        PerStat {
            power: prefix.formulas.power.eval(points, quality, self.add_base),
            precision: prefix.formulas.precision.eval(points, quality, self.add_base),
            ferocity: prefix.formulas.ferocity.eval(points, quality, self.add_base),
            condition_damage: prefix.formulas.condition_damage.eval(points, quality, self.add_base),
            expertise: prefix.formulas.expertise.eval(points, quality, self.add_base),
            vitality: prefix.formulas.vitality.eval(points, quality, self.add_base),
            toughness: prefix.formulas.toughness.eval(points, quality, self.add_base),
            healing_power: prefix.formulas.healing_power.eval(points, quality, self.add_base),
            concentration: prefix.formulas.concentration.eval(points, quality, self.add_base),
        }
    }

    /// Weight of a piece of `quality` in this slot: the power that `reference` gives there,
    /// divided by the power factor of `reference`.
    pub open spec fn spec_stat_weight(&self, reference: &Prefix, quality: Quality) -> Fixed {
        self.calc_stats(reference, quality).power.div(reference.formulas.power.factor)
    }

    /// Weight of a piece of `quality` in this slot.
    #[verifier::when_used_as_spec(spec_stat_weight)]
    pub fn stat_weight(&self, reference: &Prefix, quality: Quality) -> (r: Fixed)
        ensures
            r == self.spec_stat_weight(reference, quality),
    {
        self.calc_stats(reference, quality).power.div(reference.formulas.power.factor)
    }
}

/// Name of the prefix whose power formula measures the weight of a slot.
pub open spec fn reference_prefix_name() -> Seq<char> {
    "Berserker's"@
}

/// The equipment catalog: the known prefixes, what each slot offers, and which prefix measures
/// slot weights.
#[derive(Clone, Debug)]
pub struct Catalog {
    pub prefixes: Vec<Prefix>,
    pub slots: PerGearSlot<SlotInfo>,
    /// Position in `prefixes` of the prefix that measures slot weights.
    pub reference: usize,
}

/// Position of the first prefix called `name`, if there is one.
pub fn find_prefix(prefixes: &Vec<Prefix>, name: &String) -> (r: Option<usize>)
    ensures
        match r {
            Some(i) => i < prefixes.len() && prefixes[i as int].name@ == name@ && forall|j: int|
                0 <= j < i ==> prefixes[j].name@ != name@,
            None => forall|j: int| 0 <= j < prefixes.len() ==> prefixes[j].name@ != name@,
        },
{
    let mut i: usize = 0;
    while i < prefixes.len()
        invariant
            i <= prefixes.len(),
            forall|j: int| 0 <= j < i ==> prefixes[j].name@ != name@,
        decreases prefixes.len() - i,
    {
        if prefixes[i].name == *name {
            return Some(i);
        }
        i += 1;
    }
    None
}

impl Catalog {
    /// The reference prefix is one of the catalog's, and no number of the catalog is
    /// negative.
    pub open spec fn wf(&self) -> bool {
        self.reference < self.prefixes.len() && catalog_nonneg(self)
    }

    /// A catalog of the given prefixes and slots.  The reference prefix is found by its name.
    /// There is no catalog without it, and none with a negative number.
    pub fn new(prefixes: Vec<Prefix>, slots: PerGearSlot<SlotInfo>) -> (r: Option<Catalog>)
        ensures
            match r {
                Some(c) => {
                    &&& c.wf()
                    &&& c.prefixes == prefixes
                    &&& c.slots == slots
                    &&& prefixes[c.reference as int].name@ == reference_prefix_name()
                    &&& forall|j: int|
                        0 <= j < c.reference ==> prefixes[j].name@ != reference_prefix_name()
                },
                None => {
                    ||| forall|j: int|
                        0 <= j < prefixes.len() ==> prefixes[j].name@ != reference_prefix_name()
                    ||| !numbers_nonneg(prefixes@, slots)
                },
            },
            r is Some <==> numbers_nonneg(prefixes@, slots) && exists|j: int|
                0 <= j < prefixes.len() && prefixes[j].name@ == reference_prefix_name(),
    {
        let name = "Berserker's".to_owned();
        if !all_nonneg(&prefixes, &slots) {
            return None;
        }
        match find_prefix(&prefixes, &name) {
            Some(reference) => Some(Catalog { prefixes, slots, reference }),
            None => None,
        }
    }

    /// Number of prefixes in the catalog.
    pub fn num_prefixes(&self) -> (n: usize)
        ensures
            n == self.prefixes.len(),
    {
        self.prefixes.len()
    }

    /// Weight of one piece: see [`SlotInfo::stat_weight`].
    pub open spec fn spec_slot_weight(&self, slot: GearSlot, quality: Quality) -> Fixed {
        self.slots.at(slot).stat_weight(&self.prefixes[self.reference as int], quality)
    }

    /// Weight of one piece.
    #[verifier::when_used_as_spec(spec_slot_weight)]
    pub fn slot_weight(&self, slot: GearSlot, quality: Quality) -> (r: Fixed)
        requires
            self.wf(),
        ensures
            r == self.spec_slot_weight(slot, quality),
    {
        self.slots.get(slot).stat_weight(&self.prefixes[self.reference], quality)
    }
}

/// No number of the formula is negative: neither the factor nor a fixed part.
pub open spec fn formula_nonneg(formula: StatFormula) -> bool {
    0 <= formula.factor.raw && forall|quality: Quality| 0 <= (#[trigger] formula.base.at(quality)).raw
}

/// No number of the prefix is negative.
pub open spec fn prefix_nonneg(prefix: &Prefix) -> bool {
    &&& formula_nonneg(prefix.formulas.power)
    &&& formula_nonneg(prefix.formulas.precision)
    &&& formula_nonneg(prefix.formulas.ferocity)
    &&& formula_nonneg(prefix.formulas.condition_damage)
    &&& formula_nonneg(prefix.formulas.expertise)
    &&& formula_nonneg(prefix.formulas.vitality)
    &&& formula_nonneg(prefix.formulas.toughness)
    &&& formula_nonneg(prefix.formulas.healing_power)
    &&& formula_nonneg(prefix.formulas.concentration)
}

/// No number is negative: no factor and no fixed part of a formula of the prefixes, and no
/// point budget of the slots.
pub open spec fn numbers_nonneg(prefixes: Seq<Prefix>, slots: PerGearSlot<SlotInfo>) -> bool {
    &&& forall|j: int| 0 <= j < prefixes.len() ==> prefix_nonneg(#[trigger] &prefixes[j])
    &&& forall|slot: GearSlot, quality: Quality|
        0 <= (#[trigger] slots.at(slot).points.at(quality)).raw
}

/// No number of the catalog is negative.
pub open spec fn catalog_nonneg(catalog: &Catalog) -> bool {
    numbers_nonneg(catalog.prefixes@, catalog.slots)
}

/// Whether no number of the formula is negative.
pub fn formula_is_nonneg(formula: &StatFormula) -> (r: bool)
    ensures
        r == formula_nonneg(*formula),
{
    let r = formula.factor.raw >= 0 && formula.base.exotic.raw >= 0 && formula.base.ascended.raw
        >= 0;
    proof {
        if r {
            assert forall|quality: Quality| 0 <= (#[trigger] formula.base.at(quality)).raw by {
                match quality {
                    Quality::Exotic => {},
                    Quality::Ascended => {},
                }
            }
        } else if formula.factor.raw >= 0 {
            assert(formula.base.at(Quality::Exotic) == formula.base.exotic);
            assert(formula.base.at(Quality::Ascended) == formula.base.ascended);
        }
    }
    r
}

/// Whether no number of the prefix is negative.
pub fn prefix_is_nonneg(prefix: &Prefix) -> (r: bool)
    ensures
        r == prefix_nonneg(prefix),
{
    formula_is_nonneg(&prefix.formulas.power) && formula_is_nonneg(&prefix.formulas.precision)
        && formula_is_nonneg(&prefix.formulas.ferocity) && formula_is_nonneg(
        &prefix.formulas.condition_damage,
    ) && formula_is_nonneg(&prefix.formulas.expertise) && formula_is_nonneg(
        &prefix.formulas.vitality,
    ) && formula_is_nonneg(&prefix.formulas.toughness) && formula_is_nonneg(
        &prefix.formulas.healing_power,
    ) && formula_is_nonneg(&prefix.formulas.concentration)
}

/// The point budget of the slot is not negative for any quality.
pub open spec fn slot_nonneg(info: SlotInfo) -> bool {
    0 <= info.points.exotic.raw && 0 <= info.points.ascended.raw
}

/// Whether the point budget of the slot is not negative for any quality.
pub fn slot_is_nonneg(info: &SlotInfo) -> (r: bool)
    ensures
        r == slot_nonneg(*info),
{
    info.points.exotic.raw >= 0 && info.points.ascended.raw >= 0
}

/// Whether no number is negative.
pub fn all_nonneg(prefixes: &Vec<Prefix>, slots: &PerGearSlot<SlotInfo>) -> (r: bool)
    ensures
        r == numbers_nonneg(prefixes@, *slots),
{
    let mut i: usize = 0;
    while i < prefixes.len()
        invariant
            i <= prefixes.len(),
            forall|j: int| 0 <= j < i ==> prefix_nonneg(#[trigger] &prefixes@[j]),
        decreases prefixes.len() - i,
    {
        if !prefix_is_nonneg(&prefixes[i]) {
            return false;
        }
        i += 1;
    }
    let mut k: usize = 0;
    while k < GearSlot::COUNT
        invariant
            k <= GearSlot::COUNT,
            forall|j: int| 0 <= j < prefixes.len() ==> prefix_nonneg(#[trigger] &prefixes@[j]),
            forall|slot: GearSlot| slot.spec_index() < k ==> slot_nonneg(#[trigger] slots.at(slot)),
        decreases GearSlot::COUNT - k,
    {
        let slot = GearSlot::from_index(k);
        if !slot_is_nonneg(slots.get(slot)) {
            proof {
                let info = slots.at(slot);
                if info.points.exotic.raw < 0 {
                    assert(info.points.at(Quality::Exotic).raw < 0);
                } else {
                    assert(info.points.at(Quality::Ascended).raw < 0);
                }
            }
            return false;
        }
        proof {
            assert forall|other: GearSlot| other.spec_index() < k + 1 implies slot_nonneg(
                #[trigger] slots.at(other),
            ) by {
                if other.spec_index() == k {
                    assert(other == slot);
                }
            }
        }
        k += 1;
    }
    proof {
        assert forall|slot: GearSlot, quality: Quality|
            0 <= (#[trigger] slots.at(slot).points.at(quality)).raw by {
            assert(slot.spec_index() < GearSlot::COUNT);
            assert(slot_nonneg(slots.at(slot)));
            match quality {
                Quality::Exotic => {},
                Quality::Ascended => {},
            }
        }
    }
    true
}

/// A formula without negative numbers gives nothing negative for points that are not
/// negative, rounded or not.
pub proof fn lemma_eval_nonneg(formula: StatFormula, points: Fixed, quality: Quality, add_base: bool)
    requires
        formula_nonneg(formula),
        0 <= points.raw,
    ensures
        0 <= formula.eval(points, quality, add_base).raw,
        0 <= formula.eval(points, quality, add_base).round().raw,
{
    assert(0 <= formula.base.at(quality).raw);
    lemma_mul_monotone(formula.factor, points, formula.factor, points);
    lemma_round_nonneg(formula.eval(points, quality, add_base));
}

/// A piece of a prefix without negative numbers, in a slot whose point budget is not
/// negative, has no negative attribute, rounded or not.
pub proof fn lemma_piece_nonneg(info: SlotInfo, prefix: &Prefix, quality: Quality)
    requires
        prefix_nonneg(prefix),
        0 <= info.points.at(quality).raw,
    ensures
        stats_nonneg(info.calc_stats(prefix, quality)),
        stats_nonneg(stats_round(info.calc_stats(prefix, quality))),
{
    let points = info.points.at(quality);
    let f = prefix.formulas;
    lemma_eval_nonneg(f.power, points, quality, info.add_base);
    lemma_eval_nonneg(f.precision, points, quality, info.add_base);
    lemma_eval_nonneg(f.ferocity, points, quality, info.add_base);
    lemma_eval_nonneg(f.condition_damage, points, quality, info.add_base);
    lemma_eval_nonneg(f.expertise, points, quality, info.add_base);
    lemma_eval_nonneg(f.vitality, points, quality, info.add_base);
    lemma_eval_nonneg(f.toughness, points, quality, info.add_base);
    lemma_eval_nonneg(f.healing_power, points, quality, info.add_base);
    lemma_eval_nonneg(f.concentration, points, quality, info.add_base);
}

/// In a catalog without negative numbers, no piece has a negative weight.
pub proof fn lemma_slot_weight_nonneg(catalog: &Catalog, slot: GearSlot, quality: Quality)
    requires
        catalog.wf(),
        catalog_nonneg(catalog),
    ensures
        0 <= catalog.slot_weight(slot, quality).raw,
{
    let info = catalog.slots.at(slot);
    let points = info.points.at(quality);
    let reference = &catalog.prefixes[catalog.reference as int];
    assert(prefix_nonneg(reference));
    lemma_eval_nonneg(reference.formulas.power, points, quality, info.add_base);
    lemma_div_nonneg(
        reference.formulas.power.eval(points, quality, info.add_base),
        reference.formulas.power.factor,
    );
}

} // verus!
