//! The two optimizer stages and what they share.

use crate::character::{score, CharacterModel};
use crate::fixed::{lemma_div_nonneg, Fixed};
use crate::gear::{catalog_nonneg, lemma_piece_nonneg, Catalog, GearSlot, Quality};
use crate::stats::Stats;
use crate::vary::Vary;
use vstd::prelude::*;

pub mod coarse;
pub mod fine;

verus! {

/// The objective that every search starts from: worse than that of any build of interest.
pub open spec fn spec_worst_objective() -> Fixed {
    Fixed::from_int(999999999)
}

/// The objective that every search starts from.
#[verifier::when_used_as_spec(spec_worst_objective)]
pub fn worst_objective() -> (r: Fixed)
    ensures
        r == spec_worst_objective(),
{
    Fixed::from_int(999999999)
}

/// A value that is ordered like the value it wraps.
#[derive(Clone, Copy, PartialEq, Eq, PartialOrd, Ord, Debug, Hash, Default)]
pub struct AssertTotal<T>(pub T);

/// Calculates the attributes that `gear` and `cfg` give under `ch`, and evaluates them.
pub fn evaluate_config<C: CharacterModel>(ch: &C, gear: &Stats, cfg: &C::Config) -> (m: Fixed)
    requires
        ch.wf(),
        cfg.wf(),
    ensures
        m == score(ch, gear, cfg),
{
    let (stats, mods, combat) = ch.calc_stats(gear, cfg);
    ch.evaluate(cfg, &stats, &mods, &combat)
}

/// Power that the reference prefix gives in the first `n` of the pieces `slots`, added up in
/// order.
pub open spec fn reference_power(catalog: &Catalog, slots: Seq<(GearSlot, Quality)>, n: int) -> Fixed
    decreases n,
{
    if n <= 0 {
        Fixed::zero()
    } else {
        reference_power(catalog, slots, n - 1).add(
            catalog.slots.at(slots[n - 1].0).calc_stats(
                &catalog.prefixes[catalog.reference as int],
                slots[n - 1].1,
            ).power,
        )
    }
}

/// The weight to be distributed across all prefixes: the power that the pieces `slots` give
/// with the reference prefix, divided by the power factor of that prefix.
pub open spec fn spec_calc_max_weight(catalog: &Catalog, slots: Seq<(GearSlot, Quality)>) -> Fixed {
    reference_power(catalog, slots, slots.len() as int).div(
        catalog.prefixes[catalog.reference as int].formulas.power.factor,
    )
}

/// The weight to be distributed across all prefixes.
pub fn calc_max_weight(catalog: &Catalog, slots: &[(GearSlot, Quality)]) -> (r: Fixed)
    requires
        catalog.wf(),
    ensures
        r == spec_calc_max_weight(catalog, slots@),
{
    let prefix = &catalog.prefixes[catalog.reference];
    let mut acc = Fixed::zero();
    let mut i: usize = 0;
    while i < slots.len()
        invariant
            catalog.wf(),
            i <= slots.len(),
            *prefix == catalog.prefixes[catalog.reference as int],
            acc == reference_power(catalog, slots@, i as int),
        decreases slots.len() - i,
    {
        let (slot, quality) = slots[i];
        acc = acc.add(catalog.slots.get(slot).calc_stats(prefix, quality).power);
        i += 1;
    }
    acc.div(prefix.formulas.power.factor)
}

/// In a catalog without negative numbers, the reference prefix gives no negative power.
pub proof fn lemma_reference_power_nonneg(
    catalog: &Catalog,
    slots: Seq<(GearSlot, Quality)>,
    n: int,
)
    requires
        catalog.wf(),
        catalog_nonneg(catalog),
        n <= slots.len(),
    ensures
        0 <= reference_power(catalog, slots, n).raw,
    decreases n,
{
    if n > 0 {
        lemma_reference_power_nonneg(catalog, slots, n - 1);
        lemma_piece_nonneg(
            catalog.slots.at(slots[n - 1].0),
            &catalog.prefixes[catalog.reference as int],
            slots[n - 1].1,
        );
    }
}

/// In a catalog without negative numbers, the weight to be distributed is not negative.
pub proof fn lemma_max_weight_nonneg(catalog: &Catalog, slots: Seq<(GearSlot, Quality)>)
    requires
        catalog.wf(),
        catalog_nonneg(catalog),
    ensures
        0 <= spec_calc_max_weight(catalog, slots).raw,
{
    lemma_reference_power_nonneg(catalog, slots, slots.len() as int);
    lemma_div_nonneg(
        reference_power(catalog, slots, slots.len() as int),
        catalog.prefixes[catalog.reference as int].formulas.power.factor,
    );
}

} // verus!
