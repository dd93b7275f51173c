//! The fine stage: an exact, pruned search that assigns one prefix to each gear slot and
//! allocates infusions.

use crate::character::{score, CharacterModel};
use crate::fixed::Fixed;
use crate::gear::{
    catalog_nonneg, lemma_piece_nonneg, lemma_slot_weight_nonneg, Catalog, GearSlot, Quality,
};
use crate::optimize::coarse::PrefixWeights;
use crate::optimize::{calc_max_weight, evaluate_config, spec_calc_max_weight, worst_objective};
use crate::stats::{
    lemma_stats_add_regroup, stats_le, stats_max, stats_nonneg, stats_round, PerStat, Stat, Stats,
};
use crate::vary::Vary;
use vstd::prelude::*;

verus! {

/// Attribute points that one infusion gives.
pub const INFUSION_POINTS: i64 = 5;

/// A slot of the search, with the weight it has in the budget.
#[derive(Clone, Copy, Debug)]
pub struct SlotExt {
    /// Position of the slot in the list that the caller gave.
    pub orig_idx: usize,
    pub gear_slot: GearSlot,
    pub quality: Quality,
    pub stat_weight: Fixed,
}

/// A build under construction: a prefix for each slot, and infusions for each attribute.
#[derive(Debug)]
pub struct Candidate {
    /// For each slot, the position of its prefix among the prefixes of the search.
    pub slot_prefixes: Vec<u8>,
    /// Number of infusions of each attribute.
    pub infusions: PerStat<u8>,
    /// Coarse prefix weights.  Assigning a prefix to a slot adds the weight of the slot to the
    /// entry of the prefix.
    pub prefix_weights: Vec<Fixed>,
}

/// What the search works on, as mathematics: the slots in the order of the search, heaviest
/// first.
pub struct Space {
    /// Weight of each slot.
    pub weights: Seq<Fixed>,
    /// For each slot and each prefix, the attributes of the piece, rounded.
    pub table: Seq<Seq<Stats>>,
    /// For each prefix, the least and the greatest weight that a build may give it.
    pub bands: Option<Seq<(Fixed, Fixed)>>,
    /// Number of prefixes to choose from.
    pub num_prefixes: nat,
    /// Number of infusions to allocate.
    pub num_infusions: nat,
}

/// Attributes that `count` infusions of `stat` give.
pub open spec fn spec_infusion_stats(stat: Stat, count: u8) -> Stats {
    PerStat::splat(Fixed::zero()).with(
        stat,
        Fixed::from_int((INFUSION_POINTS * (count as i64)) as i64),
    )
}

/// Attributes that `count` infusions of `stat` give.
#[verifier::when_used_as_spec(spec_infusion_stats)]
pub fn infusion_stats(stat: Stat, count: u8) -> (r: Stats)
    ensures
        r == spec_infusion_stats(stat, count),
{
    let mut stats = PerStat::splat(Fixed::zero());
    stats.set(stat, Fixed::from_int(INFUSION_POINTS * (count as i64)));
    stats
}

/// `gear` with the infusions of the first `k` attributes added, attribute by attribute.
pub open spec fn infused(gear: Stats, infusions: PerStat<u8>, k: int) -> Stats
    decreases k,
{
    if k <= 0 {
        gear
    } else {
        let stat = Stat::from_index((k - 1) as usize);
        infused(gear, infusions, k - 1).add(infusion_stats(stat, infusions.at(stat)))
    }
}

/// Number of infusions among the first `k` attributes.
pub open spec fn infusion_count(infusions: PerStat<u8>, k: int) -> int
    decreases k,
{
    if k <= 0 {
        0
    } else {
        infusion_count(infusions, k - 1) + infusions.at(Stat::from_index((k - 1) as usize))
    }
}

/// An upper bound on the attributes that `n` infusions can give: all of them to every
/// attribute.
pub open spec fn spec_max_infusion_stats(n: usize) -> Stats {
    PerStat::splat(Fixed::from_int((INFUSION_POINTS * (n as i64)) as i64))
}

/// An upper bound on the attributes that `n` infusions can give.
#[verifier::when_used_as_spec(spec_max_infusion_stats)]
pub fn max_infusion_stats(n: usize) -> (r: Stats)
    requires
        n <= u8::MAX,
    ensures
        r == spec_max_infusion_stats(n),
{
    PerStat::splat(Fixed::from_int(INFUSION_POINTS * (n as i64)))
}

impl Space {
    /// Number of slots.
    pub open spec fn len(self) -> int {
        self.weights.len() as int
    }

    /// The parts fit together, and the counts fit the machine types that hold them.
    pub open spec fn wf(self) -> bool {
        &&& self.table.len() == self.weights.len()
        &&& forall|i: int| 0 <= i < self.len() ==> (#[trigger] self.table[i]).len() == self.num_prefixes
        &&& 1 <= self.num_prefixes <= 256
        &&& self.num_infusions <= 255
        &&& self.bands matches Some(b) ==> b.len() == self.num_prefixes
    }

    /// Every piece gives attributes that are not negative, and no slot has a negative weight.
    pub open spec fn nonneg(self) -> bool {
        &&& forall|i: int, j: int|
            0 <= i < self.len() && 0 <= j < self.num_prefixes ==> stats_nonneg(
                #[trigger] self.table[i][j],
            )
        &&& forall|i: int| 0 <= i < self.len() ==> (#[trigger] self.weights[i]).raw >= 0
    }

    /// `a` names a prefix of the search for each of the first `k` slots.
    pub open spec fn assigns(self, a: Seq<u8>, k: int) -> bool {
        &&& a.len() == self.len()
        &&& forall|i: int| 0 <= i < k ==> (#[trigger] a[i]) < self.num_prefixes
    }

    /// Attributes that the pieces of the first `k` slots give under `a`, added in order.
    pub open spec fn gear_upto(self, a: Seq<u8>, k: int) -> Stats
        decreases k,
    {
        if k <= 0 {
            PerStat::splat(Fixed::zero())
        } else {
            self.gear_upto(a, k - 1).add(self.table[k - 1][a[k - 1] as int])
        }
    }

    /// Weight that the first `k` slots give to prefix `p` under `a`, added in order.
    pub open spec fn weight_upto(self, a: Seq<u8>, p: int, k: int) -> Fixed
        decreases k,
    {
        if k <= 0 {
            Fixed::zero()
        } else if a[k - 1] == p {
            self.weight_upto(a, p, k - 1).add(self.weights[k - 1])
        } else {
            self.weight_upto(a, p, k - 1)
        }
    }

    /// Attribute by attribute, the most that any of the first `j` prefixes gives in slot `i`,
    /// and at least zero.
    pub open spec fn best_upto(self, i: int, j: int) -> Stats
        decreases j,
    {
        if j <= 0 {
            PerStat::splat(Fixed::zero())
        } else {
            stats_max(self.best_upto(i, j - 1), self.table[i][j - 1])
        }
    }

    /// An upper bound on the attributes that slot `i` and all further slots and the infusions
    /// can give.
    pub open spec fn remaining_stats(self, i: int) -> Stats
        decreases self.len() - i,
    {
        if i >= self.len() {
            max_infusion_stats(self.num_infusions as usize)
        } else {
            self.remaining_stats(i + 1).add(self.best_upto(i, self.num_prefixes as int))
        }
    }

    /// The sum of the weights of slot `i` and all further slots.
    pub open spec fn remaining_weight(self, i: int) -> Fixed
        decreases self.len() - i,
    {
        if i >= self.len() {
            Fixed::zero()
        } else {
            self.remaining_weight(i + 1).add(self.weights[i])
        }
    }

    /// Symmetry breaking among the first `k` slots: along a run of slots of the same weight,
    /// such as the two rings, the prefixes do not decrease.
    pub open spec fn canonical_upto(self, a: Seq<u8>, k: int) -> bool {
        forall|i: int|
            1 <= i < k && self.weights[i] == self.weights[i - 1] ==> a[i - 1] <= #[trigger] a[i]
    }

    /// The weight that `a` gives to each prefix lies within the band of the prefix.
    pub open spec fn in_band(self, a: Seq<u8>) -> bool {
        self.bands matches Some(b) ==> forall|p: int|
            0 <= p < self.num_prefixes ==> (#[trigger] b[p]).0.raw <= self.weight_upto(
                a,
                p,
                self.len(),
            ).raw <= b[p].1.raw
    }

    /// The weight that prefix `p` has after the first `k` slots of `a` can still end within
    /// its band.
    pub open spec fn band_open(self, a: Seq<u8>, p: int, k: int) -> bool {
        self.bands matches Some(b) ==> {
            let w = self.weight_upto(a, p, k);
            !(w.raw > b[p].1.raw || w.add(self.remaining_weight(k)).raw < b[p].0.raw)
        }
    }

    /// `a` and `infusions` make a build that the search accepts: a prefix for each slot, in
    /// canonical order, within the bands, and no more infusions than there are.
    pub open spec fn admissible(self, a: Seq<u8>, infusions: PerStat<u8>) -> bool {
        &&& self.assigns(a, self.len())
        &&& self.canonical_upto(a, self.len())
        &&& self.in_band(a)
        &&& infusion_count(infusions, Stat::COUNT as int) <= self.num_infusions
    }

    /// Attributes of the build.
    pub open spec fn gear(self, a: Seq<u8>, infusions: PerStat<u8>) -> Stats {
        infused(self.gear_upto(a, self.len()), infusions, Stat::COUNT as int)
    }
}

/// The objective under `ch` and `cfg` of the build `a` with the infusions `f`.
pub open spec fn build_objective<C: CharacterModel>(
    ch: &C,
    cfg: &C::Config,
    space: Space,
    a: Seq<u8>,
    f: PerStat<u8>,
) -> Fixed {
    score(ch, &space.gear(a, f), cfg)
}

/// More of any attribute never makes the objective of `ch` under `cfg` worse, for gear
/// without negative attributes.
///
/// The search prunes on this assumption and does not check it.
pub open spec fn objective_monotone<C: CharacterModel>(ch: &C, cfg: &C::Config) -> bool {
    forall|g: Stats, h: Stats|
        stats_nonneg(g) && stats_le(g, h) ==> (#[trigger] score(ch, &h, cfg)).raw <= (
        #[trigger] score(ch, &g, cfg)).raw
}

/// Infusions leave no attribute negative that was not.
pub proof fn lemma_infused_nonneg(gear: Stats, f: PerStat<u8>, k: int)
    requires
        stats_nonneg(gear),
        0 <= k <= Stat::COUNT,
    ensures
        stats_nonneg(infused(gear, f, k)),
    decreases k,
{
    if k > 0 {
        lemma_infused_nonneg(gear, f, k - 1);
        let stat = Stat::from_index((k - 1) as usize);
        assert(stats_nonneg(infusion_stats(stat, f.at(stat))));
    }
}

/// The attributes of a partial build depend on the slots assigned so far only.
pub proof fn lemma_prefix_only(space: Space, a: Seq<u8>, b: Seq<u8>, k: int)
    requires
        0 <= k <= a.len(),
        a.len() == b.len(),
        forall|i: int| 0 <= i < k ==> a[i] == b[i],
    ensures
        space.gear_upto(a, k) == space.gear_upto(b, k),
        forall|p: int| space.weight_upto(a, p, k) == space.weight_upto(b, p, k),
        space.canonical_upto(a, k) == space.canonical_upto(b, k),
        space.assigns(a, k) == space.assigns(b, k),
    decreases k,
{
    if k > 0 {
        lemma_prefix_only(space, a, b, k - 1);
        assert(a[k - 1] == b[k - 1]);
        assert forall|p: int| space.weight_upto(a, p, k) == space.weight_upto(b, p, k) by {
            assert(space.weight_upto(a, p, k - 1) == space.weight_upto(b, p, k - 1));
        }
    }
    if space.canonical_upto(a, k) {
        assert forall|i: int| 1 <= i < k && space.weights[i] == space.weights[i - 1] implies b[i
            - 1] <= #[trigger] b[i] by {
            assert(a[i - 1] <= a[i]);
        }
    }
    if space.canonical_upto(b, k) {
        assert forall|i: int| 1 <= i < k && space.weights[i] == space.weights[i - 1] implies a[i
            - 1] <= #[trigger] a[i] by {
            assert(b[i - 1] <= b[i]);
        }
    }
    if space.assigns(a, k) {
        assert forall|i: int| 0 <= i < k implies (#[trigger] b[i]) < space.num_prefixes by {
            assert(a[i] < space.num_prefixes);
        }
    }
    if space.assigns(b, k) {
        assert forall|i: int| 0 <= i < k implies (#[trigger] a[i]) < space.num_prefixes by {
            assert(b[i] < space.num_prefixes);
        }
    }
}

/// Pieces that give nothing negative add up to nothing negative.
pub proof fn lemma_gear_nonneg(space: Space, a: Seq<u8>, k: int)
    requires
        space.wf(),
        space.nonneg(),
        0 <= k <= space.len(),
        space.assigns(a, k),
    ensures
        stats_nonneg(space.gear_upto(a, k)),
    decreases k,
{
    if k > 0 {
        lemma_gear_nonneg(space, a, k - 1);
        assert(stats_nonneg(space.table[k - 1][a[k - 1] as int]));
    }
}

/// The best of a slot is not negative and bounds what each prefix gives there.
pub proof fn lemma_best_bounds(space: Space, i: int, m: int, j: int)
    requires
        0 <= j < m,
    ensures
        stats_nonneg(space.best_upto(i, m)),
        stats_le(space.table[i][j], space.best_upto(i, m)),
    decreases m,
{
    lemma_best_nonneg(space, i, m - 1);
    if j < m - 1 {
        lemma_best_bounds(space, i, m - 1, j);
    }
}

/// The best of a slot is not negative.
pub proof fn lemma_best_nonneg(space: Space, i: int, m: int)
    ensures
        stats_nonneg(space.best_upto(i, m)),
    decreases m,
{
    if m > 0 {
        lemma_best_nonneg(space, i, m - 1);
    }
}

/// The bounds on what is still to come are not negative.
pub proof fn lemma_remaining_nonneg(space: Space, i: int)
    requires
        space.wf(),
        space.nonneg(),
        0 <= i <= space.len(),
    ensures
        stats_nonneg(space.remaining_stats(i)),
        space.remaining_weight(i).raw >= 0,
    decreases space.len() - i,
{
    if i < space.len() {
        lemma_remaining_nonneg(space, i + 1);
        lemma_best_nonneg(space, i, space.num_prefixes as int);
    }
}

/// The infusions of the first `k` attributes in closed form: each of those attributes has its
/// own infusions added, and nothing else changes.
pub proof fn lemma_infused(gear: Stats, f: PerStat<u8>, k: int)
    requires
        0 <= k <= Stat::COUNT,
    ensures
        forall|stat: Stat| #[trigger]
            infused(gear, f, k).at(stat) == if stat.index() < k {
                gear.at(stat).add(Fixed::from_int((INFUSION_POINTS * (f.at(stat) as i64)) as i64))
            } else {
                gear.at(stat)
            },
    decreases k,
{
    if k > 0 {
        lemma_infused(gear, f, k - 1);
        let added = Stat::from_index((k - 1) as usize);
        let before = infused(gear, f, k - 1);
        assert forall|stat: Stat| #[trigger]
            infused(gear, f, k).at(stat) == if stat.index() < k {
                gear.at(stat).add(Fixed::from_int((INFUSION_POINTS * (f.at(stat) as i64)) as i64))
            } else {
                gear.at(stat)
            } by {
            assert(before.at(stat) == if stat.index() < k - 1 {
                gear.at(stat).add(Fixed::from_int((INFUSION_POINTS * (f.at(stat) as i64)) as i64))
            } else {
                gear.at(stat)
            });
            assert(infused(gear, f, k).at(stat) == before.at(stat).add(
                infusion_stats(added, f.at(added)).at(stat),
            ));
        }
    }
}

/// The number of infusions among the first `k` attributes is not negative, and no attribute
/// among them has more.
pub proof fn lemma_infusion_count(f: PerStat<u8>, k: int)
    requires
        0 <= k <= Stat::COUNT,
    ensures
        infusion_count(f, k) >= 0,
        forall|stat: Stat| stat.index() < k ==> #[trigger] f.at(stat) <= infusion_count(f, k),
    decreases k,
{
    if k > 0 {
        lemma_infusion_count(f, k - 1);
        assert forall|stat: Stat| stat.index() < k implies #[trigger] f.at(stat) <= infusion_count(
            f,
            k,
        ) by {
            if stat.index() == k - 1 {
                assert(stat == Stat::from_index((k - 1) as usize));
            } else {
                assert(f.at(stat) <= infusion_count(f, k - 1));
            }
        }
    }
}

/// Two allocations that agree on the first `k` attributes have the same count there.
pub proof fn lemma_infusion_count_agree(f: PerStat<u8>, g: PerStat<u8>, k: int)
    requires
        0 <= k <= Stat::COUNT,
        forall|stat: Stat| stat.index() < k ==> #[trigger] f.at(stat) == g.at(stat),
    ensures
        infusion_count(f, k) == infusion_count(g, k),
    decreases k,
{
    if k > 0 {
        lemma_infusion_count_agree(f, g, k - 1);
        let stat = Stat::from_index((k - 1) as usize);
        assert(f.at(stat) == g.at(stat));
    }
}

/// However a build is completed from slot `k` on, its attributes stay below those of the
/// first `k` slots plus the bound on what is still to come.
pub proof fn lemma_completion_bound(space: Space, a: Seq<u8>, f: PerStat<u8>, k: int)
    requires
        space.wf(),
        space.nonneg(),
        0 <= k <= space.len(),
        space.assigns(a, space.len()),
        infusion_count(f, Stat::COUNT as int) <= space.num_infusions,
    ensures
        stats_le(space.gear(a, f), space.gear_upto(a, k).add(space.remaining_stats(k))),
    decreases space.len() - k,
{
    let n = space.len();
    if k >= n {
        let base = space.gear_upto(a, n);
        lemma_infused(base, f, Stat::COUNT as int);
        lemma_infusion_count(f, Stat::COUNT as int);
        let total = infused(base, f, Stat::COUNT as int);
        let bound = base.add(space.remaining_stats(k));
        assert(total.at(Stat::Power).raw <= bound.at(Stat::Power).raw);
        assert(total.at(Stat::Precision).raw <= bound.at(Stat::Precision).raw);
        assert(total.at(Stat::Ferocity).raw <= bound.at(Stat::Ferocity).raw);
        assert(total.at(Stat::ConditionDamage).raw <= bound.at(Stat::ConditionDamage).raw);
        assert(total.at(Stat::Expertise).raw <= bound.at(Stat::Expertise).raw);
        assert(total.at(Stat::Vitality).raw <= bound.at(Stat::Vitality).raw);
        assert(total.at(Stat::Toughness).raw <= bound.at(Stat::Toughness).raw);
        assert(total.at(Stat::HealingPower).raw <= bound.at(Stat::HealingPower).raw);
        assert(total.at(Stat::Concentration).raw <= bound.at(Stat::Concentration).raw);
    } else {
        lemma_completion_bound(space, a, f, k + 1);
        let g = space.gear_upto(a, k);
        let t = space.table[k][a[k] as int];
        let r = space.remaining_stats(k + 1);
        let s = space.best_upto(k, space.num_prefixes as int);
        lemma_gear_nonneg(space, a, k);
        lemma_remaining_nonneg(space, k + 1);
        assert(stats_nonneg(t));
        lemma_best_bounds(space, k, space.num_prefixes as int, a[k] as int);
        lemma_stats_add_regroup(g, t, r, s);
    }
}

/// The weight of a prefix only grows as slots are assigned, and never beyond what it has plus
/// the weight of the slots still to come.
pub proof fn lemma_weight_bounds(space: Space, a: Seq<u8>, p: int, k: int)
    requires
        space.wf(),
        space.nonneg(),
        0 <= k <= space.len(),
    ensures
        0 <= space.weight_upto(a, p, k).raw <= space.weight_upto(a, p, space.len()).raw,
        space.weight_upto(a, p, space.len()).raw <= space.weight_upto(a, p, k).add(
            space.remaining_weight(k),
        ).raw,
    decreases space.len() - k,
{
    lemma_weight_nonneg(space, a, p, k);
    if k < space.len() {
        lemma_weight_bounds(space, a, p, k + 1);
        lemma_remaining_nonneg(space, k + 1);
        assert(space.weights[k].raw >= 0);
    }
}

/// The weight of a prefix is not negative.
pub proof fn lemma_weight_nonneg(space: Space, a: Seq<u8>, p: int, k: int)
    requires
        space.wf(),
        space.nonneg(),
        0 <= k <= space.len(),
    ensures
        0 <= space.weight_upto(a, p, k).raw,
    decreases k,
{
    if k > 0 {
        lemma_weight_nonneg(space, a, p, k - 1);
        assert(space.weights[k - 1].raw >= 0);
    }
}

/// Allocations that agree on the first `k` attributes give the same attributes there.
pub proof fn lemma_infused_agree(gear: Stats, f: PerStat<u8>, g: PerStat<u8>, k: int)
    requires
        0 <= k <= Stat::COUNT,
        forall|stat: Stat| stat.index() < k ==> #[trigger] f.at(stat) == g.at(stat),
    ensures
        infused(gear, f, k) == infused(gear, g, k),
    decreases k,
{
    if k > 0 {
        lemma_infused_agree(gear, f, g, k - 1);
        let stat = Stat::from_index((k - 1) as usize);
        assert(f.at(stat) == g.at(stat));
    }
}

/// Attributes without infusions from `k` on are not changed by counting further.
pub proof fn lemma_infused_rest_zero(gear: Stats, f: PerStat<u8>, k: int, m: int)
    requires
        0 <= k <= m <= Stat::COUNT,
        forall|stat: Stat| stat.index() >= k ==> #[trigger] f.at(stat) == 0,
    ensures
        infused(gear, f, m) == infused(gear, f, k),
        infusion_count(f, m) == infusion_count(f, k),
    decreases m - k,
{
    if k < m {
        lemma_infused_rest_zero(gear, f, k, m - 1);
        let stat = Stat::from_index((m - 1) as usize);
        assert(f.at(stat) == 0);
        let before = infused(gear, f, m - 1);
        assert(before.add(infusion_stats(stat, 0)) == before);
    }
}

/// No attribute from `k` on has more infusions than there are from `k` on.
pub proof fn lemma_infusion_tail(f: PerStat<u8>, k: int, m: int)
    requires
        0 <= k <= m <= Stat::COUNT,
    ensures
        infusion_count(f, k) <= infusion_count(f, m),
        forall|stat: Stat|
            k <= stat.index() < m ==> #[trigger] f.at(stat) <= infusion_count(f, m)
                - infusion_count(f, k),
    decreases m - k,
{
    if k < m {
        lemma_infusion_tail(f, k, m - 1);
        assert forall|stat: Stat| k <= stat.index() < m implies #[trigger] f.at(stat)
            <= infusion_count(f, m) - infusion_count(f, k) by {
            if stat.index() == m - 1 {
                assert(stat == Stat::from_index((m - 1) as usize));
            } else {
                assert(f.at(stat) <= infusion_count(f, m - 1) - infusion_count(f, k));
            }
        }
    }
}

impl Candidate {
    /// The build that gives every slot the first prefix and uses no infusion.
    pub fn new(num_slots: usize, num_prefixes: usize) -> (r: Candidate)
        ensures
            r.slot_prefixes@ == Seq::new(num_slots as nat, |i: int| 0u8),
            r.infusions == PerStat::<u8>::splat(0),
            r.prefix_weights@ == Seq::new(num_prefixes as nat, |i: int| Fixed::zero()),
    {
        let mut slot_prefixes: Vec<u8> = Vec::new();
        let mut i: usize = 0;
        while i < num_slots
            invariant
                i <= num_slots,
                slot_prefixes@ == Seq::new(i as nat, |k: int| 0u8),
            decreases num_slots - i,
        {
            slot_prefixes.push(0);
            i += 1;
            assert(slot_prefixes@ =~= Seq::new(i as nat, |k: int| 0u8));
        }
        let mut prefix_weights: Vec<Fixed> = Vec::new();
        let mut j: usize = 0;
        while j < num_prefixes
            invariant
                j <= num_prefixes,
                prefix_weights@ == Seq::new(j as nat, |k: int| Fixed::zero()),
            decreases num_prefixes - j,
        {
            prefix_weights.push(Fixed::zero());
            j += 1;
            assert(prefix_weights@ =~= Seq::new(j as nat, |k: int| Fixed::zero()));
        }
        Candidate { slot_prefixes, infusions: PerStat::splat(0), prefix_weights }
    }

    /// A copy of the build.
    pub fn copy(&self) -> (r: Candidate)
        ensures
            r.slot_prefixes@ == self.slot_prefixes@,
            r.infusions == self.infusions,
            r.prefix_weights@ == self.prefix_weights@,
    {
        let mut slot_prefixes: Vec<u8> = Vec::new();
        let mut i: usize = 0;
        while i < self.slot_prefixes.len()
            invariant
                i <= self.slot_prefixes.len(),
                slot_prefixes@ == self.slot_prefixes@.take(i as int),
            decreases self.slot_prefixes.len() - i,
        {
            slot_prefixes.push(self.slot_prefixes[i]);
            i += 1;
            assert(slot_prefixes@ =~= self.slot_prefixes@.take(i as int));
        }
        assert(self.slot_prefixes@.take(i as int) =~= self.slot_prefixes@);
        let mut prefix_weights: Vec<Fixed> = Vec::new();
        let mut j: usize = 0;
        while j < self.prefix_weights.len()
            invariant
                j <= self.prefix_weights.len(),
                prefix_weights@ == self.prefix_weights@.take(j as int),
            decreases self.prefix_weights.len() - j,
        {
            prefix_weights.push(self.prefix_weights[j]);
            j += 1;
            assert(prefix_weights@ =~= self.prefix_weights@.take(j as int));
        }
        assert(self.prefix_weights@.take(j as int) =~= self.prefix_weights@);
        Candidate { slot_prefixes, infusions: self.infusions, prefix_weights }
    }
}

/// The bands as mathematics.
pub open spec fn bands_view(bands: Option<Vec<(Fixed, Fixed)>>) -> Option<Seq<(Fixed, Fixed)>> {
    match bands {
        Some(b) => Some(b@),
        None => None,
    }
}

/// What the search works on: the slots, heaviest first, with what each prefix gives in each,
/// and the bounds that the search prunes with.
#[derive(Debug)]
pub struct SearchSpace {
    pub slots: Vec<SlotExt>,
    /// Number of prefixes to choose from.
    pub num_prefixes: usize,
    /// Number of infusions to allocate.
    pub num_infusions: usize,
    /// For each slot and each prefix, the attributes of the piece, rounded.
    pub slot_stats: Vec<Vec<Stats>>,
    /// For each slot, an upper bound on the attributes that this slot and all further slots
    /// and the infusions can give.  One more entry stands for the infusions alone.
    pub slot_remaining_stats: Vec<Stats>,
    /// For each slot, the sum of the weights of this slot and all further slots.  One more
    /// entry holds zero.
    pub slot_remaining_weight: Vec<Fixed>,
    /// Least and greatest weight allowed for each prefix.
    pub target_prefix_weights: Option<Vec<(Fixed, Fixed)>>,
}

impl SearchSpace {
    /// The space as mathematics.
    pub open spec fn view(&self) -> Space {
        Space {
            weights: Seq::new(self.slots@.len(), |i: int| self.slots@[i].stat_weight),
            table: Seq::new(self.slot_stats@.len(), |i: int| self.slot_stats@[i]@),
            bands: bands_view(self.target_prefix_weights),
            num_prefixes: self.num_prefixes as nat,
            num_infusions: self.num_infusions as nat,
        }
    }

    /// The parts fit together, and the stored bounds are the bounds of the space.
    pub open spec fn wf(&self) -> bool {
        &&& self@.wf()
        &&& self.slot_remaining_stats@.len() == self.slots@.len() + 1
        &&& self.slot_remaining_weight@.len() == self.slots@.len() + 1
        &&& forall|i: int|
            0 <= i <= self.slots@.len() ==> #[trigger] self.slot_remaining_stats@[i]
                == self@.remaining_stats(i)
        &&& forall|i: int|
            0 <= i <= self.slots@.len() ==> #[trigger] self.slot_remaining_weight@[i]
                == self@.remaining_weight(i)
    }
}

/// The state of the exact search.
pub struct Optimizer<'a, C: CharacterModel> {
    pub ch: &'a C,
    pub cfg: &'a C::Config,
    pub space: SearchSpace,
    /// The build under construction.
    pub cur: Candidate,
    /// The best objective found so far.
    pub best_m: Fixed,
    /// The build that gave `best_m`.
    pub best_candidate: Candidate,
    /// Number of evaluations made.
    pub tried: usize,
}

impl<'a, C: CharacterModel> Optimizer<'a, C> {
    /// The objective of the build `a` with the infusions `f`.
    pub open spec fn objective(&self, a: Seq<u8>, f: PerStat<u8>) -> Fixed {
        build_objective(self.ch, self.cfg, self.space@, a, f)
    }

    /// What the search assumes of the model and the catalog when it prunes: that more of any
    /// attribute never makes the objective worse, and that nothing in the space is negative.
    pub open spec fn may_prune(&self) -> bool {
        objective_monotone(self.ch, self.cfg) && self.space@.nonneg()
    }

    /// The best build is what `best_m` says it is: once the objective has improved on the
    /// starting value, an admissible build with exactly that objective.
    pub open spec fn best_ok(&self) -> bool {
        &&& self.best_m.raw <= worst_objective().raw
        &&& self.best_candidate.slot_prefixes@.len() == self.space@.len()
        &&& self.best_m.raw < worst_objective().raw ==> {
            &&& self.space@.admissible(
                self.best_candidate.slot_prefixes@,
                self.best_candidate.infusions,
            )
            &&& self.objective(self.best_candidate.slot_prefixes@, self.best_candidate.infusions)
                == self.best_m
        }
        &&& self.best_m.raw == worst_objective().raw ==> {
            &&& self.best_candidate.slot_prefixes@ == Seq::new(
                self.space@.len() as nat,
                |i: int| 0u8,
            )
            &&& self.best_candidate.infusions == PerStat::<u8>::splat(0)
        }
    }

    /// The parts of the state fit together.
    pub open spec fn wf(&self) -> bool {
        &&& self.ch.wf()
        &&& self.cfg.wf()
        &&& self.space.wf()
        &&& self.cur.slot_prefixes@.len() == self.space@.len()
        &&& self.cur.prefix_weights@.len() == self.space.num_prefixes
        &&& self.best_ok()
    }

    /// The state on entry to slot `i`: the first `i` slots are assigned, in canonical order,
    /// `gear` is what they give, and the weights of the prefixes are those of these slots.
    pub open spec fn searching(&self, i: int, gear: Stats) -> bool {
        &&& self.wf()
        &&& 0 <= i <= self.space@.len()
        &&& self.space@.assigns(self.cur.slot_prefixes@, i)
        &&& self.space@.canonical_upto(self.cur.slot_prefixes@, i)
        &&& gear == self.space@.gear_upto(self.cur.slot_prefixes@, i)
        &&& forall|p: int|
            0 <= p < self.space.num_prefixes ==> #[trigger] self.cur.prefix_weights@[p]
                == self.space@.weight_upto(self.cur.slot_prefixes@, p, i)
        &&& self.cur.infusions == PerStat::<u8>::splat(0)
    }

    /// The state on entry to the attribute at position `k`: every slot is assigned, the
    /// attributes before `k` have their infusions, `unassigned` infusions are left, and
    /// `gear` is what slots and infusions give so far.
    pub open spec fn infusing(&self, k: int, unassigned: int, gear: Stats) -> bool {
        &&& self.wf()
        &&& 0 <= k <= Stat::COUNT
        &&& 0 <= unassigned
        &&& self.space@.assigns(self.cur.slot_prefixes@, self.space@.len())
        &&& self.space@.canonical_upto(self.cur.slot_prefixes@, self.space@.len())
        &&& self.space@.in_band(self.cur.slot_prefixes@)
        &&& gear == infused(
            self.space@.gear_upto(self.cur.slot_prefixes@, self.space@.len()),
            self.cur.infusions,
            k,
        )
        &&& forall|stat: Stat| stat.index() >= k ==> #[trigger] self.cur.infusions.at(stat) == 0
        &&& infusion_count(self.cur.infusions, k) + unassigned <= self.space.num_infusions
    }

    /// Evaluates the build with the attributes `gear`.
    fn evaluate_current(&mut self, gear: Stats) -> (m: Fixed)
        requires
            old(self).ch.wf(),
            old(self).cfg.wf(),
        ensures
            m == score(old(self).ch, &gear, old(self).cfg),
            final(self).ch == old(self).ch,
            final(self).cfg == old(self).cfg,
            final(self).space == old(self).space,
            final(self).cur == old(self).cur,
            final(self).best_m == old(self).best_m,
            final(self).best_candidate == old(self).best_candidate,
    {
        if self.tried < usize::MAX {
            self.tried += 1;
        }
        evaluate_config(self.ch, &gear, self.cfg)
    }

    /// Allocates the infusions from the attribute at position `stat_idx` on, in every way
    /// that the bound does not rule out, and keeps the best build found.
    ///
    /// Where the search may prune, the best objective is afterwards no worse than that of any
    /// allocation that keeps the infusions made so far and uses no more than are left.
    fn go_infusions(&mut self, stat_idx: usize, num_unassigned: usize, gear: Stats)
        requires
            old(self).infusing(stat_idx as int, num_unassigned as int, gear),
        ensures
            final(self).infusing(stat_idx as int, num_unassigned as int, gear),
            final(self).ch == old(self).ch,
            final(self).cfg == old(self).cfg,
            final(self).space == old(self).space,
            final(self).cur.slot_prefixes@ == old(self).cur.slot_prefixes@,
            final(self).cur.prefix_weights@ == old(self).cur.prefix_weights@,
            final(self).cur.infusions == old(self).cur.infusions,
            final(self).best_m.raw <= old(self).best_m.raw,
            old(self).may_prune() ==> forall|f: PerStat<u8>|
                (forall|stat: Stat|
                    stat.index() < stat_idx ==> #[trigger] f.at(stat) == old(self).cur.infusions.at(
                        stat,
                    )) && infusion_count(f, Stat::COUNT as int) - infusion_count(
                    f,
                    stat_idx as int,
                ) <= num_unassigned ==> final(self).best_m.raw <= (#[trigger] build_objective(
                    old(self).ch,
                    old(self).cfg,
                    old(self).space@,
                    old(self).cur.slot_prefixes@,
                    f,
                )).raw,
        decreases Stat::COUNT - stat_idx,
    {
        let ghost ch = self.ch;
        let ghost cfg = self.cfg;
        let ghost space = self.space@;
        let ghost a = self.cur.slot_prefixes@;
        let ghost inf = self.cur.infusions;
        let ghost base = space.gear_upto(a, space.len());
        proof {
            lemma_infusion_count(inf, stat_idx as int);
        }
        if stat_idx >= Stat::COUNT || num_unassigned == 0 {
            proof {
                lemma_infused_rest_zero(base, inf, stat_idx as int, Stat::COUNT as int);
            }
            let m = self.evaluate_current(gear);
            assert(m == build_objective(ch, cfg, space, a, inf));
            if m.lt(self.best_m) {
                self.best_m = m;
                self.best_candidate = self.cur.copy();
            }
            proof {
                assert forall|f: PerStat<u8>|
                    (forall|stat: Stat|
                        stat.index() < stat_idx ==> #[trigger] f.at(stat) == inf.at(stat))
                        && infusion_count(f, Stat::COUNT as int) - infusion_count(
                        f,
                        stat_idx as int,
                    ) <= num_unassigned implies self.best_m.raw <= (#[trigger] build_objective(
                        ch,
                        cfg,
                        space,
                        a,
                        f,
                    )).raw by {
                    lemma_infusion_tail(f, stat_idx as int, Stat::COUNT as int);
                    assert forall|stat: Stat| #[trigger] f.at(stat) == inf.at(stat) by {
                        if stat.index() >= stat_idx {
                            assert(inf.at(stat) == 0);
                        }
                    }
                    lemma_infused_agree(base, f, inf, Stat::COUNT as int);
                }
            }
            return ;
        }
        let optimistic = optimistic_infusions(stat_idx, num_unassigned);
        let max_gear = gear.add(optimistic);
        let max_m = self.evaluate_current(max_gear);
        if max_m.gt(self.best_m) {
            // Even with every infusion left given to every attribute left, the best cannot be
            // improved on.
            proof {
                if old(self).may_prune() {
                    assert forall|f: PerStat<u8>|
                        (forall|stat: Stat|
                            stat.index() < stat_idx ==> #[trigger] f.at(stat) == inf.at(stat))
                            && infusion_count(f, Stat::COUNT as int) - infusion_count(
                            f,
                            stat_idx as int,
                        ) <= num_unassigned implies self.best_m.raw <= (#[trigger] build_objective(
                            ch,
                            cfg,
                            space,
                            a,
                            f,
                        )).raw by {
                        lemma_infusion_bound(base, inf, f, stat_idx as int, num_unassigned as int);
                        lemma_gear_nonneg(space, a, space.len());
                        lemma_infused_nonneg(base, f, Stat::COUNT as int);
                        assert(stats_le(space.gear(a, f), max_gear));
                    }
                }
            }
            return ;
        }
        let stat = Stat::from_index(stat_idx);
        let mut n: usize = 0;
        while n <= num_unassigned
            invariant
                n <= num_unassigned + 1,
                num_unassigned <= u8::MAX,
                stat_idx < Stat::COUNT,
                stat == Stat::from_index(stat_idx),
                stat.index() == stat_idx,
                ch == old(self).ch,
                cfg == old(self).cfg,
                space == old(self).space@,
                a == old(self).cur.slot_prefixes@,
                inf == old(self).cur.infusions,
                base == space.gear_upto(a, space.len()),
                old(self).infusing(stat_idx as int, num_unassigned as int, gear),
                self.infusing(stat_idx as int, num_unassigned as int, gear),
                self.ch == old(self).ch,
                self.cfg == old(self).cfg,
                self.space == old(self).space,
                self.cur.slot_prefixes@ == a,
                self.cur.prefix_weights@ == old(self).cur.prefix_weights@,
                self.cur.infusions == inf,
                self.best_m.raw <= old(self).best_m.raw,
                old(self).may_prune() ==> forall|f: PerStat<u8>|
                    (forall|s: Stat| s.index() < stat_idx ==> #[trigger] f.at(s) == inf.at(s))
                        && infusion_count(f, Stat::COUNT as int) - infusion_count(
                        f,
                        stat_idx as int,
                    ) <= num_unassigned && f.at(stat) < n ==> self.best_m.raw <= (
                    #[trigger] build_objective(ch, cfg, space, a, f)).raw,
            decreases num_unassigned + 1 - n,
        {
            let count: u8 = n as u8;
            self.cur.infusions.set(stat, count);
            let next_gear = gear.add(infusion_stats(stat, count));
            let ghost now = self.cur.infusions;
            proof {
                assert forall|s: Stat| s.index() < stat_idx implies #[trigger] now.at(s) == inf.at(
                    s,
                ) by {}
                lemma_infused_agree(base, now, inf, stat_idx as int);
                lemma_infusion_count_agree(now, inf, stat_idx as int);
                assert(now.at(stat) == count);
                assert forall|s: Stat| s.index() >= stat_idx + 1 implies #[trigger] now.at(s)
                    == 0 by {
                    assert(inf.at(s) == 0);
                }
            }
            self.go_infusions(stat_idx + 1, num_unassigned - n, next_gear);
            let ghost found = self.best_m;
            self.cur.infusions.set(stat, 0);
            proof {
                assert(self.cur.infusions == inf) by {
                    assert(inf.at(stat) == 0);
                    assert(now == inf.with(stat, count));
                }
                assert(self.best_m == found);
                if old(self).may_prune() {
                    assert forall|f: PerStat<u8>|
                        (forall|s: Stat|
                            s.index() < stat_idx ==> #[trigger] f.at(s) == inf.at(s))
                            && infusion_count(f, Stat::COUNT as int) - infusion_count(
                            f,
                            stat_idx as int,
                        ) <= num_unassigned && f.at(stat) < n + 1 implies self.best_m.raw <= (
                        #[trigger] build_objective(ch, cfg, space, a, f)).raw by {
                        if f.at(stat) == n {
                            assert forall|s: Stat| s.index() < stat_idx + 1 implies #[trigger] f.at(
                                s,
                            ) == now.at(s) by {
                                if s.index() < stat_idx {
                                    assert(f.at(s) == inf.at(s));
                                } else {
                                    assert(s == stat);
                                }
                            }
                            assert(infusion_count(f, stat_idx + 1) == infusion_count(
                                f,
                                stat_idx as int,
                            ) + f.at(stat));
                        } else {
                            assert(f.at(stat) < n);
                        }
                    }
                }
            }
            n += 1;
        }
        proof {
            if old(self).may_prune() {
                assert forall|f: PerStat<u8>|
                    (forall|s: Stat| s.index() < stat_idx ==> #[trigger] f.at(s) == inf.at(s))
                        && infusion_count(f, Stat::COUNT as int) - infusion_count(
                        f,
                        stat_idx as int,
                    ) <= num_unassigned implies self.best_m.raw <= (#[trigger] build_objective(
                        ch,
                        cfg,
                        space,
                        a,
                        f,
                    )).raw by {
                    lemma_infusion_tail(f, stat_idx as int, Stat::COUNT as int);
                    assert(f.at(stat) <= num_unassigned);
                }
            }
        }
    }
}

impl<'a, C: CharacterModel> Optimizer<'a, C> {
    /// Whether the weight of every prefix can still end within its band, with the first `i`
    /// slots assigned as they are.
    fn bands_open(&self, i: usize) -> (open: bool)
        requires
            self.wf(),
            i <= self.space@.len(),
            forall|p: int|
                0 <= p < self.space.num_prefixes ==> #[trigger] self.cur.prefix_weights@[p]
                    == self.space@.weight_upto(self.cur.slot_prefixes@, p, i as int),
        ensures
            open == forall|p: int|
                0 <= p < self.space.num_prefixes ==> #[trigger] self.space@.band_open(
                    self.cur.slot_prefixes@,
                    p,
                    i as int,
                ),
    {
        match &self.space.target_prefix_weights {
            None => true,
            Some(tpw) => {
                let max_inc = self.space.slot_remaining_weight[i];
                let mut p: usize = 0;
                while p < self.space.num_prefixes
                    invariant
                        self.wf(),
                        i <= self.space@.len(),
                        p <= self.space.num_prefixes,
                        self.space.target_prefix_weights == Some(*tpw),
                        max_inc == self.space@.remaining_weight(i as int),
                        forall|q: int|
                            0 <= q < self.space.num_prefixes
                                ==> #[trigger] self.cur.prefix_weights@[q]
                                == self.space@.weight_upto(self.cur.slot_prefixes@, q, i as int),
                        forall|q: int|
                            0 <= q < p ==> #[trigger] self.space@.band_open(
                                self.cur.slot_prefixes@,
                                q,
                                i as int,
                            ),
                    decreases self.space.num_prefixes - p,
                {
                    let w = self.cur.prefix_weights[p];
                    let (lo, hi) = tpw[p];
                    if w.gt(hi) || w.add(max_inc).lt(lo) {
                        // The weight of this prefix can no longer land within its band.
                        proof {
                            assert(!self.space@.band_open(
                                self.cur.slot_prefixes@,
                                p as int,
                                i as int,
                            ));
                        }
                        return false;
                    }
                    p += 1;
                }
                true
            },
        }
    }

    /// Whether the search below slot `i` can be cut: the weight of some prefix can no longer
    /// end within its band, or even an optimistic bound on what the remaining slots give does
    /// not improve on the best.
    fn cut(&mut self, i: usize, gear: Stats) -> (stop: bool)
        requires
            old(self).searching(i as int, gear),
        ensures
            final(self).searching(i as int, gear),
            final(self).ch == old(self).ch,
            final(self).cfg == old(self).cfg,
            final(self).space == old(self).space,
            final(self).cur == old(self).cur,
            final(self).best_m == old(self).best_m,
            final(self).best_candidate == old(self).best_candidate,
            !stop ==> forall|p: int|
                0 <= p < old(self).space.num_prefixes ==> #[trigger] old(self).space@.band_open(
                    old(self).cur.slot_prefixes@,
                    p,
                    i as int,
                ),
            stop && old(self).may_prune() ==> forall|a: Seq<u8>, f: PerStat<u8>|
                old(self).space@.admissible(a, f) && (forall|k: int|
                    0 <= k < i ==> a[k] == old(self).cur.slot_prefixes@[k]) ==> old(self).best_m.raw
                    <= (#[trigger] build_objective(
                    old(self).ch,
                    old(self).cfg,
                    old(self).space@,
                    a,
                    f,
                )).raw,
    {
        let ghost ch = self.ch;
        let ghost cfg = self.cfg;
        let ghost space = self.space@;
        let ghost start = self.cur.slot_prefixes@;
        if !self.bands_open(i) {
            proof {
                if old(self).may_prune() {
                    let p = choose|p: int|
                        0 <= p < space.num_prefixes && !#[trigger] space.band_open(
                            start,
                            p,
                            i as int,
                        );
                    assert forall|a: Seq<u8>, f: PerStat<u8>|
                        space.admissible(a, f) && (forall|k: int|
                            0 <= k < i ==> a[k] == start[k]) implies self.best_m.raw <= (
                    #[trigger] build_objective(ch, cfg, space, a, f)).raw by {
                        lemma_band_closed(space, a, start, p, i as int);
                    }
                }
            }
            return true;
        }
        if i >= self.space.slots.len() {
            return false;
        }
        let max_gear = gear.add(self.space.slot_remaining_stats[i]);
        let max_m = self.evaluate_current(max_gear);
        if max_m.gt(self.best_m) {
            // Even with a wildly optimistic bound on what the remaining slots can give, the
            // best cannot be improved on.  This relies on more attributes never being worse.
            proof {
                if old(self).may_prune() {
                    assert forall|a: Seq<u8>, f: PerStat<u8>|
                        space.admissible(a, f) && (forall|k: int|
                            0 <= k < i ==> a[k] == start[k]) implies self.best_m.raw <= (
                    #[trigger] build_objective(ch, cfg, space, a, f)).raw by {
                        lemma_prefix_only(space, a, start, i as int);
                        lemma_completion_bound(space, a, f, i as int);
                        lemma_gear_nonneg(space, a, space.len());
                        lemma_infused_nonneg(space.gear_upto(a, space.len()), f, Stat::COUNT as int);
                        assert(stats_le(space.gear(a, f), max_gear));
                    }
                }
            }
            return true;
        }
        false
    }

    /// Allocates the infusions of a build whose slots are all assigned and whose weights lie
    /// within the bands.
    fn finish(&mut self, gear: Stats)
        requires
            old(self).searching(old(self).space@.len(), gear),
            forall|p: int|
                0 <= p < old(self).space.num_prefixes ==> #[trigger] old(self).space@.band_open(
                    old(self).cur.slot_prefixes@,
                    p,
                    old(self).space@.len(),
                ),
        ensures
            final(self).searching(old(self).space@.len(), gear),
            final(self).ch == old(self).ch,
            final(self).cfg == old(self).cfg,
            final(self).space == old(self).space,
            final(self).cur.slot_prefixes@ == old(self).cur.slot_prefixes@,
            final(self).cur.prefix_weights@ == old(self).cur.prefix_weights@,
            final(self).best_m.raw <= old(self).best_m.raw,
            old(self).may_prune() ==> forall|f: PerStat<u8>|
                infusion_count(f, Stat::COUNT as int) <= old(self).space.num_infusions
                    ==> final(self).best_m.raw <= (#[trigger] build_objective(
                    old(self).ch,
                    old(self).cfg,
                    old(self).space@,
                    old(self).cur.slot_prefixes@,
                    f,
                )).raw,
    {
        let ghost space = self.space@;
        let ghost start = self.cur.slot_prefixes@;
        proof {
            match space.bands {
                Some(b) => {
                    assert forall|p: int| 0 <= p < space.num_prefixes implies (
                    #[trigger] b[p]).0.raw <= space.weight_upto(start, p, space.len()).raw
                        <= b[p].1.raw by {
                        assert(space.band_open(start, p, space.len()));
                    }
                },
                None => {},
            }
        }
        let num_infusions = self.space.num_infusions;
        self.go_infusions(0, num_infusions, gear);
    }

    /// Assigns prefixes to slot `i` and all further slots, and then the infusions, in every
    /// way that symmetry breaking, the bands and the bound do not rule out, and keeps the best
    /// build found.
    ///
    /// Where the search may prune, the best objective is afterwards no worse than that of any
    /// admissible build that keeps the prefixes of the first `i` slots.
    fn go_slots(&mut self, i: usize, gear: Stats)
        requires
            old(self).searching(i as int, gear),
        ensures
            final(self).searching(i as int, gear),
            final(self).ch == old(self).ch,
            final(self).cfg == old(self).cfg,
            final(self).space == old(self).space,
            forall|k: int|
                0 <= k < i ==> final(self).cur.slot_prefixes@[k] == old(self).cur.slot_prefixes@[k],
            final(self).cur.prefix_weights@ == old(self).cur.prefix_weights@,
            final(self).best_m.raw <= old(self).best_m.raw,
            old(self).may_prune() ==> forall|a: Seq<u8>, f: PerStat<u8>|
                old(self).space@.admissible(a, f) && (forall|k: int|
                    0 <= k < i ==> a[k] == old(self).cur.slot_prefixes@[k]) ==> final(self).best_m.raw
                    <= (#[trigger] build_objective(
                    old(self).ch,
                    old(self).cfg,
                    old(self).space@,
                    a,
                    f,
                )).raw,
        decreases old(self).space@.len() - i, 1int,
    {
        let ghost ch = self.ch;
        let ghost cfg = self.cfg;
        let ghost space = self.space@;
        let ghost start = self.cur.slot_prefixes@;
        let n = self.space.slots.len();
        if self.cut(i, gear) {
            return ;
        }
        if i >= n {
            self.finish(gear);
            proof {
                if old(self).may_prune() {
                    assert forall|a: Seq<u8>, f: PerStat<u8>|
                        space.admissible(a, f) && (forall|k: int|
                            0 <= k < i ==> a[k] == start[k]) implies self.best_m.raw <= (
                    #[trigger] build_objective(ch, cfg, space, a, f)).raw by {
                        assert(a =~= start);
                    }
                }
            }
            return ;
        }
        let mut j: usize = 0;
        while j < self.space.num_prefixes
            invariant
                j <= self.space.num_prefixes,
                i < n,
                n == space.len(),
                ch == old(self).ch,
                cfg == old(self).cfg,
                space == old(self).space@,
                start == old(self).cur.slot_prefixes@,
                old(self).searching(i as int, gear),
                self.searching(i as int, gear),
                self.ch == old(self).ch,
                self.cfg == old(self).cfg,
                self.space == old(self).space,
                forall|k: int| 0 <= k < i ==> self.cur.slot_prefixes@[k] == start[k],
                self.cur.prefix_weights@ == old(self).cur.prefix_weights@,
                self.best_m.raw <= old(self).best_m.raw,
                old(self).may_prune() ==> forall|a: Seq<u8>, f: PerStat<u8>|
                    space.admissible(a, f) && (forall|k: int| 0 <= k < i ==> a[k] == start[k])
                        && a[i as int] < j ==> self.best_m.raw <= (#[trigger] build_objective(
                        ch,
                        cfg,
                        space,
                        a,
                        f,
                    )).raw,
            decreases self.space.num_prefixes - j,
        {
            self.try_prefix(i, j, gear);
            j += 1;
        }
        proof {
            if old(self).may_prune() {
                assert forall|a: Seq<u8>, f: PerStat<u8>|
                    space.admissible(a, f) && (forall|k: int|
                        0 <= k < i ==> a[k] == start[k]) implies self.best_m.raw <= (
                #[trigger] build_objective(ch, cfg, space, a, f)).raw by {
                    assert(a[i as int] < space.num_prefixes);
                }
            }
        }
    }

    /// Gives slot `i` the prefix at position `j`, unless symmetry breaking forbids it, and
    /// searches the further slots.
    ///
    /// Where the search may prune, the best objective is afterwards no worse than that of any
    /// admissible build that keeps the prefixes of the first `i` slots and has this prefix in
    /// slot `i`.
    fn try_prefix(&mut self, i: usize, j: usize, gear: Stats)
        requires
            old(self).searching(i as int, gear),
            i < old(self).space@.len(),
            j < old(self).space.num_prefixes,
        ensures
            final(self).searching(i as int, gear),
            final(self).ch == old(self).ch,
            final(self).cfg == old(self).cfg,
            final(self).space == old(self).space,
            forall|k: int|
                0 <= k < i ==> final(self).cur.slot_prefixes@[k] == old(self).cur.slot_prefixes@[k],
            final(self).cur.prefix_weights@ == old(self).cur.prefix_weights@,
            final(self).best_m.raw <= old(self).best_m.raw,
            old(self).may_prune() ==> forall|a: Seq<u8>, f: PerStat<u8>|
                old(self).space@.admissible(a, f) && (forall|k: int|
                    0 <= k < i ==> a[k] == old(self).cur.slot_prefixes@[k]) && a[i as int] == j
                    ==> final(self).best_m.raw <= (#[trigger] build_objective(
                    old(self).ch,
                    old(self).cfg,
                    old(self).space@,
                    a,
                    f,
                )).raw,
        decreases old(self).space@.len() - i, 0int,
    {
        let ghost ch = self.ch;
        let ghost cfg = self.cfg;
        let ghost space = self.space@;
        let ghost level = self.cur.slot_prefixes@;
        let ghost weights_before = self.cur.prefix_weights@;
        let weight = self.space.slots[i].stat_weight;
        // Symmetry breaking: along a run of slots of the same weight, such as the two rings,
        // the prefixes must not decrease.
        if i > 0 && weight == self.space.slots[i - 1].stat_weight && (j as u8)
            < self.cur.slot_prefixes[i - 1] {
            proof {
                assert forall|a: Seq<u8>, f: PerStat<u8>|
                    space.admissible(a, f) && (forall|k: int| 0 <= k < i ==> a[k] == level[k])
                        && a[i as int] == j implies self.best_m.raw <= (#[trigger] build_objective(
                    ch,
                    cfg,
                    space,
                    a,
                    f,
                )).raw by {
                    assert(a[i - 1] == level[i - 1]);
                    assert(a[i - 1] <= a[i as int]);
                }
            }
            return ;
        }
        let n = self.space.slots.len();
        proof {
            assert(space.table[i as int].len() == space.num_prefixes);
            assert(i < n);
        }
        self.cur.slot_prefixes[i] = j as u8;
        let old_prefix_weight = self.cur.prefix_weights[j];
        self.cur.prefix_weights[j] = old_prefix_weight.add(weight);
        let slot_stats = self.space.slot_stats[i][j];
        let next_gear = gear.add(slot_stats);
        let ghost chosen = self.cur.slot_prefixes@;
        proof {
            lemma_assign_next(
                space,
                level,
                chosen,
                i as int,
                j as int,
                weights_before,
                self.cur.prefix_weights@,
            );
        }
        self.go_slots(i + 1, next_gear);
        let ghost after = self.cur.slot_prefixes@;
        self.cur.prefix_weights[j] = old_prefix_weight;
        proof {
            assert(self.cur.prefix_weights@ =~= weights_before);
            lemma_prefix_only(space, after, level, i as int);
            if old(self).may_prune() {
                assert forall|a: Seq<u8>, f: PerStat<u8>|
                    space.admissible(a, f) && (forall|k: int| 0 <= k < i ==> a[k] == level[k])
                        && a[i as int] == j implies self.best_m.raw <= (#[trigger] build_objective(
                    ch,
                    cfg,
                    space,
                    a,
                    f,
                )).raw by {
                    assert forall|k: int| 0 <= k < i + 1 implies a[k] == chosen[k] by {
                        if k < i {
                            assert(chosen[k] == level[k]);
                        }
                    }
                }
            }
        }
    }

    /// Runs the search from the first slot.
    ///
    /// Afterwards the best build is what [`Optimizer::best_ok`] says.  Where more of any
    /// attribute never makes the objective worse and nothing in the space is negative, no
    /// admissible build has a better objective than the best found.
    pub fn optimize(&mut self)
        requires
            old(self).searching(0, PerStat::splat(Fixed::zero())),
        ensures
            final(self).wf(),
            final(self).ch == old(self).ch,
            final(self).cfg == old(self).cfg,
            final(self).space == old(self).space,
            final(self).best_m.raw <= old(self).best_m.raw,
            old(self).may_prune() ==> forall|a: Seq<u8>, f: PerStat<u8>|
                old(self).space@.admissible(a, f) ==> final(self).best_m.raw <= (
                #[trigger] build_objective(old(self).ch, old(self).cfg, old(self).space@, a, f)).raw,
    {
        self.go_slots(0, PerStat::splat(Fixed::zero()));
    }
}

/// A build that keeps the first `k` slots of `start` is not within the bands where the band
/// of some prefix `p` is closed after these slots.
pub proof fn lemma_band_closed(space: Space, a: Seq<u8>, start: Seq<u8>, p: int, k: int)
    requires
        space.wf(),
        space.nonneg(),
        0 <= k <= space.len(),
        0 <= p < space.num_prefixes,
        a.len() == space.len(),
        start.len() == space.len(),
        forall|i: int| 0 <= i < k ==> a[i] == start[i],
        !space.band_open(start, p, k),
    ensures
        !space.in_band(a),
{
    lemma_prefix_only(space, a, start, k);
    lemma_weight_bounds(space, a, p, k);
    if space.in_band(a) {
        assert(space.bands->0[p].0.raw <= space.weight_upto(a, p, space.len()).raw
            <= space.bands->0[p].1.raw);
    }
}

/// What follows from giving slot `i` the prefix `j`: one more slot is assigned, in canonical
/// order where the prefix does not decrease along a tie, and the weights are those of the
/// longer assignment.
pub proof fn lemma_assign_next(
    space: Space,
    level: Seq<u8>,
    chosen: Seq<u8>,
    i: int,
    j: int,
    before: Seq<Fixed>,
    after: Seq<Fixed>,
)
    requires
        space.wf(),
        0 <= i < space.len(),
        0 <= j < space.num_prefixes,
        space.assigns(level, i),
        space.canonical_upto(level, i),
        chosen == level.update(i, j as u8),
        i > 0 && space.weights[i] == space.weights[i - 1] ==> level[i - 1] <= j,
        before.len() == space.num_prefixes,
        forall|p: int| 0 <= p < space.num_prefixes ==> #[trigger] before[p] == space.weight_upto(level, p, i),
        after == before.update(j, before[j].add(space.weights[i])),
    ensures
        space.assigns(chosen, i + 1),
        space.canonical_upto(chosen, i + 1),
        space.gear_upto(chosen, i + 1) == space.gear_upto(level, i).add(space.table[i][j]),
        forall|p: int|
            0 <= p < space.num_prefixes ==> #[trigger] after[p] == space.weight_upto(
                chosen,
                p,
                i + 1,
            ),
{
    lemma_prefix_only(space, chosen, level, i);
    assert forall|p: int| 0 <= p < space.num_prefixes implies #[trigger] after[p]
        == space.weight_upto(chosen, p, i + 1) by {
        assert(before[p] == space.weight_upto(level, p, i));
    }
    assert forall|k: int| 0 <= k < i + 1 implies (#[trigger] chosen[k]) < space.num_prefixes by {
        if k < i {
            assert(level[k] < space.num_prefixes);
        }
    }
    assert forall|k: int|
        1 <= k < i + 1 && space.weights[k] == space.weights[k - 1] implies chosen[k - 1]
        <= #[trigger] chosen[k] by {
        if k < i {
            assert(level[k - 1] <= level[k]);
        }
    }
}

/// The most that each attribute can still get from infusions: nothing for the attributes
/// before position `stat_idx`, and all `unassigned` infusions for each of the others.
pub open spec fn spec_optimistic_infusions(stat_idx: usize, unassigned: usize) -> Stats {
    let all = Fixed::from_int((INFUSION_POINTS * (unassigned as i64)) as i64);
    PerStat {
        power: if 0 < stat_idx { Fixed::zero() } else { all },
        precision: if 1 < stat_idx { Fixed::zero() } else { all },
        ferocity: if 2 < stat_idx { Fixed::zero() } else { all },
        condition_damage: if 3 < stat_idx { Fixed::zero() } else { all },
        expertise: if 4 < stat_idx { Fixed::zero() } else { all },
        vitality: if 5 < stat_idx { Fixed::zero() } else { all },
        toughness: if 6 < stat_idx { Fixed::zero() } else { all },
        healing_power: if 7 < stat_idx { Fixed::zero() } else { all },
        concentration: if 8 < stat_idx { Fixed::zero() } else { all },
    }
}

/// The most that each attribute can still get from infusions.
#[verifier::when_used_as_spec(spec_optimistic_infusions)]
pub fn optimistic_infusions(stat_idx: usize, unassigned: usize) -> (r: Stats)
    requires
        unassigned <= u8::MAX,
    ensures
        r == spec_optimistic_infusions(stat_idx, unassigned),
{
    let all = Fixed::from_int(INFUSION_POINTS * (unassigned as i64));
    PerStat {
        power: if 0 < stat_idx { Fixed::zero() } else { all },
        precision: if 1 < stat_idx { Fixed::zero() } else { all },
        ferocity: if 2 < stat_idx { Fixed::zero() } else { all },
        condition_damage: if 3 < stat_idx { Fixed::zero() } else { all },
        expertise: if 4 < stat_idx { Fixed::zero() } else { all },
        vitality: if 5 < stat_idx { Fixed::zero() } else { all },
        toughness: if 6 < stat_idx { Fixed::zero() } else { all },
        healing_power: if 7 < stat_idx { Fixed::zero() } else { all },
        concentration: if 8 < stat_idx { Fixed::zero() } else { all },
    }
}

/// For one attribute: however the infusions left are allocated from position `k` on, the
/// attribute stays below what is reached so far plus the optimistic bound.
pub proof fn lemma_infusion_bound_at(
    base: Stats,
    inf: PerStat<u8>,
    f: PerStat<u8>,
    k: int,
    unassigned: int,
    stat: Stat,
)
    requires
        0 <= k <= Stat::COUNT,
        0 <= unassigned <= u8::MAX,
        forall|s: Stat| s.index() < k ==> #[trigger] f.at(s) == inf.at(s),
        infusion_count(f, Stat::COUNT as int) - infusion_count(f, k) <= unassigned,
    ensures
        infused(base, f, Stat::COUNT as int).at(stat).raw <= infused(base, inf, k).add(
            optimistic_infusions(k as usize, unassigned as usize),
        ).at(stat).raw,
{
    lemma_infused(base, f, Stat::COUNT as int);
    lemma_infused(base, inf, k);
    lemma_infusion_tail(f, k, Stat::COUNT as int);
    let total = infused(base, f, Stat::COUNT as int).at(stat);
    let reached = infused(base, inf, k).at(stat);
    let extra = optimistic_infusions(k as usize, unassigned as usize).at(stat);
    assert(infused(base, inf, k).add(optimistic_infusions(k as usize, unassigned as usize)).at(
        stat,
    ) == reached.add(extra));
    if stat.index() < k {
        assert(f.at(stat) == inf.at(stat));
        assert(extra == Fixed::zero());
    } else {
        assert(f.at(stat) <= unassigned);
        assert(reached == base.at(stat));
        assert(extra == Fixed::from_int((INFUSION_POINTS * (unassigned as i64)) as i64));
    }
}

/// However the infusions left are allocated from position `k` on, the attributes stay below
/// those reached so far plus the optimistic bound.
pub proof fn lemma_infusion_bound(
    base: Stats,
    inf: PerStat<u8>,
    f: PerStat<u8>,
    k: int,
    unassigned: int,
)
    requires
        0 <= k <= Stat::COUNT,
        0 <= unassigned <= u8::MAX,
        forall|stat: Stat| stat.index() < k ==> #[trigger] f.at(stat) == inf.at(stat),
        infusion_count(f, Stat::COUNT as int) - infusion_count(f, k) <= unassigned,
    ensures
        stats_le(
            infused(base, f, Stat::COUNT as int),
            infused(base, inf, k).add(optimistic_infusions(k as usize, unassigned as usize)),
        ),
{
    lemma_infusion_bound_at(base, inf, f, k, unassigned, Stat::Power);
    lemma_infusion_bound_at(base, inf, f, k, unassigned, Stat::Precision);
    lemma_infusion_bound_at(base, inf, f, k, unassigned, Stat::Ferocity);
    lemma_infusion_bound_at(base, inf, f, k, unassigned, Stat::ConditionDamage);
    lemma_infusion_bound_at(base, inf, f, k, unassigned, Stat::Expertise);
    lemma_infusion_bound_at(base, inf, f, k, unassigned, Stat::Vitality);
    lemma_infusion_bound_at(base, inf, f, k, unassigned, Stat::Toughness);
    lemma_infusion_bound_at(base, inf, f, k, unassigned, Stat::HealingPower);
    lemma_infusion_bound_at(base, inf, f, k, unassigned, Stat::Concentration);
}

/// Weight of each of the pieces `slots`.
pub open spec fn slot_weights(catalog: &Catalog, slots: Seq<(GearSlot, Quality)>) -> Seq<Fixed> {
    Seq::new(slots.len(), |i: int| catalog.slot_weight(slots[i].0, slots[i].1))
}

/// Where a slot of weight `w` goes among the first `m` entries of `order`: behind the last of
/// them that is at least as heavy.
pub open spec fn insert_pos(order: Seq<usize>, weights: Seq<Fixed>, w: Fixed, m: int) -> int
    decreases m,
{
    if m <= 0 {
        0
    } else if weights[order[m - 1] as int].raw >= w.raw {
        m
    } else {
        insert_pos(order, weights, w, m - 1)
    }
}

/// The first `k` slots in the order of the search: heaviest first, and slots of the same
/// weight in the order in which they were given.
pub open spec fn search_order(weights: Seq<Fixed>, k: int) -> Seq<usize>
    decreases k,
{
    if k <= 0 {
        Seq::empty()
    } else {
        let prev = search_order(weights, k - 1);
        prev.insert(
            insert_pos(prev, weights, weights[k - 1], prev.len() as int),
            (k - 1) as usize,
        )
    }
}

/// The place found for a slot lies within the entries looked at.
pub proof fn lemma_insert_pos(order: Seq<usize>, weights: Seq<Fixed>, w: Fixed, m: int)
    requires
        0 <= m,
    ensures
        0 <= insert_pos(order, weights, w, m) <= m,
        forall|q: int|
            insert_pos(order, weights, w, m) <= q < m ==> weights[#[trigger] order[q] as int].raw
                < w.raw,
        insert_pos(order, weights, w, m) > 0 ==> weights[order[insert_pos(order, weights, w, m)
            - 1] as int].raw >= w.raw,
    decreases m,
{
    if m > 0 && weights[order[m - 1] as int].raw < w.raw {
        lemma_insert_pos(order, weights, w, m - 1);
    }
}

/// The order of the search lists each of the first `k` slots once, heaviest first.
pub proof fn lemma_search_order(weights: Seq<Fixed>, k: int)
    requires
        0 <= k <= weights.len() <= usize::MAX,
    ensures
        search_order(weights, k).len() == k,
        forall|p: int| 0 <= p < k ==> (#[trigger] search_order(weights, k)[p]) < k,
        forall|p: int, q: int|
            0 <= p < q < k ==> search_order(weights, k)[p] != search_order(weights, k)[q],
        forall|p: int, q: int|
            0 <= p < q < k ==> weights[search_order(weights, k)[p] as int].raw
                >= weights[search_order(weights, k)[q] as int].raw,
    decreases k,
{
    if k > 0 {
        lemma_search_order(weights, k - 1);
        let prev = search_order(weights, k - 1);
        let w = weights[k - 1];
        let pos = insert_pos(prev, weights, w, prev.len() as int);
        lemma_insert_pos(prev, weights, w, prev.len() as int);
        let next = prev.insert(pos, (k - 1) as usize);
        prev.insert_ensures(pos, (k - 1) as usize);
        assert(next == search_order(weights, k));
        assert forall|p: int| 0 <= p < k implies (#[trigger] next[p]) < k by {
            if p < pos {
                assert(next[p] == prev[p]);
            } else if p > pos {
                assert(next[p] == prev[p - 1]);
            }
        }
        assert forall|p: int, q: int| 0 <= p < q < k implies next[p] != next[q] && weights[next[p] as int].raw
            >= weights[next[q] as int].raw by {
            let x = if p < pos { prev[p] } else if p == pos { (k - 1) as usize } else { prev[p - 1] };
            let y = if q < pos { prev[q] } else if q == pos { (k - 1) as usize } else { prev[q - 1] };
            assert(next[p] == x);
            assert(next[q] == y);
            if p < pos && q > pos {
                assert(prev[p] != prev[q - 1]);
            }
            if q == pos {
                assert(prev[p] < k - 1);
                assert(weights[prev[pos - 1] as int].raw >= w.raw);
                if p < pos - 1 {
                    assert(weights[prev[p] as int].raw >= weights[prev[pos - 1] as int].raw);
                }
            }
            if p == pos {
                assert(prev[q - 1] < k - 1);
                assert(weights[prev[q - 1] as int].raw < w.raw);
            }
        }
    }
}

/// The space that the fine stage searches for the pieces `slots` and the prefixes of the
/// catalog at the positions `prefix_idxs`.
pub open spec fn fine_space(
    catalog: &Catalog,
    slots: Seq<(GearSlot, Quality)>,
    prefix_idxs: Seq<usize>,
    num_infusions: usize,
    bands: Option<Seq<(Fixed, Fixed)>>,
) -> Space {
    let weights = slot_weights(catalog, slots);
    let order = search_order(weights, slots.len() as int);
    Space {
        weights: Seq::new(slots.len(), |i: int| weights[order[i] as int]),
        table: Seq::new(
            slots.len(),
            |i: int|
                Seq::new(
                    prefix_idxs.len(),
                    |j: int|
                        stats_round(
                            catalog.slots.at(slots[order[i] as int].0).calc_stats(
                                &catalog.prefixes[prefix_idxs[j] as int],
                                slots[order[i] as int].1,
                            ),
                        ),
                ),
        ),
        bands,
        num_prefixes: prefix_idxs.len(),
        num_infusions: num_infusions as nat,
    }
}

/// In a catalog without negative numbers, nothing in the space of the fine stage is negative.
pub proof fn lemma_fine_space_nonneg(
    catalog: &Catalog,
    slots: Seq<(GearSlot, Quality)>,
    prefix_idxs: Seq<usize>,
    num_infusions: usize,
    bands: Option<Seq<(Fixed, Fixed)>>,
)
    requires
        catalog.wf(),
        catalog_nonneg(catalog),
        slots.len() <= usize::MAX,
        forall|j: int| 0 <= j < prefix_idxs.len() ==> prefix_idxs[j] < catalog.prefixes.len(),
    ensures
        fine_space(catalog, slots, prefix_idxs, num_infusions, bands).nonneg(),
{
    let space = fine_space(catalog, slots, prefix_idxs, num_infusions, bands);
    let weights = slot_weights(catalog, slots);
    let order = search_order(weights, slots.len() as int);
    lemma_search_order(weights, slots.len() as int);
    assert forall|i: int, j: int| 0 <= i < space.len() && 0 <= j < space.num_prefixes implies stats_nonneg(
        #[trigger] space.table[i][j],
    ) by {
        let piece = slots[order[i] as int];
        lemma_piece_nonneg(
            catalog.slots.at(piece.0),
            &catalog.prefixes[prefix_idxs[j] as int],
            piece.1,
        );
    }
    assert forall|i: int| 0 <= i < space.len() implies (#[trigger] space.weights[i]).raw >= 0 by {
        let piece = slots[order[i] as int];
        lemma_slot_weight_nonneg(catalog, piece.0, piece.1);
    }
}

/// The slots in the order of the search.
pub fn sort_by_weight(weights: &Vec<Fixed>) -> (order: Vec<usize>)
    ensures
        order@ == search_order(weights@, weights.len() as int),
{
    let mut order: Vec<usize> = Vec::new();
    let mut k: usize = 0;
    while k < weights.len()
        invariant
            k <= weights.len(),
            order@ == search_order(weights@, k as int),
        decreases weights.len() - k,
    {
        proof {
            lemma_search_order(weights@, k as int);
        }
        let w = weights[k];
        let mut pos: usize = order.len();
        while pos > 0 && weights[order[pos - 1]].raw < w.raw
            invariant
                pos <= order.len(),
                order.len() == k,
                k < weights.len(),
                forall|p: int| 0 <= p < k ==> (#[trigger] order@[p]) < k,
                insert_pos(order@, weights@, w, order.len() as int) == insert_pos(
                    order@,
                    weights@,
                    w,
                    pos as int,
                ),
            decreases pos,
        {
            pos -= 1;
        }
        order.insert(pos, k);
        k += 1;
    }
    order
}

impl SearchSpace {
    /// The space for the pieces `slots` and the prefixes of the catalog at the positions
    /// `prefix_idxs`.
    ///
    /// The slots are sorted by decreasing weight, so that the search picks prefixes for the
    /// biggest pieces first.
    pub fn new(
        catalog: &Catalog,
        slots: &[(GearSlot, Quality)],
        num_infusions: usize,
        prefix_idxs: &[usize],
        target_prefix_weights: Option<Vec<(Fixed, Fixed)>>,
    ) -> (r: SearchSpace)
        requires
            catalog.wf(),
            slots@.len() < usize::MAX,
            1 <= prefix_idxs@.len() <= 256,
            forall|j: int| 0 <= j < prefix_idxs@.len() ==> prefix_idxs@[j] < catalog.prefixes.len(),
            num_infusions <= u8::MAX,
            target_prefix_weights matches Some(b) ==> b@.len() == prefix_idxs@.len(),
        ensures
            r.wf(),
            r@ == fine_space(
                catalog,
                slots@,
                prefix_idxs@,
                num_infusions,
                bands_view(target_prefix_weights),
            ),
            r.slots@.len() == slots@.len(),
            forall|i: int|
                0 <= i < slots@.len() ==> (#[trigger] r.slots@[i]).orig_idx == search_order(
                    slot_weights(catalog, slots@),
                    slots@.len() as int,
                )[i],
    {
        let n = slots.len();
        let num_prefixes = prefix_idxs.len();
        let mut weights: Vec<Fixed> = Vec::new();
        let mut i: usize = 0;
        while i < n
            invariant
                catalog.wf(),
                n == slots@.len(),
                i <= n,
                weights@ == slot_weights(catalog, slots@).take(i as int),
            decreases n - i,
        {
            let (slot, quality) = slots[i];
            weights.push(catalog.slot_weight(slot, quality));
            i += 1;
            assert(weights@ =~= slot_weights(catalog, slots@).take(i as int));
        }
        assert(weights@ =~= slot_weights(catalog, slots@));
        let order = sort_by_weight(&weights);
        proof {
            lemma_search_order(weights@, n as int);
        }
        let ghost space = fine_space(
            catalog,
            slots@,
            prefix_idxs@,
            num_infusions,
            bands_view(target_prefix_weights),
        );
        let mut sorted: Vec<SlotExt> = Vec::new();
        let mut slot_stats: Vec<Vec<Stats>> = Vec::new();
        let mut i: usize = 0;
        while i < n
            invariant
                catalog.wf(),
                n == slots@.len(),
                num_prefixes == prefix_idxs@.len(),
                forall|j: int|
                    0 <= j < prefix_idxs@.len() ==> prefix_idxs@[j] < catalog.prefixes.len(),
                i <= n,
                weights@ == slot_weights(catalog, slots@),
                order@ == search_order(weights@, n as int),
                order@.len() == n,
                forall|p: int| 0 <= p < n ==> (#[trigger] order@[p]) < n,
                space == fine_space(
                    catalog,
                    slots@,
                    prefix_idxs@,
                    num_infusions,
                    bands_view(target_prefix_weights),
                ),
                sorted@.len() == i,
                slot_stats@.len() == i,
                forall|k: int|
                    0 <= k < i ==> (#[trigger] sorted@[k]).orig_idx == order@[k] && sorted@[k].stat_weight
                        == space.weights[k],
                forall|k: int| 0 <= k < i ==> (#[trigger] slot_stats@[k])@ == space.table[k],
            decreases n - i,
        {
            let orig_idx = order[i];
            let (gear_slot, quality) = slots[orig_idx];
            let ghost so_far = sorted@;
            sorted.push(SlotExt { orig_idx, gear_slot, quality, stat_weight: weights[orig_idx] });
            let info = catalog.slots.get(gear_slot);
            let mut row: Vec<Stats> = Vec::new();
            let mut j: usize = 0;
            while j < num_prefixes
                invariant
                    num_prefixes == prefix_idxs@.len(),
                    forall|q: int|
                        0 <= q < prefix_idxs@.len() ==> prefix_idxs@[q] < catalog.prefixes.len(),
                    j <= num_prefixes,
                    *info == catalog.slots.at(gear_slot),
                    row@.len() == j,
                    forall|q: int|
                        0 <= q < j ==> #[trigger] row@[q] == stats_round(
                            info.calc_stats(&catalog.prefixes[prefix_idxs@[q] as int], quality),
                        ),
                decreases num_prefixes - j,
            {
                let prefix = &catalog.prefixes[prefix_idxs[j]];
                row.push(stats_round(info.calc_stats(prefix, quality)));
                j += 1;
            }
            proof {
                assert(space.weights[i as int] == weights@[order@[i as int] as int]);
                assert(space.table[i as int].len() == num_prefixes);
                assert forall|q: int| 0 <= q < num_prefixes implies row@[q] == space.table[i as int][q] by {}
                assert(row@ =~= space.table[i as int]);
                assert forall|k: int| 0 <= k < i + 1 implies (#[trigger] sorted@[k]).orig_idx
                    == order@[k] && sorted@[k].stat_weight == space.weights[k] by {
                    if k < i {
                        assert(sorted@[k] == so_far[k]);
                    }
                }
            }
            let ghost rows = slot_stats@;
            slot_stats.push(row);
            proof {
                assert forall|k: int| 0 <= k < i + 1 implies (#[trigger] slot_stats@[k])@
                    == space.table[k] by {
                    if k < i {
                        assert(slot_stats@[k] == rows[k]);
                    }
                }
            }
            i += 1;
        }
        let mut slot_remaining_stats: Vec<Stats> = Vec::new();
        let mut slot_remaining_weight: Vec<Fixed> = Vec::new();
        let mut i: usize = 0;
        while i <= n
            invariant
                i <= n + 1,
                n < usize::MAX,
                slot_remaining_stats@.len() == i,
                slot_remaining_weight@.len() == i,
                forall|k: int| 0 <= k < i ==> #[trigger] slot_remaining_weight@[k] == Fixed::zero(),
            decreases n + 1 - i,
        {
            slot_remaining_stats.push(PerStat::splat(Fixed::zero()));
            slot_remaining_weight.push(Fixed::zero());
            i += 1;
        }
        slot_remaining_stats[n] = max_infusion_stats(num_infusions);
        proof {
            assert(space.weights.len() == n);
            assert(space.table.len() == n);
        }
        let mut i: usize = n;
        while i > 0
            invariant
                i <= n,
                n == space.len(),
                space.num_prefixes == num_prefixes,
                space.num_infusions == num_infusions,
                sorted@.len() == n,
                slot_stats@.len() == n,
                forall|k: int| 0 <= k < n ==> (#[trigger] sorted@[k]).stat_weight == space.weights[k],
                forall|k: int| 0 <= k < n ==> (#[trigger] slot_stats@[k])@ == space.table[k],
                forall|k: int| 0 <= k < n ==> (#[trigger] space.table[k]).len() == num_prefixes,
                slot_remaining_stats@.len() == n + 1,
                slot_remaining_weight@.len() == n + 1,
                forall|k: int|
                    i <= k <= n ==> #[trigger] slot_remaining_stats@[k] == space.remaining_stats(k),
                forall|k: int|
                    i <= k <= n ==> #[trigger] slot_remaining_weight@[k] == space.remaining_weight(k),
            decreases i,
        {
            i -= 1;
            assert(space.table[i as int].len() == num_prefixes);
            assert(slot_stats@[i as int]@ == space.table[i as int]);
            let mut best: Stats = PerStat::splat(Fixed::zero());
            let mut j: usize = 0;
            while j < num_prefixes
                invariant
                    j <= num_prefixes,
                    i < n,
                    slot_stats@.len() == n,
                    slot_stats@[i as int]@.len() == num_prefixes,
                    space.table[i as int] == slot_stats@[i as int]@,
                    best == space.best_upto(i as int, j as int),
                decreases num_prefixes - j,
            {
                best = stats_max(best, slot_stats[i][j]);
                j += 1;
            }
            let stats = slot_remaining_stats[i + 1].add(best);
            let weight = slot_remaining_weight[i + 1].add(sorted[i].stat_weight);
            slot_remaining_stats[i] = stats;
            slot_remaining_weight[i] = weight;
        }
        let r = SearchSpace {
            slots: sorted,
            num_prefixes,
            num_infusions,
            slot_stats,
            slot_remaining_stats,
            slot_remaining_weight,
            target_prefix_weights,
        };
        proof {
            assert(r@.weights =~= space.weights);
            assert(r@.table =~= space.table);
            assert(r@ == space);
        }
        r
    }
}

impl<'a, C: CharacterModel> Optimizer<'a, C> {
    /// A search for the build `ch` with the configuration `cfg`, over the pieces `slots` and
    /// the prefixes of the catalog at the positions `prefix_idxs`, with `num_infusions`
    /// infusions to allocate.  Where `target_prefix_weights` is given, it holds for each of
    /// these prefixes the least and the greatest weight that a build may give it.
    pub fn new(
        ch: &'a C,
        cfg: &'a C::Config,
        catalog: &Catalog,
        slots: &[(GearSlot, Quality)],
        num_infusions: usize,
        prefix_idxs: &[usize],
        target_prefix_weights: Option<Vec<(Fixed, Fixed)>>,
    ) -> (r: Optimizer<'a, C>)
        requires
            ch.wf(),
            cfg.wf(),
            catalog.wf(),
            slots@.len() < usize::MAX,
            1 <= prefix_idxs@.len() <= 256,
            forall|j: int| 0 <= j < prefix_idxs@.len() ==> prefix_idxs@[j] < catalog.prefixes.len(),
            num_infusions <= u8::MAX,
            target_prefix_weights matches Some(b) ==> b@.len() == prefix_idxs@.len(),
        ensures
            r.searching(0, PerStat::splat(Fixed::zero())),
            r.ch == ch,
            r.cfg == cfg,
            r.best_m == worst_objective(),
            r.space@ == fine_space(
                catalog,
                slots@,
                prefix_idxs@,
                num_infusions,
                bands_view(target_prefix_weights),
            ),
            r.space.slots@.len() == slots@.len(),
            forall|i: int|
                0 <= i < slots@.len() ==> (#[trigger] r.space.slots@[i]).orig_idx == search_order(
                    slot_weights(catalog, slots@),
                    slots@.len() as int,
                )[i],
    {
        let space = SearchSpace::new(catalog, slots, num_infusions, prefix_idxs, target_prefix_weights);
        let cur = Candidate::new(slots.len(), prefix_idxs.len());
        let best_candidate = Candidate::new(slots.len(), prefix_idxs.len());
        Optimizer { ch, cfg, space, cur, best_m: worst_objective(), best_candidate, tried: 0 }
    }
}

/// Fraction of the budget by which the weight of a prefix may overshoot or undershoot its
/// target.
pub open spec fn spec_target_margin() -> Fixed {
    Fixed::from_ratio(1, 10)
}

/// Fraction of the budget by which the weight of a prefix may overshoot or undershoot its
/// target.
#[verifier::when_used_as_spec(spec_target_margin)]
pub fn target_margin() -> (r: Fixed)
    ensures
        r == spec_target_margin(),
{
    Fixed::from_ratio(1, 10)
}

/// The band of the prefix with the target weight `target`, where the budget is `max_weight`:
/// from the target less the margin, but not below zero, to the target plus the margin.
pub open spec fn spec_band_around(target: Fixed, max_weight: Fixed) -> (Fixed, Fixed) {
    let margin = target_margin().mul(max_weight);
    (target.sub(margin).max(Fixed::zero()), target.add(margin))
}

/// The band of the prefix with the target weight `target`, where the budget is `max_weight`.
#[verifier::when_used_as_spec(spec_band_around)]
pub fn band_around(target: Fixed, max_weight: Fixed) -> (r: (Fixed, Fixed))
    ensures
        r == spec_band_around(target, max_weight),
{
    let margin = target_margin().mul(max_weight);
    (target.sub(margin).max(Fixed::zero()), target.add(margin))
}

/// The bands that the fine stage keeps to, where it is given target weights.
pub open spec fn target_bands(
    catalog: &Catalog,
    slots: Seq<(GearSlot, Quality)>,
    prefix_idxs: Seq<usize>,
    target: Option<Seq<Fixed>>,
) -> Option<Seq<(Fixed, Fixed)>> {
    match target {
        Some(pw) => Some(
            Seq::new(
                prefix_idxs.len(),
                |j: int| band_around(pw[prefix_idxs[j] as int], spec_calc_max_weight(catalog, slots)),
            ),
        ),
        None => None,
    }
}

/// The target weights as mathematics.
pub open spec fn weights_view(target: Option<&PrefixWeights>) -> Option<Seq<Fixed>> {
    match target {
        Some(pw) => Some(pw@),
        None => None,
    }
}

/// The build `a` with the infusions `f` is an outcome of the fine stage on `space`.
///
/// Either it is an admissible build that improves on the starting objective, or no build did
/// and it is the build that the search starts from.  Where more of any attribute never makes
/// the objective worse and nothing in the space is negative, no admissible build is better.
pub open spec fn is_best_build<C: CharacterModel>(
    ch: &C,
    cfg: &C::Config,
    space: Space,
    a: Seq<u8>,
    f: PerStat<u8>,
) -> bool {
    let found = build_objective(ch, cfg, space, a, f);
    let may_prune = objective_monotone(ch, cfg) && space.nonneg();
    &&& space.assigns(a, space.len())
    &&& {
        ||| {
            &&& space.admissible(a, f)
            &&& found.raw < worst_objective().raw
            &&& may_prune ==> forall|b: Seq<u8>, g: PerStat<u8>|
                space.admissible(b, g) ==> found.raw <= (#[trigger] build_objective(
                    ch,
                    cfg,
                    space,
                    b,
                    g,
                )).raw
        }
        ||| {
            &&& a == Seq::new(space.len() as nat, |i: int| 0u8)
            &&& f == PerStat::<u8>::splat(0)
            &&& may_prune ==> forall|b: Seq<u8>, g: PerStat<u8>|
                space.admissible(b, g) ==> worst_objective().raw <= (#[trigger] build_objective(
                    ch,
                    cfg,
                    space,
                    b,
                    g,
                )).raw
        }
    }
}

/// The objective that the fine stage reports for its outcome: that of the build, or the
/// starting objective where no build improved on it.
pub open spec fn reached_objective<C: CharacterModel>(
    ch: &C,
    cfg: &C::Config,
    space: Space,
    a: Seq<u8>,
    f: PerStat<u8>,
) -> Fixed {
    let found = build_objective(ch, cfg, space, a, f);
    if space.admissible(a, f) && found.raw < worst_objective().raw {
        found
    } else {
        worst_objective()
    }
}

/// The exact stage never does worse than a seed that it could have reached: where the search
/// may prune, its objective is at most that of any admissible build, and so at most any
/// objective `seed_objective` that some admissible build attains or betters.
pub proof fn lemma_fine_not_worse_than_seed<C: CharacterModel>(
    ch: &C,
    cfg: &C::Config,
    space: Space,
    a: Seq<u8>,
    f: PerStat<u8>,
    b: Seq<u8>,
    g: PerStat<u8>,
    seed_objective: Fixed,
)
    requires
        is_best_build(ch, cfg, space, a, f),
        objective_monotone(ch, cfg),
        space.nonneg(),
        space.admissible(b, g),
        build_objective(ch, cfg, space, b, g).raw <= seed_objective.raw,
    ensures
        reached_objective(ch, cfg, space, a, f).raw <= seed_objective.raw,
{
}

/// For each slot in the order in which the slots were given, the position in the catalog of
/// the prefix chosen for it.
fn place_prefixes(slots: &Vec<SlotExt>, choices: &Vec<u8>, prefix_idxs: &[usize]) -> (out: Vec<
    usize,
>)
    requires
        slots@.len() == choices@.len(),
        forall|k: int| 0 <= k < slots@.len() ==> (#[trigger] slots@[k]).orig_idx < slots@.len(),
        forall|p: int, q: int|
            0 <= p < q < slots@.len() ==> slots@[p].orig_idx != slots@[q].orig_idx,
        forall|k: int| 0 <= k < choices@.len() ==> (#[trigger] choices@[k]) < prefix_idxs@.len(),
    ensures
        out@.len() == slots@.len(),
        forall|k: int|
            0 <= k < slots@.len() ==> out@[(#[trigger] slots@[k]).orig_idx as int]
                == prefix_idxs@[choices@[k] as int],
{
    let n = slots.len();
    let mut out: Vec<usize> = Vec::new();
    let mut i: usize = 0;
    while i < n
        invariant
            i <= n,
            out@.len() == i,
        decreases n - i,
    {
        out.push(0);
        i += 1;
    }
    let mut i: usize = 0;
    while i < n
        invariant
            i <= n,
            n == slots@.len(),
            n == choices@.len(),
            out@.len() == n,
            forall|k: int| 0 <= k < n ==> (#[trigger] slots@[k]).orig_idx < n,
            forall|p: int, q: int| 0 <= p < q < n ==> slots@[p].orig_idx != slots@[q].orig_idx,
            forall|k: int| 0 <= k < n ==> (#[trigger] choices@[k]) < prefix_idxs@.len(),
            forall|k: int|
                0 <= k < i ==> out@[(#[trigger] slots@[k]).orig_idx as int]
                    == prefix_idxs@[choices@[k] as int],
        decreases n - i,
    {
        let slot = slots[i].orig_idx;
        let choice = choices[i];
        let ghost before = out@;
        out[slot] = prefix_idxs[choice as usize];
        proof {
            assert forall|k: int| 0 <= k < i + 1 implies out@[(#[trigger] slots@[k]).orig_idx as int]
                == prefix_idxs@[choices@[k] as int] by {
                if k < i {
                    assert(slots@[k].orig_idx != slots@[i as int].orig_idx);
                    assert(before[slots@[k].orig_idx as int] == prefix_idxs@[choices@[k] as int]);
                }
            }
        }
        i += 1;
    }
    out
}

/// What the fine stage returns for the pieces `slots`: `out` names the prefix of each piece,
/// and the build `a` that these prefixes make in the order of the search is an outcome of the
/// search with the infusions `infusions`.  For an objective that more of any attribute never
/// makes worse, no build that the search admits is better.
pub open spec fn is_fine_outcome<C: CharacterModel>(
    ch: &C,
    cfg: &C::Config,
    catalog: &Catalog,
    slots: Seq<(GearSlot, Quality)>,
    prefix_idxs: Seq<usize>,
    target: Option<Seq<Fixed>>,
    out: Seq<usize>,
    infusions: PerStat<u8>,
    a: Seq<u8>,
) -> bool {
    let space = fine_space(
        catalog,
        slots,
        prefix_idxs,
        0,
        target_bands(catalog, slots, prefix_idxs, target),
    );
    let order = search_order(slot_weights(catalog, slots), slots.len() as int);
    &&& is_best_build(ch, cfg, space, a, infusions)
    &&& forall|i: int|
        0 <= i < slots.len() ==> out[#[trigger] order[i] as int] == prefix_idxs[a[i] as int]
    &&& objective_monotone(ch, cfg) ==> forall|b: Seq<u8>, g: PerStat<u8>|
        space.admissible(b, g) ==> reached_objective(ch, cfg, space, a, infusions).raw <= (
        #[trigger] build_objective(ch, cfg, space, b, g)).raw
}

/// Finds the best build for `ch` with the configuration `cfg`: a prefix of the catalog, out
/// of those at the positions `prefix_idxs`, for each of the pieces `slots`.  Where
/// `target_prefix_weights` is given, the weight of each prefix stays within a margin of its
/// entry.  No infusions are allocated.
///
/// The result names, for each piece in the order given, the position of its prefix in the
/// catalog.
pub fn optimize_fine<C: CharacterModel>(
    ch: &C,
    cfg: &C::Config,
    catalog: &Catalog,
    slots: &[(GearSlot, Quality)],
    prefix_idxs: &[usize],
    target_prefix_weights: Option<&PrefixWeights>,
) -> (r: (Vec<usize>, PerStat<u8>))
    requires
        ch.wf(),
        cfg.wf(),
        catalog.wf(),
        slots@.len() < usize::MAX,
        1 <= prefix_idxs@.len() <= 256,
        forall|j: int| 0 <= j < prefix_idxs@.len() ==> prefix_idxs@[j] < catalog.prefixes.len(),
        target_prefix_weights matches Some(pw) ==> pw@.len() == catalog.prefixes.len(),
    ensures
        r.0@.len() == slots@.len(),
        exists|a: Seq<u8>| #[trigger]
            is_fine_outcome(
                ch,
                cfg,
                catalog,
                slots@,
                prefix_idxs@,
                weights_view(target_prefix_weights),
                r.0@,
                r.1,
                a,
            ),
{
    let n = slots.len();
    let bands: Option<Vec<(Fixed, Fixed)>> = match target_prefix_weights {
        Some(pw) => {
            let max_weight = calc_max_weight(catalog, slots);
            let mut bands: Vec<(Fixed, Fixed)> = Vec::new();
            let mut j: usize = 0;
            while j < prefix_idxs.len()
                invariant
                    j <= prefix_idxs@.len(),
                    pw@.len() == catalog.prefixes.len(),
                    forall|q: int|
                        0 <= q < prefix_idxs@.len() ==> prefix_idxs@[q] < catalog.prefixes.len(),
                    max_weight == spec_calc_max_weight(catalog, slots@),
                    bands@.len() == j,
                    forall|q: int|
                        0 <= q < j ==> #[trigger] bands@[q] == band_around(
                            pw@[prefix_idxs@[q] as int],
                            max_weight,
                        ),
                decreases prefix_idxs@.len() - j,
            {
                bands.push(band_around(pw[prefix_idxs[j]], max_weight));
                j += 1;
            }
            Some(bands)
        },
        None => None,
    };
    let ghost space = fine_space(
        catalog,
        slots@,
        prefix_idxs@,
        0,
        target_bands(
            catalog,
            slots@,
            prefix_idxs@,
            weights_view(target_prefix_weights),
        ),
    );
    proof {
        if bands_view(bands) is Some {
            assert(bands_view(bands)->0 =~= target_bands(
                catalog,
                slots@,
                prefix_idxs@,
                weights_view(target_prefix_weights),
            )->0);
        }
    }
    let num_infusions: usize = 0;
    let mut opt = Optimizer::new(ch, cfg, catalog, slots, num_infusions, prefix_idxs, bands);
    assert(opt.space@ == space);
    opt.optimize();

    let ghost order = search_order(slot_weights(catalog, slots@), n as int);
    let ghost a = opt.best_candidate.slot_prefixes@;
    proof {
        lemma_search_order(slot_weights(catalog, slots@), n as int);
        assert(opt.best_ok());
        assert(space.assigns(a, space.len())) by {
            if opt.best_m.raw == worst_objective().raw {
                assert forall|i: int| 0 <= i < space.len() implies (#[trigger] a[i])
                    < space.num_prefixes by {}
            }
        }
        assert(is_best_build(ch, cfg, space, a, opt.best_candidate.infusions));
    }
    proof {
        assert forall|k: int| 0 <= k < n implies (#[trigger] opt.space.slots@[k]).orig_idx < n by {
            assert(order[k] < n);
        }
        assert forall|p: int, q: int| 0 <= p < q < n implies opt.space.slots@[p].orig_idx
            != opt.space.slots@[q].orig_idx by {
            assert(opt.space.slots@[p].orig_idx == order[p]);
            assert(opt.space.slots@[q].orig_idx == order[q]);
        }
    }
    let out = place_prefixes(&opt.space.slots, &opt.best_candidate.slot_prefixes, prefix_idxs);
    proof {
        assert forall|i: int| 0 <= i < slots@.len() implies out@[order[i] as int]
            == prefix_idxs@[a[i] as int] by {
            assert(opt.space.slots@[i].orig_idx == order[i]);
        }
    }
    let r = (out, opt.best_candidate.infusions);
    proof {
        lemma_fine_space_nonneg(
            catalog,
            slots@,
            prefix_idxs@,
            0,
            target_bands(catalog, slots@, prefix_idxs@, weights_view(target_prefix_weights)),
        );
    }
    assert(is_fine_outcome(
        ch,
        cfg,
        catalog,
        slots@,
        prefix_idxs@,
        weights_view(target_prefix_weights),
        r.0@,
        r.1,
        a,
    ));
    r
}

impl Space {
    /// Slots of the same weight that follow each other give the same attributes with every
    /// prefix, as the two rings do.
    pub open spec fn interchangeable(self) -> bool {
        forall|i: int|
            1 <= i < self.len() && self.weights[i] == self.weights[i - 1] ==> #[trigger] self.table[i]
                == self.table[i - 1]
    }

    /// The most that an attribute of a piece may amount to, either way, for the sum of the
    /// pieces of all slots to stay clear of saturation.
    pub open spec fn piece_limit(self) -> int {
        if self.len() <= 0 {
            i64::MAX as int
        } else {
            (i64::MAX as int) / self.len()
        }
    }

    /// No attribute of a piece exceeds [`Space::piece_limit`], either way: no sum of pieces
    /// saturates.
    pub open spec fn tame(self) -> bool {
        forall|i: int, j: int|
            0 <= i < self.len() && 0 <= j < self.num_prefixes ==> stats_within(
                #[trigger] self.table[i][j],
                self.piece_limit(),
            )
    }

    /// The attributes of a build do not depend on the order in which its pieces are added:
    /// nothing in the space is negative, or no sum of pieces saturates.
    pub open spec fn sums_commute(self) -> bool {
        self.nonneg() || self.tame()
    }

    /// The builds `a` and `b` give the same attributes and the same weight to every prefix.
    pub open spec fn same_build(self, a: Seq<u8>, b: Seq<u8>) -> bool {
        &&& self.gear_upto(a, self.len()) == self.gear_upto(b, self.len())
        &&& forall|p: int| self.weight_upto(a, p, self.len()) == self.weight_upto(b, p, self.len())
    }

    /// The first `k + 1` slots of `a` are in canonical order but for the slot `j`, which may
    /// have to move toward the front.
    pub open spec fn canonical_but(self, a: Seq<u8>, k: int, j: int) -> bool {
        &&& forall|i: int|
            1 <= i <= k && i != j && i != j + 1 && self.weights[i] == self.weights[i - 1] ==> a[i
                - 1] <= #[trigger] a[i]
        &&& j + 1 <= k && self.weights[j + 1] == self.weights[j] ==> a[j] <= a[j + 1]
        &&& 1 <= j && j + 1 <= k && self.weights[j] == self.weights[j - 1] && self.weights[j + 1]
            == self.weights[j] ==> a[j - 1] <= a[j + 1]
    }
}

/// No attribute exceeds `bound`, either way.
pub open spec fn stats_within(a: Stats, bound: int) -> bool {
    &&& -bound <= a.power.raw <= bound
    &&& -bound <= a.precision.raw <= bound
    &&& -bound <= a.ferocity.raw <= bound
    &&& -bound <= a.condition_damage.raw <= bound
    &&& -bound <= a.expertise.raw <= bound
    &&& -bound <= a.vitality.raw <= bound
    &&& -bound <= a.toughness.raw <= bound
    &&& -bound <= a.healing_power.raw <= bound
    &&& -bound <= a.concentration.raw <= bound
}

/// Among attributes that are not negative, the order of two additions does not matter.
pub proof fn lemma_stats_add_swap(g: Stats, x: Stats, y: Stats)
    requires
        stats_nonneg(g),
        stats_nonneg(x),
        stats_nonneg(y),
    ensures
        g.add(x).add(y) == g.add(y).add(x),
{
}

/// Among attributes whose sum does not saturate, the order of two additions does not matter.
pub proof fn lemma_stats_add_swap_within(g: Stats, x: Stats, y: Stats, bound_g: int, bound: int)
    requires
        stats_within(g, bound_g),
        stats_within(x, bound),
        stats_within(y, bound),
        0 <= bound_g,
        0 <= bound,
        bound_g + 2 * bound <= i64::MAX,
    ensures
        g.add(x).add(y) == g.add(y).add(x),
{
}

/// In a tame space, the pieces of the first `k` slots add up to no more than `k` times the
/// limit of a piece.
pub proof fn lemma_gear_within(space: Space, a: Seq<u8>, k: int)
    requires
        space.wf(),
        space.tame(),
        0 <= k <= space.len(),
        space.assigns(a, k),
    ensures
        stats_within(space.gear_upto(a, k), k * space.piece_limit()),
        0 <= k * space.piece_limit() <= i64::MAX,
    decreases k,
{
    let limit = space.piece_limit();
    let n = space.len();
    assert(0 <= limit);
    assert(0 <= k * limit <= i64::MAX) by (nonlinear_arith)
        requires
            0 <= k <= n,
            0 <= limit,
            n > 0 ==> limit == (i64::MAX as int) / n,
            n <= 0 ==> k == 0,
    ;
    if k > 0 {
        lemma_gear_within(space, a, k - 1);
        assert(stats_within(space.table[k - 1][a[k - 1] as int], limit));
        assert((k - 1) * limit + limit == k * limit) by (nonlinear_arith);
    }
}

/// Builds that agree from slot `from` on, and give the same up to there, give the same up
/// to any later slot.
pub proof fn lemma_suffix_same(space: Space, a: Seq<u8>, b: Seq<u8>, from: int, m: int)
    requires
        0 <= from <= m <= a.len(),
        a.len() == b.len(),
        forall|i: int| from <= i < m ==> a[i] == b[i],
        space.gear_upto(a, from) == space.gear_upto(b, from),
        forall|p: int| space.weight_upto(a, p, from) == space.weight_upto(b, p, from),
    ensures
        space.gear_upto(a, m) == space.gear_upto(b, m),
        forall|p: int| space.weight_upto(a, p, m) == space.weight_upto(b, p, m),
    decreases m - from,
{
    if from < m {
        lemma_suffix_same(space, a, b, from, m - 1);
        assert(a[m - 1] == b[m - 1]);
        assert forall|p: int| space.weight_upto(a, p, m) == space.weight_upto(b, p, m) by {
            assert(space.weight_upto(a, p, m - 1) == space.weight_upto(b, p, m - 1));
        }
    }
}

/// Exchanging the prefixes of two interchangeable slots that follow each other changes
/// neither the attributes of the build nor the weight of any prefix.
pub proof fn lemma_swap(space: Space, a: Seq<u8>, j: int) -> (b: Seq<u8>)
    requires
        space.wf(),
        space.sums_commute(),
        space.interchangeable(),
        1 <= j < space.len(),
        space.weights[j] == space.weights[j - 1],
        space.assigns(a, space.len()),
    ensures
        b == a.update(j - 1, a[j]).update(j, a[j - 1]),
        space.assigns(b, space.len()),
        space.same_build(a, b),
{
    let n = space.len();
    let b = a.update(j - 1, a[j]).update(j, a[j - 1]);
    assert forall|i: int| 0 <= i < n implies (#[trigger] b[i]) < space.num_prefixes by {
        assert(a[i] < space.num_prefixes);
        assert(a[j] < space.num_prefixes);
        assert(a[j - 1] < space.num_prefixes);
    }
    lemma_prefix_only(space, a, b, j - 1);
    let g = space.gear_upto(a, j - 1);
    assert(space.table[j] == space.table[j - 1]);
    let x = space.table[j - 1][a[j - 1] as int];
    let y = space.table[j - 1][a[j] as int];
    if space.nonneg() {
        lemma_gear_nonneg(space, a, j - 1);
        assert(stats_nonneg(x));
        assert(stats_nonneg(y));
        lemma_stats_add_swap(g, x, y);
    } else {
        let limit = space.piece_limit();
        lemma_gear_within(space, a, j - 1);
        lemma_gear_within(space, a, j + 1);
        assert(stats_within(x, limit));
        assert(stats_within(y, limit));
        assert((j - 1) * limit + 2 * limit == (j + 1) * limit) by (nonlinear_arith);
        lemma_stats_add_swap_within(g, x, y, (j - 1) * limit, limit);
    }
    assert(space.gear_upto(a, j) == g.add(x));
    assert(space.gear_upto(b, j) == g.add(y));
    assert(space.gear_upto(a, j + 1) == g.add(x).add(y));
    assert(space.gear_upto(b, j + 1) == g.add(y).add(x));
    assert forall|p: int| #[trigger]
        space.weight_upto(a, p, j + 1) == space.weight_upto(b, p, j + 1) by {
        assert(space.weight_upto(a, p, j - 1) == space.weight_upto(b, p, j - 1));
        assert(space.weight_upto(a, p, j + 1) == if a[j] == p {
            space.weight_upto(a, p, j).add(space.weights[j])
        } else {
            space.weight_upto(a, p, j)
        });
        assert(space.weight_upto(b, p, j + 1) == if b[j] == p {
            space.weight_upto(b, p, j).add(space.weights[j])
        } else {
            space.weight_upto(b, p, j)
        });
    }
    lemma_suffix_same(space, a, b, j + 1, n);
    b
}

/// Being the same build carries over.
pub proof fn lemma_same_build_transitive(space: Space, a: Seq<u8>, b: Seq<u8>, c: Seq<u8>)
    requires
        space.same_build(a, b),
        space.same_build(b, c),
    ensures
        space.same_build(a, c),
{
    assert forall|p: int|
        space.weight_upto(a, p, space.len()) == space.weight_upto(c, p, space.len()) by {
        assert(space.weight_upto(a, p, space.len()) == space.weight_upto(b, p, space.len()));
    }
}

/// A build whose first `k + 1` slots are in canonical order but for slot `j` is the same
/// build as one whose first `k + 1` slots are in canonical order.
pub proof fn lemma_bubble(space: Space, a: Seq<u8>, k: int, j: int) -> (b: Seq<u8>)
    requires
        space.wf(),
        space.sums_commute(),
        space.interchangeable(),
        0 <= j <= k < space.len(),
        space.assigns(a, space.len()),
        space.canonical_but(a, k, j),
    ensures
        space.assigns(b, space.len()),
        space.canonical_upto(b, k + 1),
        space.same_build(a, b),
    decreases j,
{
    if j >= 1 && space.weights[j] == space.weights[j - 1] && a[j - 1] > a[j] {
        let swapped = lemma_swap(space, a, j);
        assert(space.canonical_but(swapped, k, j - 1)) by {
            assert forall|i: int|
                1 <= i <= k && i != j - 1 && i != j && space.weights[i] == space.weights[i
                    - 1] implies swapped[i - 1] <= #[trigger] swapped[i] by {
                if i == j + 1 {
                    assert(a[j - 1] <= a[j + 1]);
                } else {
                    assert(a[i - 1] <= a[i]);
                }
            }
            if 1 <= j - 1 && space.weights[j - 1] == space.weights[j - 2] {
                assert(a[j - 2] <= a[j - 1]);
            }
        }
        let b = lemma_bubble(space, swapped, k, j - 1);
        lemma_same_build_transitive(space, a, swapped, b);
        b
    } else {
        assert forall|i: int|
            1 <= i < k + 1 && space.weights[i] == space.weights[i - 1] implies a[i - 1]
            <= #[trigger] a[i] by {
            if i != j && i != j + 1 {
                assert(a[i - 1] <= a[i]);
            }
        }
        a
    }
}

/// Every build is the same build as one whose first `k` slots are in canonical order.
pub proof fn lemma_canonicalize(space: Space, a: Seq<u8>, k: int) -> (b: Seq<u8>)
    requires
        space.wf(),
        space.sums_commute(),
        space.interchangeable(),
        0 <= k <= space.len(),
        space.assigns(a, space.len()),
    ensures
        space.assigns(b, space.len()),
        space.canonical_upto(b, k),
        space.same_build(a, b),
    decreases k,
{
    if k <= 1 {
        a
    } else {
        let before = lemma_canonicalize(space, a, k - 1);
        assert(space.canonical_but(before, k - 1, k - 1)) by {
            assert forall|i: int|
                1 <= i <= k - 1 && i != k - 1 && i != k && space.weights[i] == space.weights[i
                    - 1] implies before[i - 1] <= #[trigger] before[i] by {
                assert(before[i - 1] <= before[i]);
            }
        }
        let b = lemma_bubble(space, before, k - 1, k - 1);
        lemma_same_build_transitive(space, a, before, b);
        b
    }
}

/// Symmetry breaking does not change the optimum.
///
/// Where slots of the same weight that follow each other are interchangeable, and nothing in
/// the space is negative or no sum of pieces saturates, every build that gives each slot a
/// prefix and keeps to the bands and to the number of infusions has the same objective as an
/// admissible build, which is one in canonical order.  So the best objective among the
/// admissible builds is the best among all builds.
pub proof fn lemma_symmetry_breaking_keeps_optimum<C: CharacterModel>(
    ch: &C,
    cfg: &C::Config,
    space: Space,
    a: Seq<u8>,
    f: PerStat<u8>,
) -> (b: Seq<u8>)
    requires
        space.wf(),
        space.sums_commute(),
        space.interchangeable(),
        space.assigns(a, space.len()),
        space.in_band(a),
        infusion_count(f, Stat::COUNT as int) <= space.num_infusions,
    ensures
        space.admissible(b, f),
        build_objective(ch, cfg, space, b, f) == build_objective(ch, cfg, space, a, f),
{
    let b = lemma_canonicalize(space, a, space.len());
    match space.bands {
        Some(bands) => {
            assert forall|p: int| 0 <= p < space.num_prefixes implies (
            #[trigger] bands[p]).0.raw <= space.weight_upto(b, p, space.len()).raw
                <= bands[p].1.raw by {
                assert(space.weight_upto(a, p, space.len()) == space.weight_upto(
                    b,
                    p,
                    space.len(),
                ));
            }
        },
        None => {},
    }
    b
}

/// The outcome of the exact stage is no worse than any build, in canonical order or not,
/// where the search may prune and slots of the same weight are interchangeable.
pub proof fn lemma_best_among_all_builds<C: CharacterModel>(
    ch: &C,
    cfg: &C::Config,
    space: Space,
    best: Seq<u8>,
    best_infusions: PerStat<u8>,
    a: Seq<u8>,
    f: PerStat<u8>,
)
    requires
        is_best_build(ch, cfg, space, best, best_infusions),
        objective_monotone(ch, cfg),
        space.wf(),
        space.nonneg(),
        space.interchangeable(),
        space.assigns(a, space.len()),
        space.in_band(a),
        infusion_count(f, Stat::COUNT as int) <= space.num_infusions,
    ensures
        reached_objective(ch, cfg, space, best, best_infusions).raw <= build_objective(
            ch,
            cfg,
            space,
            a,
            f,
        ).raw,
{
    let b = lemma_symmetry_breaking_keeps_optimum(ch, cfg, space, a, f);
    assert(space.admissible(b, f));
}

/// The fine stage is exact: for an objective that more of any attribute never makes worse, no
/// build that the search admits is better than its outcome.  A catalog holds no negative
/// number, so nothing in the space of the search is negative.
pub proof fn lemma_fine_is_exact<C: CharacterModel>(
    ch: &C,
    cfg: &C::Config,
    catalog: &Catalog,
    slots: Seq<(GearSlot, Quality)>,
    prefix_idxs: Seq<usize>,
    target: Option<Seq<Fixed>>,
    out: Seq<usize>,
    infusions: PerStat<u8>,
    a: Seq<u8>,
    b: Seq<u8>,
    g: PerStat<u8>,
)
    requires
        catalog.wf(),
        objective_monotone(ch, cfg),
        slots.len() <= usize::MAX,
        forall|j: int| 0 <= j < prefix_idxs.len() ==> prefix_idxs[j] < catalog.prefixes.len(),
        is_fine_outcome(ch, cfg, catalog, slots, prefix_idxs, target, out, infusions, a),
        fine_space(
            catalog,
            slots,
            prefix_idxs,
            0,
            target_bands(catalog, slots, prefix_idxs, target),
        ).admissible(b, g),
    ensures
        ({
            let space = fine_space(
                catalog,
                slots,
                prefix_idxs,
                0,
                target_bands(catalog, slots, prefix_idxs, target),
            );
            reached_objective(ch, cfg, space, a, infusions).raw <= build_objective(
                ch,
                cfg,
                space,
                b,
                g,
            ).raw
        }),
{
    lemma_fine_space_nonneg(
        catalog,
        slots,
        prefix_idxs,
        0,
        target_bands(catalog, slots, prefix_idxs, target),
    );
}

/// Symmetry breaking costs the fine stage nothing: for an objective that more of any attribute
/// never makes worse, and slots of the same weight that give the same attributes, its outcome
/// is no worse than any build that gives each slot a prefix and keeps to the bands, whether
/// the build is in canonical order or not.
pub proof fn lemma_fine_best_among_all_builds<C: CharacterModel>(
    ch: &C,
    cfg: &C::Config,
    catalog: &Catalog,
    slots: Seq<(GearSlot, Quality)>,
    prefix_idxs: Seq<usize>,
    target: Option<Seq<Fixed>>,
    out: Seq<usize>,
    infusions: PerStat<u8>,
    a: Seq<u8>,
    b: Seq<u8>,
    g: PerStat<u8>,
)
    requires
        catalog.wf(),
        objective_monotone(ch, cfg),
        slots.len() <= usize::MAX,
        forall|j: int| 0 <= j < prefix_idxs.len() ==> prefix_idxs[j] < catalog.prefixes.len(),
        is_fine_outcome(ch, cfg, catalog, slots, prefix_idxs, target, out, infusions, a),
        ({
            let space = fine_space(
                catalog,
                slots,
                prefix_idxs,
                0,
                target_bands(catalog, slots, prefix_idxs, target),
            );
            &&& space.wf()
            &&& space.interchangeable()
            &&& space.assigns(b, space.len())
            &&& space.in_band(b)
            &&& infusion_count(g, Stat::COUNT as int) <= space.num_infusions
        }),
    ensures
        ({
            let space = fine_space(
                catalog,
                slots,
                prefix_idxs,
                0,
                target_bands(catalog, slots, prefix_idxs, target),
            );
            reached_objective(ch, cfg, space, a, infusions).raw <= build_objective(
                ch,
                cfg,
                space,
                b,
                g,
            ).raw
        }),
{
    let space = fine_space(
        catalog,
        slots,
        prefix_idxs,
        0,
        target_bands(catalog, slots, prefix_idxs, target),
    );
    lemma_fine_space_nonneg(
        catalog,
        slots,
        prefix_idxs,
        0,
        target_bands(catalog, slots, prefix_idxs, target),
    );
    lemma_best_among_all_builds(ch, cfg, space, a, infusions, b, g);
}

} // verus!
