//! The coarse stage: a local search over how much of the gear's budget goes to each prefix,
//! interleaved with a search over the fields of the configuration.

use crate::character::{score, CharacterModel};
use crate::fixed::{sat, Fixed};
use crate::gear::{Catalog, GearSlot, Prefix, Quality};
use crate::optimize::{calc_max_weight, evaluate_config, spec_calc_max_weight, worst_objective};
use crate::stats::{PerStat, Stats};
use crate::vary::Vary;
use vstd::prelude::*;

pub mod random;
pub mod restart;

pub use crate::optimize::coarse::restart::{
    optimize_coarse_anneal, optimize_coarse_basin_hopping, optimize_coarse_randomized,
};

verus! {

/// How much of the gear's budget goes to each prefix of the catalog, in catalog order.
///
/// The entries are not negative, and their sum does not exceed the budget that the slots give.
pub type PrefixWeights = Vec<Fixed>;

/// Sum of the raw entries.
pub open spec fn raw_sum(pw: Seq<Fixed>) -> int
    decreases pw.len(),
{
    if pw.len() == 0 {
        0
    } else {
        raw_sum(pw.drop_last()) + pw.last().raw
    }
}

/// No entry is negative.
pub open spec fn nonneg(pw: Seq<Fixed>) -> bool {
    forall|i: int| 0 <= i < pw.len() ==> pw[i].raw >= 0
}

/// Number of entries that are not zero.
pub open spec fn count_nonzero(pw: Seq<Fixed>) -> nat
    decreases pw.len(),
{
    if pw.len() == 0 {
        0
    } else {
        count_nonzero(pw.drop_last()) + if pw.last().raw != 0 { 1nat } else { 0nat }
    }
}

/// The weights respect the budget `max_weight`.
pub open spec fn within_budget(pw: Seq<Fixed>, max_weight: Fixed) -> bool {
    nonneg(pw) && raw_sum(pw) <= max_weight.raw
}

/// Smallest of three integers.
pub open spec fn min3(a: int, b: int, c: int) -> int {
    if a <= b {
        if a <= c { a } else { c }
    } else {
        if b <= c { b } else { c }
    }
}

/// One pass over the weights, from the first to the last: each gives up `share`, or all it
/// has, or what is left of `remaining`, whichever is least.  The result is the new weights and
/// what is left to take.
pub open spec fn shave(pw: Seq<Fixed>, share: int, remaining: int) -> (Seq<Fixed>, int)
    decreases pw.len(),
{
    if pw.len() == 0 {
        (pw, remaining)
    } else {
        let (head, rest) = shave(pw.drop_last(), share, remaining);
        let w = pw.last().raw as int;
        let take = min3(w, share, rest);
        (head.push(Fixed { raw: (w - take) as i64 }), rest - take)
    }
}

/// `amount / n`, rounded up.
pub open spec fn ceil_div(amount: int, n: int) -> int {
    (amount + n - 1) / n
}

/// The weights with their sum decreased by `amount`.
///
/// The decrease is spread evenly across all nonzero weights.  Where a weight is too small to
/// give its full share, what is missing is spread among the others in a further pass.
pub open spec fn decreased(pw: Seq<Fixed>, amount: int) -> Seq<Fixed>
    decreases amount,
    when nonneg(pw)
    via decreased_terminates
{
    if amount <= 0 || count_nonzero(pw) == 0 {
        pw
    } else {
        let r = shave(pw, ceil_div(amount, count_nonzero(pw) as int), amount);
        decreased(r.0, r.1)
    }
}

/// Each pass leaves less to take.
#[via_fn]
proof fn decreased_terminates(pw: Seq<Fixed>, amount: int) {
    if !(amount <= 0 || count_nonzero(pw) == 0) {
        let n = count_nonzero(pw) as int;
        lemma_ceil_div(amount, n);
        lemma_shave(pw, ceil_div(amount, n), amount);
        lemma_shave_takes(pw, ceil_div(amount, n), amount);
    }
}

/// A quotient rounded up is at least one where the dividend is, and `n` shares cover it.
pub proof fn lemma_ceil_div(amount: int, n: int)
    requires
        amount >= 1,
        n >= 1,
    ensures
        1 <= ceil_div(amount, n) <= amount,
        ceil_div(amount, n) * n >= amount,
{
    let q = ceil_div(amount, n);
    assert(1 <= q <= amount && q * n >= amount) by (nonlinear_arith)
        requires
            amount >= 1,
            n >= 1,
            q == (amount + n - 1) / n,
    ;
}

/// What one pass keeps: the length, that no weight is negative or grows, and the accounts.
pub proof fn lemma_shave(pw: Seq<Fixed>, share: int, remaining: int)
    requires
        nonneg(pw),
        share >= 0,
        remaining >= 0,
    ensures
        shave(pw, share, remaining).0.len() == pw.len(),
        nonneg(shave(pw, share, remaining).0),
        forall|i: int| 0 <= i < pw.len() ==> shave(pw, share, remaining).0[i].raw <= pw[i].raw,
        0 <= shave(pw, share, remaining).1 <= remaining,
        raw_sum(shave(pw, share, remaining).0) == raw_sum(pw) - (remaining - shave(
            pw,
            share,
            remaining,
        ).1),
        count_nonzero(shave(pw, share, remaining).0) <= count_nonzero(pw),
    decreases pw.len(),
{
    if pw.len() > 0 {
        let front = pw.drop_last();
        lemma_shave(front, share, remaining);
        let (head, rest) = shave(front, share, remaining);
        let w = pw.last().raw as int;
        let take = min3(w, share, rest);
        let last = Fixed { raw: (w - take) as i64 };
        let all = head.push(last);
        assert(all.drop_last() =~= head);
        assert(all.last() == last);
        assert forall|i: int| 0 <= i < pw.len() implies all[i].raw >= 0 && all[i].raw <= pw[i].raw by {
            if i < pw.len() - 1 {
                assert(all[i] == head[i]);
                assert(front[i] == pw[i]);
            }
        }
    }
}

/// A pass with a positive share takes something where there is something to take.
pub proof fn lemma_shave_takes(pw: Seq<Fixed>, share: int, remaining: int)
    requires
        nonneg(pw),
        share >= 1,
        remaining >= 1,
        count_nonzero(pw) >= 1,
    ensures
        shave(pw, share, remaining).1 < remaining,
    decreases pw.len(),
{
    if pw.len() > 0 {
        let front = pw.drop_last();
        lemma_shave(front, share, remaining);
        if count_nonzero(front) >= 1 {
            lemma_shave_takes(front, share, remaining);
        }
    }
}

/// Weights that are not negative and all zero add up to zero.
pub proof fn lemma_all_zero(pw: Seq<Fixed>)
    requires
        nonneg(pw),
        count_nonzero(pw) == 0,
    ensures
        raw_sum(pw) == 0,
        forall|i: int| 0 <= i < pw.len() ==> pw[i].raw == 0,
    decreases pw.len(),
{
    if pw.len() > 0 {
        let front = pw.drop_last();
        lemma_all_zero(front);
        assert forall|i: int| 0 <= i < pw.len() implies pw[i].raw == 0 by {
            if i < pw.len() - 1 {
                assert(front[i] == pw[i]);
            }
        }
    }
}

/// A decrease never produces a negative weight, lets no weight grow, and lowers the sum of the
/// weights by exactly `amount`, or to zero where `amount` exceeds the sum.
pub proof fn lemma_decreased(pw: Seq<Fixed>, amount: int)
    requires
        nonneg(pw),
    ensures
        decreased(pw, amount).len() == pw.len(),
        nonneg(decreased(pw, amount)),
        forall|i: int| 0 <= i < pw.len() ==> decreased(pw, amount)[i].raw <= pw[i].raw,
        raw_sum(decreased(pw, amount)) == if amount <= 0 {
            raw_sum(pw)
        } else if amount >= raw_sum(pw) {
            0
        } else {
            raw_sum(pw) - amount
        },
    decreases amount,
{
    lemma_raw_sum_nonneg(pw);
    if amount <= 0 {
    } else if count_nonzero(pw) == 0 {
        lemma_all_zero(pw);
    } else {
        let n = count_nonzero(pw) as int;
        let share = ceil_div(amount, n);
        lemma_ceil_div(amount, n);
        lemma_shave(pw, share, amount);
        lemma_shave_takes(pw, share, amount);
        let r = shave(pw, share, amount);
        lemma_decreased(r.0, r.1);
        lemma_raw_sum_nonneg(r.0);
    }
}

/// The sum of weights that are not negative is not negative.
pub proof fn lemma_raw_sum_nonneg(pw: Seq<Fixed>)
    requires
        nonneg(pw),
    ensures
        raw_sum(pw) >= 0,
    decreases pw.len(),
{
    if pw.len() > 0 {
        lemma_raw_sum_nonneg(pw.drop_last());
    }
}

/// Sum of the raw entries of weights that are not negative, limited to what an `i64` holds.
fn raw_total(pw: &PrefixWeights) -> (r: i128)
    requires
        nonneg(pw@),
    ensures
        r == raw_sum(pw@),
        0 <= r <= pw@.len() * 0x7fff_ffff_ffff_ffff,
{
    let mut total: i128 = 0;
    let mut i: usize = 0;
    while i < pw.len()
        invariant
            i <= pw.len(),
            nonneg(pw@),
            total == raw_sum(pw@.take(i as int)),
            0 <= total <= i * 0x7fff_ffff_ffff_ffff,
        decreases pw.len() - i,
    {
        assert(pw@.take(i + 1).drop_last() =~= pw@.take(i as int));
        total = total + pw[i].raw as i128;
        i += 1;
    }
    assert(pw@.take(pw.len() as int) =~= pw@);
    total
}

/// Number of weights that are not zero.
fn nonzero_entries(pw: &PrefixWeights) -> (r: usize)
    ensures
        r == count_nonzero(pw@),
{
    let mut count: usize = 0;
    let mut i: usize = 0;
    while i < pw.len()
        invariant
            i <= pw.len(),
            count == count_nonzero(pw@.take(i as int)),
            count <= i,
        decreases pw.len() - i,
    {
        assert(pw@.take(i + 1).drop_last() =~= pw@.take(i as int));
        if pw[i].raw != 0 {
            count += 1;
        }
        i += 1;
    }
    assert(pw@.take(pw.len() as int) =~= pw@);
    count
}

/// Decreases the sum of the weights in `pw` by `amount`.
///
/// The decrease is spread evenly across all nonzero weights.  Where a weight is too small to
/// give its full share, what is missing is spread among the remaining weights: with an amount
/// of 5 and the weights 5, 10 and 1, the third weight cannot give 5/3, so the other two give
/// the missing 2/3 between them, and the result is 3, 8 and 0.
pub fn decrease_prefix_weights_linear(pw: &mut PrefixWeights, amount: Fixed)
    requires
        nonneg(old(pw)@),
    ensures
        final(pw)@ == decreased(old(pw)@, amount.raw as int),
        final(pw)@.len() == old(pw)@.len(),
        nonneg(final(pw)@),
        forall|i: int| 0 <= i < old(pw)@.len() ==> final(pw)@[i].raw <= old(pw)@[i].raw,
        raw_sum(final(pw)@) == if amount.raw <= 0 {
            raw_sum(old(pw)@)
        } else if amount.raw >= raw_sum(old(pw)@) {
            0
        } else {
            raw_sum(old(pw)@) - amount.raw
        },
{
    proof {
        lemma_decreased(pw@, amount.raw as int);
    }
    let mut remaining: i64 = amount.raw;
    let mut nonzero_count: usize = nonzero_entries(pw);
    while remaining > 0 && nonzero_count > 0
        invariant
            nonneg(pw@),
            nonzero_count == count_nonzero(pw@),
            decreased(pw@, remaining as int) == decreased(old(pw)@, amount.raw as int),
        decreases remaining,
    {
        let ghost start = pw@;
        let ghost start_remaining = remaining as int;
        proof {
            lemma_ceil_div(remaining as int, nonzero_count as int);
        }
        let wide: i128 = (remaining as i128 + nonzero_count as i128 - 1) / (nonzero_count as i128);
        let share: i64 = wide as i64;
        proof {
            lemma_shave(start, share as int, start_remaining);
            lemma_shave_takes(start, share as int, start_remaining);
        }
        nonzero_count = 0;
        let mut i: usize = 0;
        while i < pw.len()
            invariant
                i <= pw.len(),
                pw@.len() == start.len(),
                nonneg(start),
                share >= 1,
                start_remaining >= 0,
                0 <= remaining,
                pw@.take(i as int) == shave(start.take(i as int), share as int, start_remaining).0,
                remaining == shave(start.take(i as int), share as int, start_remaining).1,
                forall|k: int| i <= k < pw.len() ==> pw@[k] == start[k],
                nonzero_count == count_nonzero(pw@.take(i as int)),
                nonzero_count <= i,
            decreases pw.len() - i,
        {
            let w: i64 = pw[i].raw;
            let mut take: i64 = if w <= share { w } else { share };
            if remaining < take {
                take = remaining;
            }
            proof {
                assert(start.take(i + 1).drop_last() =~= start.take(i as int));
                assert(start.take(i + 1).last() == start[i as int]);
                lemma_shave(start.take(i as int), share as int, start_remaining);
            }
            let ghost before = pw@;
            pw[i] = Fixed { raw: w - take };
            remaining = remaining - take;
            proof {
                assert(pw@.take(i as int) =~= before.take(i as int));
                assert(pw@.take(i + 1) =~= pw@.take(i as int).push(pw@[i as int]));
                assert(pw@.take(i + 1).drop_last() =~= pw@.take(i as int));
            }
            if w - take != 0 {
                nonzero_count += 1;
            }
            i += 1;
        }
        proof {
            assert(pw@.take(pw.len() as int) =~= pw@);
            assert(start.take(start.len() as int) =~= start);
        }
    }
    proof {
        if remaining > 0 {
            lemma_all_zero(pw@);
        }
    }
}

/// Attributes that the first `n` prefixes give with the weights `pw`, added in catalog order.
pub open spec fn gear_upto(prefixes: Seq<Prefix>, pw: Seq<Fixed>, n: int) -> Stats
    decreases n,
{
    if n <= 0 {
        PerStat::splat(Fixed::zero())
    } else {
        gear_upto(prefixes, pw, n - 1).add(prefixes[n - 1].calc_stats_coarse(pw[n - 1]))
    }
}

/// Attributes that the weights `pw` give: each prefix of the catalog contributes in
/// proportion to its weight.
pub open spec fn spec_calc_gear_stats(catalog: &Catalog, pw: Seq<Fixed>) -> Stats {
    gear_upto(catalog.prefixes@, pw, pw.len() as int)
}

/// Attributes that the weights `pw` give.
pub fn calc_gear_stats(catalog: &Catalog, pw: &PrefixWeights) -> (gear: Stats)
    requires
        pw@.len() == catalog.prefixes@.len(),
    ensures
        gear == spec_calc_gear_stats(catalog, pw@),
{
    let mut gear: Stats = PerStat::splat(Fixed::zero());
    let mut i: usize = 0;
    while i < pw.len()
        invariant
            i <= pw@.len(),
            pw@.len() == catalog.prefixes@.len(),
            gear == gear_upto(catalog.prefixes@, pw@, i as int),
        decreases pw@.len() - i,
    {
        gear = gear.add(catalog.prefixes[i].calc_stats_coarse(pw[i]));
        i += 1;
    }
    gear
}

/// The weights with `max_weight * c` more weight on the prefix at position `pi`.  The other
/// weights, and this one, are first decreased as far as the budget `max_weight` requires.
pub open spec fn increased(pw: Seq<Fixed>, max_weight: Fixed, pi: int, c: Fixed) -> Seq<Fixed> {
    let more = max_weight.mul(c);
    let excess = raw_sum(pw) + more.raw - max_weight.raw;
    let room = if excess > 0 { decreased(pw, sat(excess)) } else { pw };
    room.update(pi, room[pi].add(more))
}

/// Where the weights respect the budget and the fraction `c` lies between zero and one, the
/// increased weights respect the budget too.
pub proof fn lemma_increased_within_budget(pw: Seq<Fixed>, max_weight: Fixed, pi: int, c: Fixed)
    requires
        within_budget(pw, max_weight),
        0 <= pi < pw.len(),
        0 <= c.raw <= crate::fixed::SCALE,
    ensures
        within_budget(increased(pw, max_weight, pi, c), max_weight),
        increased(pw, max_weight, pi, c).len() == pw.len(),
{
    let more = max_weight.mul(c);
    let excess = raw_sum(pw) + more.raw - max_weight.raw;
    lemma_raw_sum_nonneg(pw);
    assert(0 <= more.raw <= max_weight.raw) by {
        lemma_fraction_of(max_weight, c);
    }
    let room = if excess > 0 { decreased(pw, sat(excess)) } else { pw };
    lemma_decreased(pw, sat(excess));
    assert(raw_sum(room) + more.raw <= max_weight.raw);
    lemma_raw_sum_nonneg(room);
    lemma_raw_sum_update(room, pi, room[pi].add(more));
    lemma_raw_sum_bounds(room, pi);
}

/// A fraction between zero and one of a weight that is not negative lies between zero and the
/// weight.
pub proof fn lemma_fraction_of(w: Fixed, c: Fixed)
    requires
        0 <= w.raw,
        0 <= c.raw <= crate::fixed::SCALE,
    ensures
        0 <= w.mul(c).raw <= w.raw,
{
    let p = w.raw * c.raw;
    assert(0 <= p <= w.raw * 1_000_000) by (nonlinear_arith)
        requires
            0 <= w.raw,
            0 <= c.raw <= 1_000_000,
            p == w.raw * c.raw,
    ;
    assert(0 <= p / 1_000_000 <= w.raw);
}

/// Replacing a weight changes the sum by the difference.
pub proof fn lemma_raw_sum_update(pw: Seq<Fixed>, i: int, w: Fixed)
    requires
        0 <= i < pw.len(),
    ensures
        raw_sum(pw.update(i, w)) == raw_sum(pw) - pw[i].raw + w.raw,
    decreases pw.len(),
{
    let next = pw.update(i, w);
    if i == pw.len() - 1 {
        assert(next.drop_last() =~= pw.drop_last());
    } else {
        assert(next.drop_last() =~= pw.drop_last().update(i, w));
        lemma_raw_sum_update(pw.drop_last(), i, w);
    }
}

/// Among weights that are not negative, none exceeds the sum.
pub proof fn lemma_raw_sum_bounds(pw: Seq<Fixed>, i: int)
    requires
        nonneg(pw),
        0 <= i < pw.len(),
    ensures
        pw[i].raw <= raw_sum(pw),
    decreases pw.len(),
{
    lemma_raw_sum_nonneg(pw.drop_last());
    if i < pw.len() - 1 {
        lemma_raw_sum_bounds(pw.drop_last(), i);
    }
}

/// Moves `max_weight * c` weight to the prefix at position `pi`, spreading the decrease that
/// the budget requires evenly across the weights.
pub fn increase_prefix_weight_linear(pw: &mut PrefixWeights, max_weight: Fixed, pi: usize, c: Fixed)
    requires
        nonneg(old(pw)@),
        pi < old(pw)@.len(),
    ensures
        final(pw)@ == increased(old(pw)@, max_weight, pi as int, c),
        final(pw)@.len() == old(pw)@.len(),
{
    let more = max_weight.mul(c);
    let n = pw.len();
    let total = raw_total(pw);
    assert(total <= 0xffff_ffff_ffff_ffff * 0x7fff_ffff_ffff_ffff) by (nonlinear_arith)
        requires
            total <= n * 0x7fff_ffff_ffff_ffff,
            n <= 0xffff_ffff_ffff_ffff,
    ;
    let excess: i128 = total + more.raw as i128 - max_weight.raw as i128;
    if excess > 0 {
        let amount = if excess > i64::MAX as i128 {
            Fixed { raw: i64::MAX }
        } else {
            Fixed { raw: excess as i64 }
        };
        decrease_prefix_weights_linear(pw, amount);
    }
    let w = pw[pi];
    pw[pi] = w.add(more);
}

/// Moves `max_weight * c` weight to the prefix at position `pi`.
pub fn increase_prefix_weight(pw: &mut PrefixWeights, max_weight: Fixed, pi: usize, c: Fixed)
    requires
        nonneg(old(pw)@),
        pi < old(pw)@.len(),
    ensures
        final(pw)@ == increased(old(pw)@, max_weight, pi as int, c),
        final(pw)@.len() == old(pw)@.len(),
{
    increase_prefix_weight_linear(pw, max_weight, pi, c)
}

/// What a local search keeps fixed.
#[derive(Clone, Copy, Debug)]
pub enum Hold {
    /// Nothing is held.
    Nothing,
    /// The weight of the prefix at the given position is raised again whenever a move has
    /// brought it below the given weight.
    Prefix(usize, Fixed),
    /// The field of the configuration at the given position is not changed.
    Field(usize),
}

/// Number of rounds of a local search.
pub const ROUNDS: usize = 20;

/// Number of fractions of the step scale that a round tries for each prefix.
pub const STEPS: i64 = 100;

/// The step scale of round `i`: it starts at one and shrinks by a factor of 0.85 each round.
pub open spec fn step_scale(i: nat) -> Fixed
    decreases i,
{
    if i == 0 {
        Fixed::one()
    } else {
        step_scale((i - 1) as nat).mul(Fixed::from_ratio(85, 100))
    }
}

/// The step scale lies between zero and one.
pub proof fn lemma_step_scale(i: nat)
    ensures
        0 <= step_scale(i).raw <= crate::fixed::SCALE,
    decreases i,
{
    if i > 0 {
        lemma_step_scale((i - 1) as nat);
        assert(Fixed::from_ratio(85, 100).raw == 850_000) by {
            assert(85 * crate::fixed::SCALE == 85_000_000);
            assert(85_000_000int / 100int == 850_000int) by (nonlinear_arith);
        }
        lemma_fraction_of(step_scale((i - 1) as nat), Fixed::from_ratio(85, 100));
    }
}

/// The fraction of the budget that the move number `k` of a round with the step scale `scale`
/// shifts.
pub open spec fn spec_move_fraction(scale: Fixed, k: i64) -> Fixed {
    scale.mul(Fixed::from_int(k)).div(Fixed::from_int(STEPS))
}

/// The fraction of the budget that the move number `k` shifts.
#[verifier::when_used_as_spec(spec_move_fraction)]
pub fn move_fraction(scale: Fixed, k: i64) -> (c: Fixed)
    requires
        0 <= scale.raw <= crate::fixed::SCALE,
        1 <= k <= STEPS,
    ensures
        c == spec_move_fraction(scale, k),
        0 <= c.raw <= crate::fixed::SCALE,
{
    proof {
        let p = scale.raw * (k * 1_000_000);
        assert(0 <= p <= 1_000_000 * 100_000_000) by (nonlinear_arith)
            requires
                0 <= scale.raw <= 1_000_000,
                1 <= k <= 100,
                p == scale.raw * (k * 1_000_000),
        ;
        let q = p / 1_000_000;
        assert(0 <= q <= 100_000_000);
        assert(0 <= (q * 1_000_000) / 100_000_000 <= 1_000_000);
    }
    scale.mul(Fixed::from_int(k)).div(Fixed::from_int(STEPS))
}

/// The hold can be kept within the budget `max_weight` for `num_prefixes` prefixes.
pub open spec fn hold_ok(hold: Hold, max_weight: Fixed, num_prefixes: int) -> bool {
    match hold {
        Hold::Prefix(pi, x) => pi < num_prefixes && x.raw <= max_weight.raw,
        _ => true,
    }
}

/// The weights after the hold has been applied: where the held prefix has less than its
/// weight, it is given that weight, and the others are decreased as far as the budget
/// requires.
pub open spec fn held(pw: Seq<Fixed>, max_weight: Fixed, hold: Hold) -> Seq<Fixed> {
    match hold {
        Hold::Prefix(pi, x) => if pw[pi as int].raw < x.raw {
            let rest = pw.update(pi as int, Fixed::zero());
            let excess = raw_sum(rest) + x.raw - max_weight.raw;
            let room = if excess > 0 { decreased(rest, sat(excess)) } else { rest };
            room.update(pi as int, x)
        } else {
            pw
        },
        _ => pw,
    }
}

/// A hold of a weight within the budget keeps the weights within the budget.
pub proof fn lemma_held(pw: Seq<Fixed>, max_weight: Fixed, hold: Hold)
    requires
        within_budget(pw, max_weight),
        hold_ok(hold, max_weight, pw.len() as int),
    ensures
        within_budget(held(pw, max_weight, hold), max_weight),
        held(pw, max_weight, hold).len() == pw.len(),
{
    match hold {
        Hold::Prefix(pi, x) => {
            if pw[pi as int].raw < x.raw {
                let rest = pw.update(pi as int, Fixed::zero());
                lemma_raw_sum_update(pw, pi as int, Fixed::zero());
                lemma_raw_sum_bounds(pw, pi as int);
                lemma_raw_sum_nonneg(rest);
                let excess = raw_sum(rest) + x.raw - max_weight.raw;
                let room = if excess > 0 { decreased(rest, sat(excess)) } else { rest };
                lemma_decreased(rest, sat(excess));
                lemma_raw_sum_update(room, pi as int, x);
                lemma_raw_sum_bounds(room, pi as int);
            }
        },
        _ => {},
    }
}

/// The weights after the move number `k` toward the prefix at position `j`.
pub open spec fn weight_move(
    pw: Seq<Fixed>,
    max_weight: Fixed,
    hold: Hold,
    scale: Fixed,
    j: int,
    k: i64,
) -> Seq<Fixed> {
    held(increased(pw, max_weight, j, move_fraction(scale, k)), max_weight, hold)
}

/// A move keeps the weights within the budget.
pub proof fn lemma_weight_move(
    pw: Seq<Fixed>,
    max_weight: Fixed,
    hold: Hold,
    scale: Fixed,
    j: int,
    k: i64,
)
    requires
        within_budget(pw, max_weight),
        hold_ok(hold, max_weight, pw.len() as int),
        0 <= j < pw.len(),
        0 <= move_fraction(scale, k).raw <= crate::fixed::SCALE,
    ensures
        within_budget(weight_move(pw, max_weight, hold, scale, j, k), max_weight),
        weight_move(pw, max_weight, hold, scale, j, k).len() == pw.len(),
{
    let c = move_fraction(scale, k);
    lemma_increased_within_budget(pw, max_weight, j, c);
    lemma_held(increased(pw, max_weight, j, c), max_weight, hold);
}

/// The objective under `ch` of the weights `pw` with the configuration `cfg`.
pub open spec fn coarse_objective<C: CharacterModel>(
    ch: &C,
    catalog: &Catalog,
    pw: Seq<Fixed>,
    cfg: C::Config,
) -> Fixed {
    score(ch, &spec_calc_gear_stats(catalog, pw), &cfg)
}

/// A round may set `field` of `cfg` to `value`: the field is not held, and the value is one of
/// the field's.
pub open spec fn may_set<V: Vary>(cfg: V, hold: Hold, field: int, value: u16) -> bool {
    &&& 0 <= field < cfg.arity().len()
    &&& !(hold matches Hold::Field(f) && f == field)
    &&& value < cfg.arity()[field]
}

/// The state `(t_pw, t_cfg)` is an outcome of one round from the state `(s_pw, s_cfg)`.
///
/// The neighbourhood of a state is the state itself, what each move of weight makes of it, and
/// what each change of one field to a valid configuration makes of it.  The outcome lies in
/// the neighbourhood, and nothing in the neighbourhood has a better objective.  Nothing but a
/// strict improvement moves the search: an outcome with the objective of the state is the
/// state.
pub open spec fn is_round_outcome<C: CharacterModel>(
    ch: &C,
    catalog: &Catalog,
    max_weight: Fixed,
    hold: Hold,
    scale: Fixed,
    s_pw: Seq<Fixed>,
    s_cfg: C::Config,
    t_pw: Seq<Fixed>,
    t_cfg: C::Config,
) -> bool {
    let found = coarse_objective(ch, catalog, t_pw, t_cfg);
    &&& {
        ||| t_pw == s_pw && t_cfg == s_cfg
        ||| t_cfg == s_cfg && exists|j: int, k: i64|
            0 <= j < s_pw.len() && 1 <= k <= STEPS && t_pw == #[trigger] weight_move(
                s_pw,
                max_weight,
                hold,
                scale,
                j,
                k,
            )
        ||| t_pw == s_pw && exists|field: int, value: u16|
            may_set(s_cfg, hold, field, value) && t_cfg == #[trigger] s_cfg.with_field(field, value)
                && ch.config_valid(&t_cfg)
    }
    &&& found.raw <= coarse_objective(ch, catalog, s_pw, s_cfg).raw
    &&& found.raw == coarse_objective(ch, catalog, s_pw, s_cfg).raw ==> t_pw == s_pw && t_cfg
        == s_cfg
    &&& forall|j: int, k: i64|
        0 <= j < s_pw.len() && 1 <= k <= STEPS ==> found.raw <= coarse_objective(
            ch,
            catalog,
            #[trigger] weight_move(s_pw, max_weight, hold, scale, j, k),
            s_cfg,
        ).raw
    &&& forall|field: int, value: u16|
        may_set(s_cfg, hold, field, value) && ch.config_valid(
            &#[trigger] s_cfg.with_field(field, value),
        ) ==> found.raw <= coarse_objective(
            ch,
            catalog,
            s_pw,
            s_cfg.with_field(field, value),
        ).raw
}

/// The states `(pws[i], cfgs[i])` are those of a local search of `n` rounds: each is an
/// outcome of one round from the state before it, with the step scale of the round.
pub open spec fn is_search_trace<C: CharacterModel>(
    ch: &C,
    catalog: &Catalog,
    max_weight: Fixed,
    hold: Hold,
    n: nat,
    pws: Seq<Seq<Fixed>>,
    cfgs: Seq<C::Config>,
) -> bool {
    &&& pws.len() == n + 1
    &&& cfgs.len() == n + 1
    &&& forall|i: int|
        0 <= i < n ==> #[trigger] is_round_outcome(
            ch,
            catalog,
            max_weight,
            hold,
            step_scale(i as nat),
            pws[i],
            cfgs[i],
            pws[i + 1],
            cfgs[i + 1],
        )
}

/// The state `(t_pw, t_cfg)` is an outcome of `n` rounds from the state `(s_pw, s_cfg)`, each
/// round with the step scale of its number.
pub open spec fn is_search_outcome<C: CharacterModel>(
    ch: &C,
    catalog: &Catalog,
    max_weight: Fixed,
    hold: Hold,
    n: nat,
    s_pw: Seq<Fixed>,
    s_cfg: C::Config,
    t_pw: Seq<Fixed>,
    t_cfg: C::Config,
) -> bool {
    exists|pws: Seq<Seq<Fixed>>, cfgs: Seq<C::Config>|
        #[trigger] is_search_trace(ch, catalog, max_weight, hold, n, pws, cfgs) && pws[0] == s_pw
            && cfgs[0] == s_cfg && pws[n as int] == t_pw && cfgs[n as int] == t_cfg
}

/// The best weights among those of the state `(pw, cfg)` and what the first `t` moves of
/// weight make of them, with their objective.  The moves are taken prefix by prefix, and for
/// each prefix from the smallest step to the largest.  A move takes the place of what was
/// best before it only where its objective is strictly better, so of several best moves the
/// first wins.
pub open spec fn best_weight_upto<C: CharacterModel>(
    ch: &C,
    catalog: &Catalog,
    max_weight: Fixed,
    hold: Hold,
    scale: Fixed,
    pw: Seq<Fixed>,
    cfg: C::Config,
    t: int,
) -> (Seq<Fixed>, Fixed)
    decreases t,
{
    if t <= 0 {
        (pw, coarse_objective(ch, catalog, pw, cfg))
    } else {
        let before = best_weight_upto(ch, catalog, max_weight, hold, scale, pw, cfg, t - 1);
        let moved = weight_move(
            pw,
            max_weight,
            hold,
            scale,
            (t - 1) / (STEPS as int),
            ((t - 1) % (STEPS as int) + 1) as i64,
        );
        let m = coarse_objective(ch, catalog, moved, cfg);
        if m.raw < before.1.raw {
            (moved, m)
        } else {
            before
        }
    }
}

/// The objective to beat after some changes of fields have been tried: that of the best
/// change so far, or `bound` where none has beaten it.
pub open spec fn to_beat<V>(best: Option<(V, Fixed)>, bound: Fixed) -> Fixed {
    match best {
        Some((_, m)) => m,
        None => bound,
    }
}

/// The best change of a field after `best`, the best so far, and the first `v` values of the
/// field `field` have been tried, with the weights `pw`.  A change counts where the field is
/// not held and the configuration is valid, and it takes the place of what was best before
/// it only where its objective is strictly better than that and than `bound`.
pub open spec fn best_value_upto<C: CharacterModel>(
    ch: &C,
    catalog: &Catalog,
    hold: Hold,
    pw: Seq<Fixed>,
    cfg: C::Config,
    bound: Fixed,
    best: Option<(C::Config, Fixed)>,
    field: int,
    v: int,
) -> Option<(C::Config, Fixed)>
    decreases v,
{
    if v <= 0 {
        best
    } else {
        let before = best_value_upto(ch, catalog, hold, pw, cfg, bound, best, field, v - 1);
        let value = (v - 1) as u16;
        let changed = cfg.with_field(field, value);
        let m = coarse_objective(ch, catalog, pw, changed);
        if may_set(cfg, hold, field, value) && ch.config_valid(&changed) && m.raw < to_beat(
            before,
            bound,
        ).raw {
            Some((changed, m))
        } else {
            before
        }
    }
}

/// The best change of one of the first `f` fields of `cfg`, field by field and value by
/// value, or none where no change beats `bound`.
pub open spec fn best_field_upto<C: CharacterModel>(
    ch: &C,
    catalog: &Catalog,
    hold: Hold,
    pw: Seq<Fixed>,
    cfg: C::Config,
    bound: Fixed,
    f: int,
) -> Option<(C::Config, Fixed)>
    decreases f,
{
    if f <= 0 {
        None
    } else {
        best_value_upto(
            ch,
            catalog,
            hold,
            pw,
            cfg,
            bound,
            best_field_upto(ch, catalog, hold, pw, cfg, bound, f - 1),
            f - 1,
            cfg.arity()[f - 1] as int,
        )
    }
}

/// The state to which one round moves from the state `(pw, cfg)`: the first strictly best
/// change of a field, where one beats every move of weight; else the first strictly best
/// move of weight; else the state itself.
pub open spec fn round_result<C: CharacterModel>(
    ch: &C,
    catalog: &Catalog,
    max_weight: Fixed,
    hold: Hold,
    scale: Fixed,
    pw: Seq<Fixed>,
    cfg: C::Config,
) -> (Seq<Fixed>, C::Config) {
    let moved = best_weight_upto(
        ch,
        catalog,
        max_weight,
        hold,
        scale,
        pw,
        cfg,
        pw.len() * (STEPS as int),
    );
    match best_field_upto(ch, catalog, hold, pw, cfg, moved.1, cfg.arity().len() as int) {
        Some((changed, _)) => (pw, changed),
        None => (moved.0, cfg),
    }
}

/// The state that a local search of `n` rounds reaches from the state `(pw, cfg)`.
pub open spec fn search_result<C: CharacterModel>(
    ch: &C,
    catalog: &Catalog,
    max_weight: Fixed,
    hold: Hold,
    n: nat,
    pw: Seq<Fixed>,
    cfg: C::Config,
) -> (Seq<Fixed>, C::Config)
    decreases n,
{
    if n == 0 {
        (pw, cfg)
    } else {
        let before = search_result(ch, catalog, max_weight, hold, (n - 1) as nat, pw, cfg);
        round_result(
            ch,
            catalog,
            max_weight,
            hold,
            step_scale((n - 1) as nat),
            before.0,
            before.1,
        )
    }
}

/// Of a field that is held, no value is tried.
pub proof fn lemma_held_field_skipped<C: CharacterModel>(
    ch: &C,
    catalog: &Catalog,
    hold: Hold,
    pw: Seq<Fixed>,
    cfg: C::Config,
    bound: Fixed,
    best: Option<(C::Config, Fixed)>,
    field: int,
    v: int,
)
    requires
        hold matches Hold::Field(f) && f == field,
    ensures
        best_value_upto(ch, catalog, hold, pw, cfg, bound, best, field, v) == best,
    decreases v,
{
    if v > 0 {
        lemma_held_field_skipped(ch, catalog, hold, pw, cfg, bound, best, field, v - 1);
    }
}

/// The best objective that searches have seen with each prefix in use and with each value of
/// each field of the configuration.
#[derive(Debug)]
pub struct BestSeen {
    pub for_prefix: Vec<Fixed>,
    pub for_field_value: Vec<Vec<Fixed>>,
}

/// Weight from which on a prefix counts as in use.
pub open spec fn spec_in_use() -> Fixed {
    Fixed::from_int(400)
}

/// Weight from which on a prefix counts as in use.
#[verifier::when_used_as_spec(spec_in_use)]
pub fn in_use() -> (r: Fixed)
    ensures
        r == spec_in_use(),
{
    Fixed::from_int(400)
}

impl BestSeen {
    /// There is an entry for each of `num_prefixes` prefixes and for each value of each field
    /// of `cfg`, of which every field has at least one.
    pub open spec fn fits<V: Vary>(&self, num_prefixes: int, cfg: &V) -> bool {
        &&& self.for_prefix@.len() == num_prefixes
        &&& self.for_field_value@.len() == cfg.arity().len()
        &&& forall|i: int|
            0 <= i < cfg.arity().len() ==> (#[trigger] self.for_field_value@[i])@.len()
                == cfg.arity()[i]
        &&& forall|i: int| 0 <= i < cfg.arity().len() ==> 0 < #[trigger] cfg.arity()[i]
    }

    /// No entry of `self` is worse than the entry of `other` in its place.
    pub open spec fn no_worse_than(&self, other: &BestSeen) -> bool {
        &&& self.for_prefix@.len() == other.for_prefix@.len()
        &&& self.for_field_value@.len() == other.for_field_value@.len()
        &&& forall|i: int|
            0 <= i < self.for_prefix@.len() ==> (#[trigger] self.for_prefix@[i]).raw
                <= other.for_prefix@[i].raw
        &&& forall|i: int|
            0 <= i < self.for_field_value@.len() ==> (#[trigger] self.for_field_value@[i])@.len()
                == other.for_field_value@[i]@.len()
        &&& forall|i: int, v: int|
            0 <= i < self.for_field_value@.len() && 0 <= v < self.for_field_value@[i]@.len()
                ==> (#[trigger] self.for_field_value@[i]@[v]).raw
                <= other.for_field_value@[i]@[v].raw
    }

    /// The record has taken note of a state with the weights `pw`, whose fields hold the
    /// values `fields`, and with the objective `m`: the entry of each prefix in use, and of
    /// the value that each field holds, is at most `m`.
    pub open spec fn holds(&self, pw: Seq<Fixed>, fields: Seq<u16>, m: Fixed) -> bool {
        &&& forall|i: int|
            0 <= i < pw.len() && i < self.for_prefix@.len() && pw[i].raw >= in_use().raw ==> (
            #[trigger] self.for_prefix@[i]).raw <= m.raw
        &&& forall|i: int|
            0 <= i < fields.len() && i < self.for_field_value@.len() && fields[i]
                < self.for_field_value@[i]@.len() ==> (#[trigger] self.for_field_value@[i])@[fields[i] as int].raw
                <= m.raw
    }

    /// A record in which nothing has been seen: every entry holds the starting objective.
    pub fn new<V: Vary>(num_prefixes: usize, cfg: &V) -> (r: BestSeen)
        requires
            cfg.wf(),
        ensures
            r.fits(num_prefixes as int, cfg),
            forall|i: int| 0 <= i < num_prefixes ==> #[trigger] r.for_prefix@[i] == worst_objective(),
            forall|i: int, v: int|
                0 <= i < r.for_field_value@.len() && 0 <= v < r.for_field_value@[i]@.len()
                    ==> #[trigger] r.for_field_value@[i]@[v] == worst_objective(),
    {
        let mut for_prefix: Vec<Fixed> = Vec::new();
        let mut i: usize = 0;
        while i < num_prefixes
            invariant
                i <= num_prefixes,
                for_prefix@.len() == i,
                forall|k: int| 0 <= k < i ==> #[trigger] for_prefix@[k] == worst_objective(),
            decreases num_prefixes - i,
        {
            for_prefix.push(worst_objective());
            i += 1;
        }
        let mut for_field_value: Vec<Vec<Fixed>> = Vec::new();
        let num_fields = cfg.num_fields();
        let mut i: usize = 0;
        while i < num_fields
            invariant
                cfg.wf(),
                num_fields == cfg.arity().len(),
                i <= num_fields,
                for_field_value@.len() == i,
                forall|k: int|
                    0 <= k < i ==> (#[trigger] for_field_value@[k])@.len() == cfg.arity()[k],
                forall|k: int| 0 <= k < i ==> 0 < #[trigger] cfg.arity()[k],
                forall|k: int, v: int|
                    0 <= k < i && 0 <= v < for_field_value@[k]@.len()
                        ==> #[trigger] for_field_value@[k]@[v] == worst_objective(),
            decreases num_fields - i,
        {
            let count = cfg.num_field_values(i);
            let mut row: Vec<Fixed> = Vec::new();
            let mut v: u16 = 0;
            while v < count
                invariant
                    v <= count,
                    row@.len() == v,
                    forall|k: int| 0 <= k < v ==> #[trigger] row@[k] == worst_objective(),
                decreases count - v,
            {
                row.push(worst_objective());
                v += 1;
            }
            for_field_value.push(row);
            i += 1;
        }
        BestSeen { for_prefix, for_field_value }
    }

    /// Records that the weights `pw` with the configuration `cfg` have the objective `m`: the
    /// entry of each prefix in use, and of the value that each field holds, becomes `m` where
    /// `m` is better.
    pub fn record<V: Vary>(&mut self, pw: &PrefixWeights, cfg: &V, m: Fixed)
        requires
            cfg.wf(),
            old(self).fits(pw@.len() as int, cfg),
        ensures
            final(self).fits(pw@.len() as int, cfg),
            final(self).no_worse_than(old(self)),
            final(self).holds(pw@, cfg.fields(), m),
            forall|i: int|
                0 <= i < pw@.len() ==> #[trigger] final(self).for_prefix@[i] == if pw@[i].raw
                    >= in_use().raw && m.raw < old(self).for_prefix@[i].raw {
                    m
                } else {
                    old(self).for_prefix@[i]
                },
            forall|i: int, v: int|
                0 <= i < cfg.arity().len() && 0 <= v < cfg.arity()[i]
                    ==> #[trigger] final(self).for_field_value@[i]@[v] == if cfg.fields()[i] == v
                    && m.raw < old(self).for_field_value@[i]@[v].raw {
                    m
                } else {
                    old(self).for_field_value@[i]@[v]
                },
    {
        let limit = in_use();
        let mut i: usize = 0;
        while i < pw.len()
            invariant
                i <= pw@.len(),
                limit == in_use(),
                self.for_prefix@.len() == pw@.len(),
                self.for_field_value == old(self).for_field_value,
                forall|k: int|
                    0 <= k < i ==> #[trigger] self.for_prefix@[k] == if pw@[k].raw >= in_use().raw
                        && m.raw < old(self).for_prefix@[k].raw {
                        m
                    } else {
                        old(self).for_prefix@[k]
                    },
                forall|k: int|
                    i <= k < pw@.len() ==> #[trigger] self.for_prefix@[k] == old(
                        self,
                    ).for_prefix@[k],
            decreases pw@.len() - i,
        {
            if pw[i].raw >= limit.raw && m.raw < self.for_prefix[i].raw {
                self.for_prefix[i] = m;
            }
            i += 1;
        }
        let num_fields = cfg.num_fields();
        let mut i: usize = 0;
        while i < num_fields
            invariant
                cfg.wf(),
                num_fields == cfg.arity().len(),
                i <= num_fields,
                cfg.fields().len() == cfg.arity().len(),
                old(self).fits(pw@.len() as int, cfg),
                self.for_prefix@.len() == pw@.len(),
                self.for_field_value@.len() == num_fields,
                forall|k: int|
                    0 <= k < num_fields ==> (#[trigger] self.for_field_value@[k])@.len()
                        == cfg.arity()[k],
                forall|k: int|
                    0 <= k < pw@.len() ==> #[trigger] self.for_prefix@[k] == if pw@[k].raw
                        >= in_use().raw && m.raw < old(self).for_prefix@[k].raw {
                        m
                    } else {
                        old(self).for_prefix@[k]
                    },
                forall|k: int, v: int|
                    0 <= k < i && 0 <= v < cfg.arity()[k]
                        ==> #[trigger] self.for_field_value@[k]@[v] == if cfg.fields()[k] == v
                        && m.raw < old(self).for_field_value@[k]@[v].raw {
                        m
                    } else {
                        old(self).for_field_value@[k]@[v]
                    },
                forall|k: int|
                    i <= k < num_fields ==> #[trigger] self.for_field_value@[k] == old(
                        self,
                    ).for_field_value@[k],
            decreases num_fields - i,
        {
            let v = cfg.get_field(i) as usize;
            assert(v < self.for_field_value@[i as int]@.len());
            if m.raw < self.for_field_value[i][v].raw {
                self.for_field_value[i][v] = m;
            }
            i += 1;
        }
    }
}

/// A copy of the weights.
pub fn copy_weights(pw: &PrefixWeights) -> (r: PrefixWeights)
    ensures
        r@ == pw@,
{
    let mut r: Vec<Fixed> = Vec::new();
    let mut i: usize = 0;
    while i < pw.len()
        invariant
            i <= pw@.len(),
            r@ == pw@.take(i as int),
        decreases pw@.len() - i,
    {
        r.push(pw[i]);
        i += 1;
        assert(r@ =~= pw@.take(i as int));
    }
    assert(pw@.take(i as int) =~= pw@);
    r
}

/// Applies the hold to the weights: where the held prefix has less than its weight, it is
/// given that weight, and the others are decreased as far as the budget requires.
pub fn apply_hold(pw: &mut PrefixWeights, max_weight: Fixed, hold: Hold)
    requires
        nonneg(old(pw)@),
        hold_ok(hold, max_weight, old(pw)@.len() as int),
    ensures
        final(pw)@ == held(old(pw)@, max_weight, hold),
{
    match hold {
        Hold::Prefix(pi, x) => {
            if pw[pi].lt(x) {
                pw[pi] = Fixed::zero();
                let n = pw.len();
                let total = raw_total(pw);
                assert(total <= 0xffff_ffff_ffff_ffff * 0x7fff_ffff_ffff_ffff) by (nonlinear_arith)
                    requires
                        total <= n * 0x7fff_ffff_ffff_ffff,
                        n <= 0xffff_ffff_ffff_ffff,
                ;
                let excess: i128 = total + x.raw as i128 - max_weight.raw as i128;
                if excess > 0 {
                    let amount = if excess > i64::MAX as i128 {
                        Fixed { raw: i64::MAX }
                    } else {
                        Fixed { raw: excess as i64 }
                    };
                    decrease_prefix_weights_linear(pw, amount);
                }
                pw[pi] = x;
            }
        },
        _ => {},
    }
}

/// Tries every move of weight from the state `(pw, cfg)`, whose objective is `m`, and returns
/// the best weights found with their objective.  Nothing but a strict improvement replaces
/// the state.
pub fn scan_weights<C: CharacterModel>(
    ch: &C,
    catalog: &Catalog,
    max_weight: Fixed,
    pw: &PrefixWeights,
    cfg: &C::Config,
    m: Fixed,
    hold: Hold,
    scale: Fixed,
    seen: &mut BestSeen,
) -> (r: (PrefixWeights, Fixed))
    requires
        ch.wf(),
        cfg.wf(),
        pw@.len() == catalog.prefixes@.len(),
        within_budget(pw@, max_weight),
        hold_ok(hold, max_weight, pw@.len() as int),
        0 <= scale.raw <= crate::fixed::SCALE,
        m == coarse_objective(ch, catalog, pw@, *cfg),
        old(seen).fits(pw@.len() as int, cfg),
    ensures
        r.1 == coarse_objective(ch, catalog, r.0@, *cfg),
        r.1.raw <= m.raw,
        within_budget(r.0@, max_weight),
        r.0@.len() == pw@.len(),
        r.0@ == pw@ || exists|j: int, k: i64|
            0 <= j < pw@.len() && 1 <= k <= STEPS && r.0@ == #[trigger] weight_move(
                pw@,
                max_weight,
                hold,
                scale,
                j,
                k,
            ),
        forall|j: int, k: i64|
            0 <= j < pw@.len() && 1 <= k <= STEPS ==> r.1.raw <= coarse_objective(
                ch,
                catalog,
                #[trigger] weight_move(pw@, max_weight, hold, scale, j, k),
                *cfg,
            ).raw,
        r.1.raw == m.raw ==> r.0@ == pw@,
        (r.0@, r.1) == best_weight_upto(
            ch,
            catalog,
            max_weight,
            hold,
            scale,
            pw@,
            *cfg,
            pw@.len() * (STEPS as int),
        ),
        final(seen).fits(pw@.len() as int, cfg),
        final(seen).no_worse_than(old(seen)),
        holds_weight_moves(
            final(seen),
            ch,
            catalog,
            max_weight,
            hold,
            scale,
            pw@,
            *cfg,
            pw@.len() as int,
            0,
        ),
{
    let mut best_pw = copy_weights(pw);
    let mut best_m = m;
    let mut j: usize = 0;
    while j < pw.len()
        invariant
            ch.wf(),
            cfg.wf(),
            j <= pw@.len(),
            pw@.len() == catalog.prefixes@.len(),
            within_budget(pw@, max_weight),
            hold_ok(hold, max_weight, pw@.len() as int),
            0 <= scale.raw <= crate::fixed::SCALE,
            best_m == coarse_objective(ch, catalog, best_pw@, *cfg),
            best_m.raw <= m.raw,
            within_budget(best_pw@, max_weight),
            best_pw@.len() == pw@.len(),
            best_pw@ == pw@ || exists|a: int, k: i64|
                0 <= a < pw@.len() && 1 <= k <= STEPS && best_pw@ == #[trigger] weight_move(
                    pw@,
                    max_weight,
                    hold,
                    scale,
                    a,
                    k,
                ),
            forall|a: int, k: i64|
                0 <= a < j && 1 <= k <= STEPS ==> best_m.raw <= coarse_objective(
                    ch,
                    catalog,
                    #[trigger] weight_move(pw@, max_weight, hold, scale, a, k),
                    *cfg,
                ).raw,
            best_m.raw == m.raw ==> best_pw@ == pw@,
            m == coarse_objective(ch, catalog, pw@, *cfg),
            (best_pw@, best_m) == best_weight_upto(
                ch,
                catalog,
                max_weight,
                hold,
                scale,
                pw@,
                *cfg,
                j * (STEPS as int),
            ),
            seen.fits(pw@.len() as int, cfg),
            seen.no_worse_than(old(seen)),
            holds_weight_moves(seen, ch, catalog, max_weight, hold, scale, pw@, *cfg, j as int, 0),
        decreases pw@.len() - j,
    {
        let mut k: i64 = 1;
        while k <= STEPS
            invariant
                ch.wf(),
                cfg.wf(),
                j < pw@.len(),
                1 <= k <= STEPS + 1,
                pw@.len() == catalog.prefixes@.len(),
                within_budget(pw@, max_weight),
                hold_ok(hold, max_weight, pw@.len() as int),
                0 <= scale.raw <= crate::fixed::SCALE,
                best_m == coarse_objective(ch, catalog, best_pw@, *cfg),
                best_m.raw <= m.raw,
                within_budget(best_pw@, max_weight),
                best_pw@.len() == pw@.len(),
                best_pw@ == pw@ || exists|a: int, b: i64|
                    0 <= a < pw@.len() && 1 <= b <= STEPS && best_pw@ == #[trigger] weight_move(
                        pw@,
                        max_weight,
                        hold,
                        scale,
                        a,
                        b,
                    ),
                forall|a: int, b: i64|
                    0 <= a < j && 1 <= b <= STEPS ==> best_m.raw <= coarse_objective(
                        ch,
                        catalog,
                        #[trigger] weight_move(pw@, max_weight, hold, scale, a, b),
                        *cfg,
                    ).raw,
                forall|b: i64|
                    1 <= b < k ==> best_m.raw <= coarse_objective(
                        ch,
                        catalog,
                        #[trigger] weight_move(pw@, max_weight, hold, scale, j as int, b),
                        *cfg,
                    ).raw,
                best_m.raw == m.raw ==> best_pw@ == pw@,
                m == coarse_objective(ch, catalog, pw@, *cfg),
                (best_pw@, best_m) == best_weight_upto(
                    ch,
                    catalog,
                    max_weight,
                    hold,
                    scale,
                    pw@,
                    *cfg,
                    j * (STEPS as int) + (k - 1),
                ),
                seen.fits(pw@.len() as int, cfg),
                seen.no_worse_than(old(seen)),
                holds_weight_moves(
                    seen,
                    ch,
                    catalog,
                    max_weight,
                    hold,
                    scale,
                    pw@,
                    *cfg,
                    j as int,
                    k as int,
                ),
            decreases STEPS + 1 - k,
        {
            let c = move_fraction(scale, k);
            let mut new_pw = copy_weights(pw);
            increase_prefix_weight(&mut new_pw, max_weight, j, c);
            proof {
                lemma_increased_within_budget(pw@, max_weight, j as int, c);
                lemma_weight_move(pw@, max_weight, hold, scale, j as int, k);
            }
            apply_hold(&mut new_pw, max_weight, hold);
            assert(new_pw@ == weight_move(pw@, max_weight, hold, scale, j as int, k));
            let new_gear = calc_gear_stats(catalog, &new_pw);
            let new_m = evaluate_config(ch, &new_gear, cfg);
            let ghost before = *seen;
            seen.record(&new_pw, cfg, new_m);
            proof {
                lemma_no_worse_transitive(seen, &before, old(seen));
                lemma_weight_moves_kept(
                    &before,
                    seen,
                    ch,
                    catalog,
                    max_weight,
                    hold,
                    scale,
                    pw@,
                    *cfg,
                    j as int,
                    k as int,
                );
            }
            proof {
                let t = j * (STEPS as int) + k;
                assert((t - 1) / (STEPS as int) == j && (t - 1) % (STEPS as int) + 1 == k);
            }
            if new_m.lt(best_m) {
                best_pw = new_pw;
                best_m = new_m;
            }
            k += 1;
        }
        proof {
            assert(j * (STEPS as int) + (k - 1) == (j + 1) * (STEPS as int)) by (nonlinear_arith)
                requires
                    k == STEPS + 1,
            ;
        }
        j += 1;
    }
    (best_pw, best_m)
}

/// Being no worse carries over.
pub proof fn lemma_no_worse_transitive(a: &BestSeen, b: &BestSeen, c: &BestSeen)
    requires
        a.no_worse_than(b),
        b.no_worse_than(c),
    ensures
        a.no_worse_than(c),
{
    assert forall|i: int| 0 <= i < a.for_prefix@.len() implies (#[trigger] a.for_prefix@[i]).raw
        <= c.for_prefix@[i].raw by {
        assert(b.for_prefix@[i].raw <= c.for_prefix@[i].raw);
    }
    assert forall|i: int| 0 <= i < a.for_field_value@.len() implies (
    #[trigger] a.for_field_value@[i])@.len() == c.for_field_value@[i]@.len() by {
        assert(b.for_field_value@[i]@.len() == c.for_field_value@[i]@.len());
    }
    assert forall|i: int, v: int|
        0 <= i < a.for_field_value@.len() && 0 <= v < a.for_field_value@[i]@.len() implies (
    #[trigger] a.for_field_value@[i]@[v]).raw <= c.for_field_value@[i]@[v].raw by {
        assert(a.for_field_value@[i]@.len() == b.for_field_value@[i]@.len());
        assert(b.for_field_value@[i]@[v].raw <= c.for_field_value@[i]@[v].raw);
    }
}

/// What a record has taken note of, a record that is no worse has taken note of too.
pub proof fn lemma_holds_kept(a: &BestSeen, b: &BestSeen, pw: Seq<Fixed>, fields: Seq<u16>, m: Fixed)
    requires
        a.holds(pw, fields, m),
        b.no_worse_than(a),
    ensures
        b.holds(pw, fields, m),
{
    assert forall|i: int|
        0 <= i < pw.len() && i < b.for_prefix@.len() && pw[i].raw >= in_use().raw implies (
    #[trigger] b.for_prefix@[i]).raw <= m.raw by {
        assert(a.for_prefix@[i].raw <= m.raw);
    }
    assert forall|i: int|
        0 <= i < fields.len() && i < b.for_field_value@.len() && fields[i]
            < b.for_field_value@[i]@.len() implies (#[trigger] b.for_field_value@[i])@[fields[i] as int].raw
        <= m.raw by {
        assert(b.for_field_value@[i]@.len() == a.for_field_value@[i]@.len());
        assert(a.for_field_value@[i]@[fields[i] as int].raw <= m.raw);
        assert(b.for_field_value@[i]@[fields[i] as int].raw <= a.for_field_value@[i]@[fields[i] as int].raw);
    }
}

/// The record has taken note of every move of weight from the state `(pw, cfg)` toward the
/// prefixes before `prefixes`, and toward the prefix `prefixes` of the moves before `steps`,
/// each with its objective.
pub open spec fn holds_weight_moves<C: CharacterModel>(
    seen: &BestSeen,
    ch: &C,
    catalog: &Catalog,
    max_weight: Fixed,
    hold: Hold,
    scale: Fixed,
    pw: Seq<Fixed>,
    cfg: C::Config,
    prefixes: int,
    steps: int,
) -> bool {
    forall|j: int, k: i64|
        0 <= j < pw.len() && 1 <= k <= STEPS && (j < prefixes || (j == prefixes && k < steps))
            ==> seen.holds(
            #[trigger] weight_move(pw, max_weight, hold, scale, j, k),
            cfg.fields(),
            coarse_objective(ch, catalog, weight_move(pw, max_weight, hold, scale, j, k), cfg),
        )
}

/// The record has taken note of every change of one of the fields before `fields` of `cfg`,
/// and of the field `fields` to the values before `values`, that gives a valid configuration,
/// each with its objective with the weights `pw`.
pub open spec fn holds_field_changes<C: CharacterModel>(
    seen: &BestSeen,
    ch: &C,
    catalog: &Catalog,
    hold: Hold,
    pw: Seq<Fixed>,
    cfg: C::Config,
    fields: int,
    values: int,
) -> bool {
    forall|field: int, value: u16|
        may_set(cfg, hold, field, value) && (field < fields || (field == fields && value < values))
            && ch.config_valid(&#[trigger] cfg.with_field(field, value)) ==> seen.holds(
            pw,
            cfg.with_field(field, value).fields(),
            coarse_objective(ch, catalog, pw, cfg.with_field(field, value)),
        )
}

/// The record has taken note of all that one round from the state `(pw, cfg)` evaluates:
/// every move of weight and every change of one field to a valid configuration, each with
/// its objective.
pub open spec fn holds_round<C: CharacterModel>(
    seen: &BestSeen,
    ch: &C,
    catalog: &Catalog,
    max_weight: Fixed,
    hold: Hold,
    scale: Fixed,
    pw: Seq<Fixed>,
    cfg: C::Config,
) -> bool {
    &&& holds_weight_moves(seen, ch, catalog, max_weight, hold, scale, pw, cfg, pw.len() as int, 0)
    &&& holds_field_changes(seen, ch, catalog, hold, pw, cfg, cfg.arity().len() as int, 0)
}

/// What a record has taken note of among the moves of weight, a record that is no worse has
/// taken note of too.
pub proof fn lemma_weight_moves_kept<C: CharacterModel>(
    a: &BestSeen,
    b: &BestSeen,
    ch: &C,
    catalog: &Catalog,
    max_weight: Fixed,
    hold: Hold,
    scale: Fixed,
    pw: Seq<Fixed>,
    cfg: C::Config,
    prefixes: int,
    steps: int,
)
    requires
        holds_weight_moves(a, ch, catalog, max_weight, hold, scale, pw, cfg, prefixes, steps),
        b.no_worse_than(a),
    ensures
        holds_weight_moves(b, ch, catalog, max_weight, hold, scale, pw, cfg, prefixes, steps),
{
    assert forall|j: int, k: i64|
        0 <= j < pw.len() && 1 <= k <= STEPS && (j < prefixes || (j == prefixes && k
            < steps)) implies b.holds(
        #[trigger] weight_move(pw, max_weight, hold, scale, j, k),
        cfg.fields(),
        coarse_objective(ch, catalog, weight_move(pw, max_weight, hold, scale, j, k), cfg),
    ) by {
        let moved = weight_move(pw, max_weight, hold, scale, j, k);
        lemma_holds_kept(a, b, moved, cfg.fields(), coarse_objective(ch, catalog, moved, cfg));
    }
}

/// What a record has taken note of among the changes of fields, a record that is no worse
/// has taken note of too.
pub proof fn lemma_field_changes_kept<C: CharacterModel>(
    a: &BestSeen,
    b: &BestSeen,
    ch: &C,
    catalog: &Catalog,
    hold: Hold,
    pw: Seq<Fixed>,
    cfg: C::Config,
    fields: int,
    values: int,
)
    requires
        holds_field_changes(a, ch, catalog, hold, pw, cfg, fields, values),
        b.no_worse_than(a),
    ensures
        holds_field_changes(b, ch, catalog, hold, pw, cfg, fields, values),
{
    assert forall|field: int, value: u16|
        may_set(cfg, hold, field, value) && (field < fields || (field == fields && value
            < values)) && ch.config_valid(&#[trigger] cfg.with_field(field, value)) implies b.holds(
        pw,
        cfg.with_field(field, value).fields(),
        coarse_objective(ch, catalog, pw, cfg.with_field(field, value)),
    ) by {
        let changed = cfg.with_field(field, value);
        lemma_holds_kept(a, b, pw, changed.fields(), coarse_objective(ch, catalog, pw, changed));
    }
}

/// Tries every change of one field of `cfg` that is not held and gives a valid configuration,
/// with the weights `pw`, and returns the best configuration whose objective improves on
/// `bound`, with that objective.
pub fn scan_config<C: CharacterModel>(
    ch: &C,
    catalog: &Catalog,
    pw: &PrefixWeights,
    cfg: &C::Config,
    hold: Hold,
    bound: Fixed,
    seen: &mut BestSeen,
) -> (r: Option<(C::Config, Fixed)>)
    requires
        ch.wf(),
        cfg.wf(),
        pw@.len() == catalog.prefixes@.len(),
        old(seen).fits(pw@.len() as int, cfg),
    ensures
        match r {
            Some((c, mc)) => {
                &&& mc == coarse_objective(ch, catalog, pw@, c)
                &&& mc.raw < bound.raw
                &&& c.wf()
                &&& c.arity() == cfg.arity()
                &&& exists|field: int, value: u16|
                    may_set(*cfg, hold, field, value) && c == #[trigger] cfg.with_field(field, value)
                        && ch.config_valid(&c)
                &&& forall|field: int, value: u16|
                    may_set(*cfg, hold, field, value) && ch.config_valid(
                        &#[trigger] cfg.with_field(field, value),
                    ) ==> mc.raw <= coarse_objective(
                        ch,
                        catalog,
                        pw@,
                        cfg.with_field(field, value),
                    ).raw
            },
            None => forall|field: int, value: u16|
                may_set(*cfg, hold, field, value) && ch.config_valid(
                    &#[trigger] cfg.with_field(field, value),
                ) ==> bound.raw <= coarse_objective(
                    ch,
                    catalog,
                    pw@,
                    cfg.with_field(field, value),
                ).raw,
        },
        r == best_field_upto(ch, catalog, hold, pw@, *cfg, bound, cfg.arity().len() as int),
        final(seen).fits(pw@.len() as int, cfg),
        final(seen).no_worse_than(old(seen)),
        holds_field_changes(
            final(seen),
            ch,
            catalog,
            hold,
            pw@,
            *cfg,
            cfg.arity().len() as int,
            0,
        ),
{
    let gear = calc_gear_stats(catalog, pw);
    let mut best: Option<(C::Config, Fixed)> = None;
    let mut best_m = bound;
    let num_fields = cfg.num_fields();
    let mut field: usize = 0;
    while field < num_fields
        invariant
            ch.wf(),
            cfg.wf(),
            num_fields == cfg.arity().len(),
            field <= num_fields,
            pw@.len() == catalog.prefixes@.len(),
            gear == spec_calc_gear_stats(catalog, pw@),
            best_m.raw <= bound.raw,
            match best {
                Some((c, mc)) => {
                    &&& mc == best_m
                    &&& mc == coarse_objective(ch, catalog, pw@, c)
                    &&& mc.raw < bound.raw
                    &&& c.wf()
                    &&& c.arity() == cfg.arity()
                    &&& exists|f: int, value: u16|
                        may_set(*cfg, hold, f, value) && c == #[trigger] cfg.with_field(f, value)
                            && ch.config_valid(&c)
                },
                None => best_m == bound,
            },
            forall|f: int, value: u16|
                0 <= f < field && may_set(*cfg, hold, f, value) && ch.config_valid(
                    &#[trigger] cfg.with_field(f, value),
                ) ==> best_m.raw <= coarse_objective(ch, catalog, pw@, cfg.with_field(f, value)).raw,
            best_m == to_beat(best, bound),
            best == best_field_upto(ch, catalog, hold, pw@, *cfg, bound, field as int),
            seen.fits(pw@.len() as int, cfg),
            seen.no_worse_than(old(seen)),
            holds_field_changes(seen, ch, catalog, hold, pw@, *cfg, field as int, 0),
        decreases num_fields - field,
    {
        let skip = match hold {
            Hold::Field(fi) => fi == field,
            _ => false,
        };
        proof {
            if skip {
                lemma_held_field_skipped(
                    ch,
                    catalog,
                    hold,
                    pw@,
                    *cfg,
                    bound,
                    best,
                    field as int,
                    cfg.arity()[field as int] as int,
                );
            }
        }
        if !skip {
            let count = cfg.num_field_values(field);
            let mut value: u16 = 0;
            while value < count
                invariant
                    ch.wf(),
                    cfg.wf(),
                    num_fields == cfg.arity().len(),
                    field < num_fields,
                    count == cfg.arity()[field as int],
                    value <= count,
                    !(hold matches Hold::Field(f) && f == field),
                    pw@.len() == catalog.prefixes@.len(),
                    gear == spec_calc_gear_stats(catalog, pw@),
                    best_m.raw <= bound.raw,
                    match best {
                        Some((c, mc)) => {
                            &&& mc == best_m
                            &&& mc == coarse_objective(ch, catalog, pw@, c)
                            &&& mc.raw < bound.raw
                            &&& c.wf()
                            &&& c.arity() == cfg.arity()
                            &&& exists|f: int, v: u16|
                                may_set(*cfg, hold, f, v) && c == #[trigger] cfg.with_field(f, v)
                                    && ch.config_valid(&c)
                        },
                        None => best_m == bound,
                    },
                    forall|f: int, v: u16|
                        0 <= f < field && may_set(*cfg, hold, f, v) && ch.config_valid(
                            &#[trigger] cfg.with_field(f, v),
                        ) ==> best_m.raw <= coarse_objective(
                            ch,
                            catalog,
                            pw@,
                            cfg.with_field(f, v),
                        ).raw,
                    forall|v: u16|
                        v < value && ch.config_valid(
                            &#[trigger] cfg.with_field(field as int, v),
                        ) ==> best_m.raw <= coarse_objective(
                            ch,
                            catalog,
                            pw@,
                            cfg.with_field(field as int, v),
                        ).raw,
                    best_m == to_beat(best, bound),
                    best == best_value_upto(
                        ch,
                        catalog,
                        hold,
                        pw@,
                        *cfg,
                        bound,
                        best_field_upto(ch, catalog, hold, pw@, *cfg, bound, field as int),
                        field as int,
                        value as int,
                    ),
                    seen.fits(pw@.len() as int, cfg),
                    seen.no_worse_than(old(seen)),
                    holds_field_changes(
                        seen,
                        ch,
                        catalog,
                        hold,
                        pw@,
                        *cfg,
                        field as int,
                        value as int,
                    ),
                decreases count - value,
            {
                let mut new_cfg = *cfg;
                new_cfg.set_field(field, value);
                assert(new_cfg == cfg.with_field(field as int, value));
                assert(may_set(*cfg, hold, field as int, value));
                if ch.is_config_valid(&new_cfg) {
                    let new_m = evaluate_config(ch, &gear, &new_cfg);
                    let ghost before = *seen;
                    proof {
                        assert(seen.fits(pw@.len() as int, &new_cfg));
                    }
                    seen.record(pw, &new_cfg, new_m);
                    proof {
                        lemma_no_worse_transitive(seen, &before, old(seen));
                        assert(seen.fits(pw@.len() as int, cfg));
                        lemma_field_changes_kept(
                            &before,
                            seen,
                            ch,
                            catalog,
                            hold,
                            pw@,
                            *cfg,
                            field as int,
                            value as int,
                        );
                    }
                    if new_m.lt(best_m) {
                        best = Some((new_cfg, new_m));
                        best_m = new_m;
                    }
                }
                value += 1;
            }
        }
        field += 1;
    }
    best
}

/// One round of the local search from the state `(pw, cfg)`, whose objective is `m`: the best
/// of the state and its neighbourhood, with its objective.
pub fn search_round<C: CharacterModel>(
    ch: &C,
    catalog: &Catalog,
    max_weight: Fixed,
    pw: &PrefixWeights,
    cfg: &C::Config,
    m: Fixed,
    hold: Hold,
    scale: Fixed,
    seen: &mut BestSeen,
) -> (r: (PrefixWeights, C::Config, Fixed))
    requires
        ch.wf(),
        cfg.wf(),
        pw@.len() == catalog.prefixes@.len(),
        within_budget(pw@, max_weight),
        hold_ok(hold, max_weight, pw@.len() as int),
        0 <= scale.raw <= crate::fixed::SCALE,
        m == coarse_objective(ch, catalog, pw@, *cfg),
        old(seen).fits(pw@.len() as int, cfg),
    ensures
        is_round_outcome(ch, catalog, max_weight, hold, scale, pw@, *cfg, r.0@, r.1),
        (r.0@, r.1) == round_result(ch, catalog, max_weight, hold, scale, pw@, *cfg),
        r.2 == coarse_objective(ch, catalog, r.0@, r.1),
        within_budget(r.0@, max_weight),
        r.0@.len() == pw@.len(),
        r.1.wf(),
        r.1.arity() == cfg.arity(),
        ch.config_valid(cfg) ==> ch.config_valid(&r.1),
        final(seen).fits(pw@.len() as int, cfg),
        final(seen).no_worse_than(old(seen)),
        holds_round(final(seen), ch, catalog, max_weight, hold, scale, pw@, *cfg),
{
    let (best_pw, best_m) = scan_weights(ch, catalog, max_weight, pw, cfg, m, hold, scale, seen);
    let ghost between = *seen;
    let changed = scan_config(ch, catalog, pw, cfg, hold, best_m, seen);
    proof {
        lemma_no_worse_transitive(seen, &between, old(seen));
        lemma_weight_moves_kept(
            &between,
            seen,
            ch,
            catalog,
            max_weight,
            hold,
            scale,
            pw@,
            *cfg,
            pw@.len() as int,
            0,
        );
    }
    match changed {
        Some((new_cfg, new_m)) => (copy_weights(pw), new_cfg, new_m),
        None => (best_pw, *cfg, best_m),
    }
}

/// The record has taken note of all that the rounds of the search with the states
/// `(pws[i], cfgs[i])` have evaluated: for each of the first `n` rounds, every neighbour of
/// the state from which the round started, with its objective.
pub open spec fn holds_trace<C: CharacterModel>(
    seen: &BestSeen,
    ch: &C,
    catalog: &Catalog,
    max_weight: Fixed,
    hold: Hold,
    n: nat,
    pws: Seq<Seq<Fixed>>,
    cfgs: Seq<C::Config>,
) -> bool {
    forall|i: int|
        0 <= i < n ==> #[trigger] holds_round(
            seen,
            ch,
            catalog,
            max_weight,
            hold,
            step_scale(i as nat),
            pws[i],
            cfgs[i],
        )
}

/// The state `(t_pw, t_cfg)` is an outcome of `n` rounds from the state `(s_pw, s_cfg)`, and
/// the record has taken note of every neighbour that these rounds have evaluated.
pub open spec fn is_recorded_search<C: CharacterModel>(
    seen: &BestSeen,
    ch: &C,
    catalog: &Catalog,
    max_weight: Fixed,
    hold: Hold,
    n: nat,
    s_pw: Seq<Fixed>,
    s_cfg: C::Config,
    t_pw: Seq<Fixed>,
    t_cfg: C::Config,
) -> bool {
    exists|pws: Seq<Seq<Fixed>>, cfgs: Seq<C::Config>|
        #[trigger] is_search_trace(ch, catalog, max_weight, hold, n, pws, cfgs) && pws[0] == s_pw
            && cfgs[0] == s_cfg && pws[n as int] == t_pw && cfgs[n as int] == t_cfg
            && holds_trace(seen, ch, catalog, max_weight, hold, n, pws, cfgs)
}

/// What a record has taken note of in one round, a record that is no worse has taken note of
/// too.
pub proof fn lemma_round_kept<C: CharacterModel>(
    a: &BestSeen,
    b: &BestSeen,
    ch: &C,
    catalog: &Catalog,
    max_weight: Fixed,
    hold: Hold,
    scale: Fixed,
    pw: Seq<Fixed>,
    cfg: C::Config,
)
    requires
        holds_round(a, ch, catalog, max_weight, hold, scale, pw, cfg),
        b.no_worse_than(a),
    ensures
        holds_round(b, ch, catalog, max_weight, hold, scale, pw, cfg),
{
    lemma_weight_moves_kept(a, b, ch, catalog, max_weight, hold, scale, pw, cfg, pw.len() as int, 0);
    lemma_field_changes_kept(a, b, ch, catalog, hold, pw, cfg, cfg.arity().len() as int, 0);
}

/// Optimizes locally from the state `(pw0, cfg0)`: [`ROUNDS`] rounds, each with a smaller step
/// scale than the one before, each moving to the best of the state and its neighbourhood.
///
/// What the search evaluates is recorded in `seen`.
pub fn optimize_coarse_one_ex<C: CharacterModel>(
    ch: &C,
    catalog: &Catalog,
    max_weight: Fixed,
    pw0: &PrefixWeights,
    cfg0: &C::Config,
    hold: Hold,
    seen: &mut BestSeen,
) -> (r: (PrefixWeights, C::Config))
    requires
        ch.wf(),
        cfg0.wf(),
        pw0@.len() == catalog.prefixes@.len(),
        within_budget(pw0@, max_weight),
        hold_ok(hold, max_weight, pw0@.len() as int),
        old(seen).fits(pw0@.len() as int, cfg0),
    ensures
        (r.0@, r.1) == search_result(ch, catalog, max_weight, hold, ROUNDS as nat, pw0@, *cfg0),
        is_search_outcome(ch, catalog, max_weight, hold, ROUNDS as nat, pw0@, *cfg0, r.0@, r.1),
        is_recorded_search(
            final(seen),
            ch,
            catalog,
            max_weight,
            hold,
            ROUNDS as nat,
            pw0@,
            *cfg0,
            r.0@,
            r.1,
        ),
        coarse_objective(ch, catalog, r.0@, r.1).raw <= coarse_objective(
            ch,
            catalog,
            pw0@,
            *cfg0,
        ).raw,
        coarse_objective(ch, catalog, r.0@, r.1).raw == coarse_objective(
            ch,
            catalog,
            pw0@,
            *cfg0,
        ).raw ==> r.0@ == pw0@ && r.1 == *cfg0,
        within_budget(r.0@, max_weight),
        r.0@.len() == pw0@.len(),
        r.1.wf(),
        r.1.arity() == cfg0.arity(),
        ch.config_valid(cfg0) ==> ch.config_valid(&r.1),
        final(seen).fits(pw0@.len() as int, cfg0),
        final(seen).no_worse_than(old(seen)),
{
    let mut pw = copy_weights(pw0);
    let mut cfg = *cfg0;
    let gear = calc_gear_stats(catalog, &pw);
    let mut m = evaluate_config(ch, &gear, &cfg);
    let mut scale = Fixed::one();
    let ghost mut pws: Seq<Seq<Fixed>> = seq![pw0@];
    let ghost mut cfgs: Seq<C::Config> = seq![*cfg0];
    let mut i: usize = 0;
    while i < ROUNDS
        invariant
            ch.wf(),
            cfg.wf(),
            i <= ROUNDS,
            pw0@.len() == catalog.prefixes@.len(),
            pw@.len() == pw0@.len(),
            within_budget(pw@, max_weight),
            hold_ok(hold, max_weight, pw@.len() as int),
            scale == step_scale(i as nat),
            m == coarse_objective(ch, catalog, pw@, cfg),
            m.raw <= coarse_objective(ch, catalog, pw0@, *cfg0).raw,
            is_search_trace(ch, catalog, max_weight, hold, i as nat, pws, cfgs),
            pws[0] == pw0@,
            cfgs[0] == *cfg0,
            pws[i as int] == pw@,
            cfgs[i as int] == cfg,
            cfg.arity() == cfg0.arity(),
            ch.config_valid(cfg0) ==> ch.config_valid(&cfg),
            m.raw == coarse_objective(ch, catalog, pw0@, *cfg0).raw ==> pw@ == pw0@ && cfg == *cfg0,
            holds_trace(seen, ch, catalog, max_weight, hold, i as nat, pws, cfgs),
            (pw@, cfg) == search_result(ch, catalog, max_weight, hold, i as nat, pw0@, *cfg0),
            seen.fits(pw0@.len() as int, cfg0),
            seen.no_worse_than(old(seen)),
        decreases ROUNDS - i,
    {
        proof {
            lemma_step_scale(i as nat);
            assert(seen.fits(pw@.len() as int, &cfg));
        }
        let ghost before = *seen;
        let ghost from_pw = pw@;
        let ghost from_cfg = cfg;
        let (best_pw, best_cfg, best_m) = search_round(
            ch,
            catalog,
            max_weight,
            &pw,
            &cfg,
            m,
            hold,
            scale,
            seen,
        );
        proof {
            lemma_no_worse_transitive(seen, &before, old(seen));
            let longer_pws = pws.push(best_pw@);
            let longer_cfgs = cfgs.push(best_cfg);
            assert forall|k: int| 0 <= k < i + 1 implies #[trigger] is_round_outcome(
                ch,
                catalog,
                max_weight,
                hold,
                step_scale(k as nat),
                longer_pws[k],
                longer_cfgs[k],
                longer_pws[k + 1],
                longer_cfgs[k + 1],
            ) by {
                if k < i {
                    assert(is_round_outcome(
                        ch,
                        catalog,
                        max_weight,
                        hold,
                        step_scale(k as nat),
                        pws[k],
                        cfgs[k],
                        pws[k + 1],
                        cfgs[k + 1],
                    ));
                }
            }
            assert forall|k: int| 0 <= k < i + 1 implies #[trigger] holds_round(
                seen,
                ch,
                catalog,
                max_weight,
                hold,
                step_scale(k as nat),
                longer_pws[k],
                longer_cfgs[k],
            ) by {
                if k < i {
                    lemma_round_kept(
                        &before,
                        seen,
                        ch,
                        catalog,
                        max_weight,
                        hold,
                        step_scale(k as nat),
                        pws[k],
                        cfgs[k],
                    );
                }
            }
            pws = longer_pws;
            cfgs = longer_cfgs;
        }
        pw = best_pw;
        cfg = best_cfg;
        m = best_m;
        scale = scale.mul(Fixed::from_ratio(85, 100));
        i += 1;
    }
    assert(is_search_trace(ch, catalog, max_weight, hold, ROUNDS as nat, pws, cfgs));
    assert(holds_trace(seen, ch, catalog, max_weight, hold, ROUNDS as nat, pws, cfgs));
    (pw, cfg)
}

/// Optimizes locally from the state `(pw0, cfg0)`, holding nothing.
pub fn optimize_coarse_one<C: CharacterModel>(
    ch: &C,
    catalog: &Catalog,
    max_weight: Fixed,
    pw0: &PrefixWeights,
    cfg0: &C::Config,
) -> (r: (PrefixWeights, C::Config))
    requires
        ch.wf(),
        cfg0.wf(),
        pw0@.len() == catalog.prefixes@.len(),
        within_budget(pw0@, max_weight),
    ensures
        (r.0@, r.1) == search_result(
            ch,
            catalog,
            max_weight,
            Hold::Nothing,
            ROUNDS as nat,
            pw0@,
            *cfg0,
        ),
        is_search_outcome(
            ch,
            catalog,
            max_weight,
            Hold::Nothing,
            ROUNDS as nat,
            pw0@,
            *cfg0,
            r.0@,
            r.1,
        ),
        coarse_objective(ch, catalog, r.0@, r.1).raw <= coarse_objective(
            ch,
            catalog,
            pw0@,
            *cfg0,
        ).raw,
        within_budget(r.0@, max_weight),
        r.0@.len() == pw0@.len(),
        r.1.wf(),
        r.1.arity() == cfg0.arity(),
        ch.config_valid(cfg0) ==> ch.config_valid(&r.1),
{
    let mut seen = BestSeen::new(pw0.len(), cfg0);
    optimize_coarse_one_ex(ch, catalog, max_weight, pw0, cfg0, Hold::Nothing, &mut seen)
}

/// Weights that give nothing to any of `n` prefixes.
pub open spec fn spec_zero_weights(n: usize) -> Seq<Fixed> {
    Seq::new(n as nat, |i: int| Fixed::zero())
}

/// Weights that give nothing to any of `n` prefixes.
pub fn zero_weights(n: usize) -> (r: PrefixWeights)
    ensures
        r@ == spec_zero_weights(n),
{
    let mut r: Vec<Fixed> = Vec::new();
    let mut i: usize = 0;
    while i < n
        invariant
            i <= n,
            r@ == Seq::new(i as nat, |k: int| Fixed::zero()),
        decreases n - i,
    {
        r.push(Fixed::zero());
        i += 1;
        assert(r@ =~= Seq::new(i as nat, |k: int| Fixed::zero()));
    }
    r
}

/// Weights that give nothing add up to nothing.
pub proof fn lemma_zero_weights(n: usize)
    ensures
        nonneg(spec_zero_weights(n)),
        raw_sum(spec_zero_weights(n)) == 0,
        spec_zero_weights(n).len() == n,
    decreases n,
{
    if n > 0 {
        lemma_zero_weights((n - 1) as usize);
        assert(spec_zero_weights(n).drop_last() =~= spec_zero_weights((n - 1) as usize));
    }
}

/// The weights that give two thirds of the budget to the prefix at position `i` and one third
/// to the prefix at position `j`.
pub open spec fn pair_seed(n: usize, max_weight: Fixed, i: int, j: int) -> Seq<Fixed> {
    let first = spec_zero_weights(n).update(
        i,
        max_weight.mul(Fixed::from_int(2)).div(Fixed::from_int(3)),
    );
    first.update(j, first[j].add(max_weight.mul(Fixed::from_int(1)).div(Fixed::from_int(3))))
}

/// The weights that give the whole budget to the prefix at position `i`.
pub open spec fn single_seed(n: usize, max_weight: Fixed, i: int) -> Seq<Fixed> {
    spec_zero_weights(n).update(i, max_weight)
}

/// A seed of two prefixes respects the budget.
pub proof fn lemma_pair_seed(n: usize, max_weight: Fixed, i: int, j: int)
    requires
        0 <= max_weight.raw,
        0 <= i < n,
        0 <= j < n,
    ensures
        within_budget(pair_seed(n, max_weight, i, j), max_weight),
        pair_seed(n, max_weight, i, j).len() == n,
{
    lemma_zero_weights(n);
    let zero = spec_zero_weights(n);
    let a = max_weight.mul(Fixed::from_int(2)).div(Fixed::from_int(3));
    let b = max_weight.mul(Fixed::from_int(1)).div(Fixed::from_int(3));
    let m = max_weight.raw as int;
    assert(Fixed::from_int(2).raw == 2_000_000 && Fixed::from_int(3).raw == 3_000_000
        && Fixed::from_int(1).raw == 1_000_000);
    assert(0 <= a.raw && 3 * a.raw <= 2 * m) by {
        let p = (m * 2_000_000) / 1_000_000;
        assert(p == 2 * m) by (nonlinear_arith)
            requires
                p == (m * 2_000_000) / 1_000_000,
        ;
        let q = sat(p);
        assert(0 <= q <= 2 * m);
        assert(0 <= (q * 1_000_000) / 3_000_000 && 3 * ((q * 1_000_000) / 3_000_000) <= q)
            by (nonlinear_arith)
            requires
                0 <= q,
        ;
    }
    assert(0 <= b.raw && 3 * b.raw <= m) by {
        let p = (m * 1_000_000) / 1_000_000;
        assert(p == m) by (nonlinear_arith)
            requires
                p == (m * 1_000_000) / 1_000_000,
        ;
        assert(0 <= (m * 1_000_000) / 3_000_000 && 3 * ((m * 1_000_000) / 3_000_000) <= m)
            by (nonlinear_arith)
            requires
                0 <= m,
        ;
    }
    let first = zero.update(i, a);
    lemma_raw_sum_update(zero, i, a);
    lemma_raw_sum_update(first, j, first[j].add(b));
}

/// A seed of one prefix respects the budget.
pub proof fn lemma_single_seed(n: usize, max_weight: Fixed, i: int)
    requires
        0 <= max_weight.raw,
        0 <= i < n,
    ensures
        within_budget(single_seed(n, max_weight, i), max_weight),
        single_seed(n, max_weight, i).len() == n,
{
    lemma_zero_weights(n);
    lemma_raw_sum_update(spec_zero_weights(n), i, max_weight);
}

/// A local search from the state `(s_pw, s_cfg)` with the hold `hold` has an outcome whose
/// objective is no better than `m`.
pub open spec fn beats_held_search_from<C: CharacterModel>(
    ch: &C,
    catalog: &Catalog,
    max_weight: Fixed,
    hold: Hold,
    m: Fixed,
    s_pw: Seq<Fixed>,
    s_cfg: C::Config,
) -> bool {
    exists|t_pw: Seq<Fixed>, t_cfg: C::Config|
        #[trigger] is_search_outcome(
            ch,
            catalog,
            max_weight,
            hold,
            ROUNDS as nat,
            s_pw,
            s_cfg,
            t_pw,
            t_cfg,
        ) && m.raw <= coarse_objective(ch, catalog, t_pw, t_cfg).raw
}

/// A local search from the state `(s_pw, s_cfg)` has an outcome whose objective is no better
/// than `m`.
pub open spec fn beats_search_from<C: CharacterModel>(
    ch: &C,
    catalog: &Catalog,
    max_weight: Fixed,
    m: Fixed,
    s_pw: Seq<Fixed>,
    s_cfg: C::Config,
) -> bool {
    beats_held_search_from(ch, catalog, max_weight, Hold::Nothing, m, s_pw, s_cfg)
}

/// What beats a search with a hold is beaten by anything better.
pub proof fn lemma_beats_held_better<C: CharacterModel>(
    ch: &C,
    catalog: &Catalog,
    max_weight: Fixed,
    hold: Hold,
    m: Fixed,
    better: Fixed,
    s_pw: Seq<Fixed>,
    s_cfg: C::Config,
)
    requires
        beats_held_search_from(ch, catalog, max_weight, hold, m, s_pw, s_cfg),
        better.raw <= m.raw,
    ensures
        beats_held_search_from(ch, catalog, max_weight, hold, better, s_pw, s_cfg),
{
    let (t_pw, t_cfg) = choose|t_pw: Seq<Fixed>, t_cfg: C::Config|
        #[trigger] is_search_outcome(
            ch,
            catalog,
            max_weight,
            hold,
            ROUNDS as nat,
            s_pw,
            s_cfg,
            t_pw,
            t_cfg,
        ) && m.raw <= coarse_objective(ch, catalog, t_pw, t_cfg).raw;
    assert(is_search_outcome(
        ch,
        catalog,
        max_weight,
        hold,
        ROUNDS as nat,
        s_pw,
        s_cfg,
        t_pw,
        t_cfg,
    ));
}

/// What beats a search is beaten by anything better.
pub proof fn lemma_beats_better<C: CharacterModel>(
    ch: &C,
    catalog: &Catalog,
    max_weight: Fixed,
    m: Fixed,
    better: Fixed,
    s_pw: Seq<Fixed>,
    s_cfg: C::Config,
)
    requires
        beats_search_from(ch, catalog, max_weight, m, s_pw, s_cfg),
        better.raw <= m.raw,
    ensures
        beats_search_from(ch, catalog, max_weight, better, s_pw, s_cfg),
{
    lemma_beats_held_better(ch, catalog, max_weight, Hold::Nothing, m, better, s_pw, s_cfg);
}

/// What a strategy keeps of the best state so far, `best` with its objective, and a state
/// newly found: the new state with its objective where that is strictly better, and else the
/// best so far.
pub open spec fn kept<C: CharacterModel>(
    ch: &C,
    catalog: &Catalog,
    best: (Seq<Fixed>, C::Config, Fixed),
    found: (Seq<Fixed>, C::Config),
) -> (Seq<Fixed>, C::Config, Fixed) {
    let m = coarse_objective(ch, catalog, found.0, found.1);
    if m.raw < best.2.raw {
        (found.0, found.1, m)
    } else {
        best
    }
}

/// The best state found by a number of local searches, with its objective.
pub struct Best<V> {
    pub pw: PrefixWeights,
    pub cfg: V,
    pub m: Fixed,
}

impl<V> Best<V> {
    /// The state and its objective.
    pub open spec fn state(&self) -> (Seq<Fixed>, V, Fixed) {
        (self.pw@, self.cfg, self.m)
    }
}

/// Runs a local search from the state `(pw0, cfg0)` and keeps its outcome where it improves
/// on the best.
pub fn try_seed<C: CharacterModel>(
    ch: &C,
    catalog: &Catalog,
    max_weight: Fixed,
    best: &mut Best<C::Config>,
    pw0: &PrefixWeights,
    cfg0: &C::Config,
)
    requires
        ch.wf(),
        cfg0.wf(),
        ch.config_valid(cfg0),
        pw0@.len() == catalog.prefixes@.len(),
        within_budget(pw0@, max_weight),
        old(best).cfg.wf(),
        old(best).cfg.arity() == cfg0.arity(),
        ch.config_valid(&old(best).cfg),
        within_budget(old(best).pw@, max_weight),
        old(best).pw@.len() == pw0@.len(),
    ensures
        final(best).state() == kept(
            ch,
            catalog,
            old(best).state(),
            search_result(ch, catalog, max_weight, Hold::Nothing, ROUNDS as nat, pw0@, *cfg0),
        ),
        final(best).m.raw <= old(best).m.raw,
        beats_search_from(ch, catalog, max_weight, final(best).m, pw0@, *cfg0),
        final(best).cfg.wf(),
        final(best).cfg.arity() == cfg0.arity(),
        ch.config_valid(&final(best).cfg),
        within_budget(final(best).pw@, max_weight),
        final(best).pw@.len() == pw0@.len(),
        *final(best) == *old(best) || {
            &&& final(best).m.raw < old(best).m.raw
            &&& final(best).m == coarse_objective(ch, catalog, final(best).pw@, final(best).cfg)
            &&& is_search_outcome(
                ch,
                catalog,
                max_weight,
                Hold::Nothing,
                ROUNDS as nat,
                pw0@,
                *cfg0,
                final(best).pw@,
                final(best).cfg,
            )
        },
{
    let (pw, cfg) = optimize_coarse_one(ch, catalog, max_weight, pw0, cfg0);
    let gear = calc_gear_stats(catalog, &pw);
    let m = evaluate_config(ch, &gear, &cfg);
    if m.lt(best.m) {
        best.pw = pw;
        best.cfg = cfg;
        best.m = m;
    }
}

/// The state `(pw, cfg)` is an outcome of the coarse stage with the seeds `seeds`.
///
/// Either it is the outcome of a local search from one of the seeds, and better than the
/// starting objective, or no search improved on the starting objective and it is the state
/// without any weight and with the configuration `cfg0`.  From every seed, a local search has
/// an outcome that is no better.
pub open spec fn is_coarse_outcome<C: CharacterModel>(
    ch: &C,
    catalog: &Catalog,
    max_weight: Fixed,
    cfg0: C::Config,
    seeds: Set<(Seq<Fixed>, C::Config)>,
    pw: Seq<Fixed>,
    cfg: C::Config,
) -> bool {
    let found = coarse_objective(ch, catalog, pw, cfg);
    ||| {
        &&& found.raw < worst_objective().raw
        &&& exists|seed: (Seq<Fixed>, C::Config)|
            seeds.contains(seed) && #[trigger] is_search_outcome(
                ch,
                catalog,
                max_weight,
                Hold::Nothing,
                ROUNDS as nat,
                seed.0,
                seed.1,
                pw,
                cfg,
            )
        &&& forall|seed: (Seq<Fixed>, C::Config)|
            seeds.contains(seed) ==> #[trigger] beats_search_from(
                ch,
                catalog,
                max_weight,
                found,
                seed.0,
                seed.1,
            )
    }
    ||| {
        &&& pw == spec_zero_weights(catalog.prefixes@.len() as usize)
        &&& cfg == cfg0
        &&& forall|seed: (Seq<Fixed>, C::Config)|
            seeds.contains(seed) ==> #[trigger] beats_search_from(
                ch,
                catalog,
                max_weight,
                worst_objective(),
                seed.0,
                seed.1,
            )
    }
}

/// The seeds of [`optimize_coarse`]: for each pair of prefixes, two thirds of the budget to
/// the one and one third to the other, with the configuration `cfg0`.
pub open spec fn pair_seeds<V>(n: usize, max_weight: Fixed, cfg0: V) -> Set<(Seq<Fixed>, V)> {
    Set::new(
        |seed: (Seq<Fixed>, V)|
            exists|i: int, j: int|
                0 <= i < n && 0 <= j < n && seed == (#[trigger] pair_seed(n, max_weight, i, j), cfg0),
    )
}

/// `best` may be the best of the local searches that started from some of the seeds `seeds`
/// and from the configuration `cfg0`: a state within the budget with a valid configuration,
/// which is either the state without any weight, with the starting objective, or the outcome
/// of a search from one of the seeds, with its objective, which is better than the starting
/// one.
pub open spec fn came_from<C: CharacterModel>(
    ch: &C,
    catalog: &Catalog,
    max_weight: Fixed,
    cfg0: C::Config,
    seeds: Set<(Seq<Fixed>, C::Config)>,
    best: &Best<C::Config>,
) -> bool {
    let n = catalog.prefixes@.len() as usize;
    &&& best.cfg.wf()
    &&& best.cfg.arity() == cfg0.arity()
    &&& ch.config_valid(&best.cfg)
    &&& within_budget(best.pw@, max_weight)
    &&& best.pw@.len() == n
    &&& {
        ||| best.m == worst_objective() && best.pw@ == spec_zero_weights(n) && best.cfg == cfg0
        ||| {
            &&& best.m.raw < worst_objective().raw
            &&& best.m == coarse_objective(ch, catalog, best.pw@, best.cfg)
            &&& exists|seed: (Seq<Fixed>, C::Config)|
                seeds.contains(seed) && #[trigger] is_search_outcome(
                    ch,
                    catalog,
                    max_weight,
                    Hold::Nothing,
                    ROUNDS as nat,
                    seed.0,
                    seed.1,
                    best.pw@,
                    best.cfg,
                )
        }
    }
}

/// A best state keeps its origin when a search from one more of the seeds has been tried.
pub proof fn lemma_came_from_next<C: CharacterModel>(
    ch: &C,
    catalog: &Catalog,
    max_weight: Fixed,
    cfg0: C::Config,
    seeds: Set<(Seq<Fixed>, C::Config)>,
    seed: (Seq<Fixed>, C::Config),
    before: &Best<C::Config>,
    after: &Best<C::Config>,
)
    requires
        came_from(ch, catalog, max_weight, cfg0, seeds, before),
        seeds.contains(seed),
        after.cfg.wf(),
        after.cfg.arity() == cfg0.arity(),
        ch.config_valid(&after.cfg),
        within_budget(after.pw@, max_weight),
        after.pw@.len() == before.pw@.len(),
        *after == *before || {
            &&& after.m.raw < before.m.raw
            &&& after.m == coarse_objective(ch, catalog, after.pw@, after.cfg)
            &&& is_search_outcome(
                ch,
                catalog,
                max_weight,
                Hold::Nothing,
                ROUNDS as nat,
                seed.0,
                seed.1,
                after.pw@,
                after.cfg,
            )
        },
    ensures
        came_from(ch, catalog, max_weight, cfg0, seeds, after),
{
}

/// The objective `m` beats the searches from the seeds of the pairs of prefixes in the rows
/// before `rows`, and in the row `rows` from those before `cols`.
pub open spec fn beats_pairs<C: CharacterModel>(
    ch: &C,
    catalog: &Catalog,
    max_weight: Fixed,
    cfg0: C::Config,
    m: Fixed,
    rows: int,
    cols: int,
) -> bool {
    let n = catalog.prefixes@.len() as usize;
    forall|i: int, j: int|
        0 <= i < n && 0 <= j < n && (i < rows || (i == rows && j < cols)) ==> beats_search_from(
            ch,
            catalog,
            max_weight,
            m,
            #[trigger] pair_seed(n, max_weight, i, j),
            cfg0,
        )
}

/// What beats the searches from pairs of prefixes keeps beating them as the best improves.
pub proof fn lemma_pairs_kept<C: CharacterModel>(
    ch: &C,
    catalog: &Catalog,
    max_weight: Fixed,
    cfg0: C::Config,
    m: Fixed,
    better: Fixed,
    rows: int,
    cols: int,
)
    requires
        better.raw <= m.raw,
        beats_pairs(ch, catalog, max_weight, cfg0, m, rows, cols),
    ensures
        beats_pairs(ch, catalog, max_weight, cfg0, better, rows, cols),
{
    let n = catalog.prefixes@.len() as usize;
    assert forall|i: int, j: int|
        0 <= i < n && 0 <= j < n && (i < rows || (i == rows && j < cols)) implies beats_search_from(
        ch,
        catalog,
        max_weight,
        better,
        #[trigger] pair_seed(n, max_weight, i, j),
        cfg0,
    ) by {
        lemma_beats_better(ch, catalog, max_weight, m, better, pair_seed(n, max_weight, i, j), cfg0);
    }
}

/// The best state after the searches from the seeds of the first `t` pairs of prefixes, row
/// by row: at first the state without any weight, with the starting objective.
pub open spec fn pairs_upto<C: CharacterModel>(
    ch: &C,
    catalog: &Catalog,
    max_weight: Fixed,
    cfg0: C::Config,
    t: int,
) -> (Seq<Fixed>, C::Config, Fixed)
    decreases t,
{
    let n = catalog.prefixes@.len() as usize;
    if t <= 0 || n == 0 {
        (spec_zero_weights(n), cfg0, worst_objective())
    } else {
        kept(
            ch,
            catalog,
            pairs_upto(ch, catalog, max_weight, cfg0, t - 1),
            search_result(
                ch,
                catalog,
                max_weight,
                Hold::Nothing,
                ROUNDS as nat,
                pair_seed(n, max_weight, (t - 1) / (n as int), (t - 1) % (n as int)),
                cfg0,
            ),
        )
    }
}

/// What [`optimize_coarse`] returns for the budget `max_weight` and the configuration `cfg0`:
/// the first strictly best outcome of the searches from the seeds of all pairs of prefixes,
/// with its objective; or the state without any weight where no search improves on the
/// starting objective.
pub open spec fn pair_outcome<C: CharacterModel>(
    ch: &C,
    catalog: &Catalog,
    max_weight: Fixed,
    cfg0: C::Config,
) -> (Seq<Fixed>, C::Config, Fixed) {
    let n = catalog.prefixes@.len() as int;
    pairs_upto(ch, catalog, max_weight, cfg0, n * n)
}

/// Finds weights and a configuration for `ch` with the pieces `slots`: the best outcome of
/// the local searches from the seeds of all pairs of prefixes, starting with the configuration
/// `cfg0`.
pub fn optimize_coarse<C: CharacterModel>(
    ch: &C,
    catalog: &Catalog,
    slots: &[(GearSlot, Quality)],
    cfg0: &C::Config,
) -> (r: (PrefixWeights, C::Config))
    requires
        ch.wf(),
        cfg0.wf(),
        catalog.wf(),
        ch.config_valid(cfg0),
        spec_calc_max_weight(catalog, slots@).raw >= 0,
    ensures
        ({
            let found = pair_outcome(ch, catalog, spec_calc_max_weight(catalog, slots@), *cfg0);
            r.0@ == found.0 && r.1 == found.1
        }),
        is_coarse_outcome(
            ch,
            catalog,
            spec_calc_max_weight(catalog, slots@),
            *cfg0,
            pair_seeds(
                catalog.prefixes@.len() as usize,
                spec_calc_max_weight(catalog, slots@),
                *cfg0,
            ),
            r.0@,
            r.1,
        ),
        within_budget(r.0@, spec_calc_max_weight(catalog, slots@)),
        r.0@.len() == catalog.prefixes@.len(),
        r.1.wf(),
        r.1.arity() == cfg0.arity(),
        ch.config_valid(&r.1),
{
    // The weight to be distributed across all prefixes corresponds to the total attributes
    // that the gear provides.
    let max_weight = calc_max_weight(catalog, slots);
    let n = catalog.prefixes.len();
    let ghost seeds = pair_seeds(n, max_weight, *cfg0);
    let two_thirds = max_weight.mul(Fixed::from_int(2)).div(Fixed::from_int(3));
    let one_third = max_weight.mul(Fixed::from_int(1)).div(Fixed::from_int(3));
    proof {
        lemma_zero_weights(n);
    }
    let mut best = Best { pw: zero_weights(n), cfg: *cfg0, m: worst_objective() };
    let mut i: usize = 0;
    while i < n
        invariant
            ch.wf(),
            cfg0.wf(),
            ch.config_valid(cfg0),
            n == catalog.prefixes@.len(),
            i <= n,
            0 <= max_weight.raw,
            two_thirds == max_weight.mul(Fixed::from_int(2)).div(Fixed::from_int(3)),
            one_third == max_weight.mul(Fixed::from_int(1)).div(Fixed::from_int(3)),
            seeds == pair_seeds(n, max_weight, *cfg0),
            came_from(ch, catalog, max_weight, *cfg0, seeds, &best),
            beats_pairs(ch, catalog, max_weight, *cfg0, best.m, i as int, 0),
            best.state() == pairs_upto(ch, catalog, max_weight, *cfg0, i * n),
        decreases n - i,
    {
        let mut j: usize = 0;
        while j < n
            invariant
                ch.wf(),
                cfg0.wf(),
                ch.config_valid(cfg0),
                n == catalog.prefixes@.len(),
                i < n,
                j <= n,
                0 <= max_weight.raw,
                two_thirds == max_weight.mul(Fixed::from_int(2)).div(Fixed::from_int(3)),
                one_third == max_weight.mul(Fixed::from_int(1)).div(Fixed::from_int(3)),
                seeds == pair_seeds(n, max_weight, *cfg0),
                came_from(ch, catalog, max_weight, *cfg0, seeds, &best),
                beats_pairs(ch, catalog, max_weight, *cfg0, best.m, i as int, j as int),
                best.state() == pairs_upto(ch, catalog, max_weight, *cfg0, i * n + j),
            decreases n - j,
        {
            let mut pw0 = zero_weights(n);
            pw0[i] = pw0[i].add(two_thirds);
            let w = pw0[j];
            pw0[j] = w.add(one_third);
            proof {
                assert(pw0@ =~= pair_seed(n, max_weight, i as int, j as int));
                lemma_pair_seed(n, max_weight, i as int, j as int);
            }
            let ghost before = best;
            try_seed(ch, catalog, max_weight, &mut best, &pw0, cfg0);
            proof {
                let t = i * n + j + 1;
                vstd::arithmetic::div_mod::lemma_fundamental_div_mod_converse(
                    t - 1,
                    n as int,
                    i as int,
                    j as int,
                );
                assert(best.state() == pairs_upto(ch, catalog, max_weight, *cfg0, t));
                let seed = (pair_seed(n, max_weight, i as int, j as int), *cfg0);
                lemma_came_from_next(ch, catalog, max_weight, *cfg0, seeds, seed, &before, &best);
                lemma_pairs_kept(
                    ch,
                    catalog,
                    max_weight,
                    *cfg0,
                    before.m,
                    best.m,
                    i as int,
                    j as int,
                );
            }
            j += 1;
        }
        proof {
            assert(i * n + j == (i + 1) * n) by (nonlinear_arith)
                requires
                    j == n,
            ;
        }
        i += 1;
    }
    proof {
        assert forall|seed: (Seq<Fixed>, C::Config)| seeds.contains(seed) implies #[trigger] beats_search_from(
            ch,
            catalog,
            max_weight,
            best.m,
            seed.0,
            seed.1,
        ) by {
            let (a, b) = choose|a: int, b: int|
                0 <= a < n && 0 <= b < n && seed == (#[trigger] pair_seed(n, max_weight, a, b), *cfg0);
            assert(beats_search_from(
                ch,
                catalog,
                max_weight,
                best.m,
                pair_seed(n, max_weight, a, b),
                *cfg0,
            ));
        }
    }
    (best.pw, best.cfg)
}

/// The seeds of [`optimize_coarse_scan`]: for each prefix, the whole budget to it, with the
/// configuration `cfg0`; and for each valid configuration that differs from `cfg0` in one
/// field, no weight at all.
pub open spec fn scan_seeds<C: CharacterModel>(
    ch: &C,
    n: usize,
    max_weight: Fixed,
    cfg0: C::Config,
) -> Set<(Seq<Fixed>, C::Config)> {
    Set::new(
        |seed: (Seq<Fixed>, C::Config)|
            {
                ||| exists|i: int| 0 <= i < n && seed == (#[trigger] single_seed(n, max_weight, i), cfg0)
                ||| exists|field: int, value: u16|
                    may_set(cfg0, Hold::Nothing, field, value) && ch.config_valid(&seed.1) && seed == (
                        spec_zero_weights(n),
                        #[trigger] cfg0.with_field(field, value),
                    )
            },
    )
}

/// The hold under which a strategy searches from the seed of the prefix `i`: the weight `held`
/// on the prefix, where there is one.
pub open spec fn prefix_seed_hold(held: Option<Fixed>, i: int) -> Hold {
    match held {
        Some(w) => Hold::Prefix(i as usize, w),
        None => Hold::Nothing,
    }
}

/// The hold under which a strategy searches from the seed of the field `field`: the field,
/// where the strategy holds at all.
pub open spec fn field_seed_hold(held: Option<Fixed>, field: int) -> Hold {
    match held {
        Some(_) => Hold::Field(field as usize),
        None => Hold::Nothing,
    }
}

/// The objective `m` beats the searches from the seeds of the first `prefixes` prefixes and
/// of the first `fields` fields.
///
/// The seed of a prefix is the whole budget on the prefix, with the configuration `cfg0`.  The
/// seeds of a field are no weight, with `cfg0` changed in that field to another valid
/// configuration.  From each of them a local search, with the hold that `held` gives, has an
/// outcome that is no better than `m`.
pub open spec fn beats_scan<C: CharacterModel>(
    ch: &C,
    catalog: &Catalog,
    max_weight: Fixed,
    cfg0: C::Config,
    held: Option<Fixed>,
    m: Fixed,
    prefixes: int,
    fields: int,
) -> bool {
    let n = catalog.prefixes@.len() as usize;
    &&& forall|i: int|
        0 <= i < prefixes ==> beats_held_search_from(
            ch,
            catalog,
            max_weight,
            prefix_seed_hold(held, i),
            m,
            #[trigger] single_seed(n, max_weight, i),
            cfg0,
        )
    &&& forall|field: int, value: u16|
        0 <= field < fields && may_set(cfg0, Hold::Nothing, field, value) && ch.config_valid(
            &#[trigger] cfg0.with_field(field, value),
        ) ==> beats_held_search_from(
            ch,
            catalog,
            max_weight,
            field_seed_hold(held, field),
            m,
            spec_zero_weights(n),
            cfg0.with_field(field, value),
        )
}

/// The objective `m` beats the searches from the seeds of the values before `values` of the
/// field `field`.
pub open spec fn beats_scan_values<C: CharacterModel>(
    ch: &C,
    catalog: &Catalog,
    max_weight: Fixed,
    cfg0: C::Config,
    held: Option<Fixed>,
    m: Fixed,
    field: usize,
    values: int,
) -> bool {
    forall|value: u16|
        value < values && ch.config_valid(&#[trigger] cfg0.with_field(field as int, value))
            ==> beats_held_search_from(
            ch,
            catalog,
            max_weight,
            field_seed_hold(held, field as int),
            m,
            spec_zero_weights(catalog.prefixes@.len() as usize),
            cfg0.with_field(field as int, value),
        )
}

/// What beats the searches from the seeds of prefixes and fields keeps beating them as the
/// best improves.
pub proof fn lemma_scan_kept<C: CharacterModel>(
    ch: &C,
    catalog: &Catalog,
    max_weight: Fixed,
    cfg0: C::Config,
    held: Option<Fixed>,
    m: Fixed,
    better: Fixed,
    prefixes: int,
    fields: int,
)
    requires
        better.raw <= m.raw,
        beats_scan(ch, catalog, max_weight, cfg0, held, m, prefixes, fields),
    ensures
        beats_scan(ch, catalog, max_weight, cfg0, held, better, prefixes, fields),
{
    let n = catalog.prefixes@.len() as usize;
    assert forall|i: int| 0 <= i < prefixes implies beats_held_search_from(
        ch,
        catalog,
        max_weight,
        prefix_seed_hold(held, i),
        better,
        #[trigger] single_seed(n, max_weight, i),
        cfg0,
    ) by {
        lemma_beats_held_better(
            ch,
            catalog,
            max_weight,
            prefix_seed_hold(held, i),
            m,
            better,
            single_seed(n, max_weight, i),
            cfg0,
        );
    }
    assert forall|field: int, value: u16|
        0 <= field < fields && may_set(cfg0, Hold::Nothing, field, value) && ch.config_valid(
            &#[trigger] cfg0.with_field(field, value),
        ) implies beats_held_search_from(
        ch,
        catalog,
        max_weight,
        field_seed_hold(held, field),
        better,
        spec_zero_weights(n),
        cfg0.with_field(field, value),
    ) by {
        lemma_beats_held_better(
            ch,
            catalog,
            max_weight,
            field_seed_hold(held, field),
            m,
            better,
            spec_zero_weights(n),
            cfg0.with_field(field, value),
        );
    }
}

/// What beats the searches from the seeds of the values of a field keeps beating them as the
/// best improves.
pub proof fn lemma_scan_values_kept<C: CharacterModel>(
    ch: &C,
    catalog: &Catalog,
    max_weight: Fixed,
    cfg0: C::Config,
    held: Option<Fixed>,
    m: Fixed,
    better: Fixed,
    field: usize,
    values: int,
)
    requires
        better.raw <= m.raw,
        beats_scan_values(ch, catalog, max_weight, cfg0, held, m, field, values),
    ensures
        beats_scan_values(ch, catalog, max_weight, cfg0, held, better, field, values),
{
    assert forall|value: u16|
        value < values && ch.config_valid(
            &#[trigger] cfg0.with_field(field as int, value),
        ) implies beats_held_search_from(
        ch,
        catalog,
        max_weight,
        field_seed_hold(held, field as int),
        better,
        spec_zero_weights(catalog.prefixes@.len() as usize),
        cfg0.with_field(field as int, value),
    ) by {
        lemma_beats_held_better(
            ch,
            catalog,
            max_weight,
            field_seed_hold(held, field as int),
            m,
            better,
            spec_zero_weights(catalog.prefixes@.len() as usize),
            cfg0.with_field(field as int, value),
        );
    }
}

/// The best state of the scan after the searches from the seeds of the first `i` prefixes:
/// at first the state without any weight, with the starting objective.
pub open spec fn scan_prefixes<C: CharacterModel>(
    ch: &C,
    catalog: &Catalog,
    max_weight: Fixed,
    cfg0: C::Config,
    i: int,
) -> (Seq<Fixed>, C::Config, Fixed)
    decreases i,
{
    let n = catalog.prefixes@.len() as usize;
    if i <= 0 {
        (spec_zero_weights(n), cfg0, worst_objective())
    } else {
        kept(
            ch,
            catalog,
            scan_prefixes(ch, catalog, max_weight, cfg0, i - 1),
            search_result(
                ch,
                catalog,
                max_weight,
                Hold::Nothing,
                ROUNDS as nat,
                single_seed(n, max_weight, i - 1),
                cfg0,
            ),
        )
    }
}

/// The best state of the scan after `best` and the searches from the seeds of the first `v`
/// values of the field `field`: those that give a valid configuration.
pub open spec fn scan_values<C: CharacterModel>(
    ch: &C,
    catalog: &Catalog,
    max_weight: Fixed,
    cfg0: C::Config,
    best: (Seq<Fixed>, C::Config, Fixed),
    field: int,
    v: int,
) -> (Seq<Fixed>, C::Config, Fixed)
    decreases v,
{
    if v <= 0 {
        best
    } else {
        let before = scan_values(ch, catalog, max_weight, cfg0, best, field, v - 1);
        let seed_cfg = cfg0.with_field(field, (v - 1) as u16);
        if ch.config_valid(&seed_cfg) {
            kept(
                ch,
                catalog,
                before,
                search_result(
                    ch,
                    catalog,
                    max_weight,
                    Hold::Nothing,
                    ROUNDS as nat,
                    spec_zero_weights(catalog.prefixes@.len() as usize),
                    seed_cfg,
                ),
            )
        } else {
            before
        }
    }
}

/// The best state of the scan after the searches from the seeds of all prefixes and of the
/// first `f` fields.
pub open spec fn scan_fields<C: CharacterModel>(
    ch: &C,
    catalog: &Catalog,
    max_weight: Fixed,
    cfg0: C::Config,
    f: int,
) -> (Seq<Fixed>, C::Config, Fixed)
    decreases f,
{
    if f <= 0 {
        scan_prefixes(ch, catalog, max_weight, cfg0, catalog.prefixes@.len() as int)
    } else {
        scan_values(
            ch,
            catalog,
            max_weight,
            cfg0,
            scan_fields(ch, catalog, max_weight, cfg0, f - 1),
            f - 1,
            cfg0.arity()[f - 1] as int,
        )
    }
}

/// What [`optimize_coarse_scan`] returns for the budget `max_weight` and the configuration
/// `cfg0`: the first strictly best outcome of the searches from its seeds, prefix by prefix
/// and then field by field and value by value, with its objective; or the state without any
/// weight where no search improves on the starting objective.
pub open spec fn scan_outcome<C: CharacterModel>(
    ch: &C,
    catalog: &Catalog,
    max_weight: Fixed,
    cfg0: C::Config,
) -> (Seq<Fixed>, C::Config, Fixed) {
    scan_fields(ch, catalog, max_weight, cfg0, cfg0.arity().len() as int)
}

/// Optimizes locally from one seed for each prefix and one for each value of each field of the
/// configuration, and returns the best outcome.
#[verifier::rlimit(50)]
pub fn optimize_coarse_scan<C: CharacterModel>(
    ch: &C,
    catalog: &Catalog,
    slots: &[(GearSlot, Quality)],
    cfg0: &C::Config,
) -> (r: (PrefixWeights, C::Config))
    requires
        ch.wf(),
        cfg0.wf(),
        catalog.wf(),
        ch.config_valid(cfg0),
        spec_calc_max_weight(catalog, slots@).raw >= 0,
    ensures
        ({
            let found = scan_outcome(ch, catalog, spec_calc_max_weight(catalog, slots@), *cfg0);
            r.0@ == found.0 && r.1 == found.1
        }),
        is_coarse_outcome(
            ch,
            catalog,
            spec_calc_max_weight(catalog, slots@),
            *cfg0,
            scan_seeds(
                ch,
                catalog.prefixes@.len() as usize,
                spec_calc_max_weight(catalog, slots@),
                *cfg0,
            ),
            r.0@,
            r.1,
        ),
        within_budget(r.0@, spec_calc_max_weight(catalog, slots@)),
        r.0@.len() == catalog.prefixes@.len(),
        r.1.wf(),
        r.1.arity() == cfg0.arity(),
        ch.config_valid(&r.1),
{
    let max_weight = calc_max_weight(catalog, slots);
    let n = catalog.prefixes.len();
    let ghost seeds = scan_seeds(ch, n, max_weight, *cfg0);
    proof {
        lemma_zero_weights(n);
    }
    let mut best = Best { pw: zero_weights(n), cfg: *cfg0, m: worst_objective() };
    let mut pi: usize = 0;
    while pi < n
        invariant
            ch.wf(),
            cfg0.wf(),
            ch.config_valid(cfg0),
            n == catalog.prefixes@.len(),
            pi <= n,
            0 <= max_weight.raw,
            seeds == scan_seeds(ch, n, max_weight, *cfg0),
            came_from(ch, catalog, max_weight, *cfg0, seeds, &best),
            beats_scan(ch, catalog, max_weight, *cfg0, None, best.m, pi as int, 0),
            best.state() == scan_prefixes(ch, catalog, max_weight, *cfg0, pi as int),
        decreases n - pi,
    {
        let mut pw0 = zero_weights(n);
        pw0[pi] = max_weight;
        proof {
            assert(pw0@ =~= single_seed(n, max_weight, pi as int));
            lemma_single_seed(n, max_weight, pi as int);
        }
        let ghost before = best;
        try_seed(ch, catalog, max_weight, &mut best, &pw0, cfg0);
        proof {
            assert(best.state() == scan_prefixes(ch, catalog, max_weight, *cfg0, pi + 1));
            let seed = (single_seed(n, max_weight, pi as int), *cfg0);
            assert(seeds.contains(seed));
            lemma_came_from_next(ch, catalog, max_weight, *cfg0, seeds, seed, &before, &best);
            lemma_scan_kept(ch, catalog, max_weight, *cfg0, None, before.m, best.m, pi as int, 0);
        }
        pi += 1;
    }
    let num_fields = cfg0.num_fields();
    let mut field: usize = 0;
    while field < num_fields
        invariant
            ch.wf(),
            cfg0.wf(),
            ch.config_valid(cfg0),
            n == catalog.prefixes@.len(),
            num_fields == cfg0.arity().len(),
            field <= num_fields,
            0 <= max_weight.raw,
            seeds == scan_seeds(ch, n, max_weight, *cfg0),
            came_from(ch, catalog, max_weight, *cfg0, seeds, &best),
            beats_scan(ch, catalog, max_weight, *cfg0, None, best.m, n as int, field as int),
            best.state() == scan_fields(ch, catalog, max_weight, *cfg0, field as int),
        decreases num_fields - field,
    {
        let count = cfg0.num_field_values(field);
        let mut value: u16 = 0;
        while value < count
            invariant
                ch.wf(),
                cfg0.wf(),
                ch.config_valid(cfg0),
                n == catalog.prefixes@.len(),
                num_fields == cfg0.arity().len(),
                field < num_fields,
                count == cfg0.arity()[field as int],
                value <= count,
                0 <= max_weight.raw,
                seeds == scan_seeds(ch, n, max_weight, *cfg0),
                came_from(ch, catalog, max_weight, *cfg0, seeds, &best),
                beats_scan(ch, catalog, max_weight, *cfg0, None, best.m, n as int, field as int),
                beats_scan_values(ch, catalog, max_weight, *cfg0, None, best.m, field, value as int),
                best.state() == scan_values(
                    ch,
                    catalog,
                    max_weight,
                    *cfg0,
                    scan_fields(ch, catalog, max_weight, *cfg0, field as int),
                    field as int,
                    value as int,
                ),
            decreases count - value,
        {
            let pw0 = zero_weights(n);
            proof {
                lemma_zero_weights(n);
            }
            let mut new_cfg0 = *cfg0;
            new_cfg0.set_field(field, value);
            let ghost before = best;
            let valid = ch.is_config_valid(&new_cfg0);
            if valid {
                try_seed(ch, catalog, max_weight, &mut best, &pw0, &new_cfg0);
                proof {
                    let seed = (spec_zero_weights(n), new_cfg0);
                    assert(may_set(*cfg0, Hold::Nothing, field as int, value));
                    assert(new_cfg0 == cfg0.with_field(field as int, value));
                    assert(seeds.contains(seed));
                    lemma_came_from_next(ch, catalog, max_weight, *cfg0, seeds, seed, &before, &best);
                }
            }
            proof {
                assert(new_cfg0 == cfg0.with_field(field as int, value));
                lemma_scan_kept(
                    ch,
                    catalog,
                    max_weight,
                    *cfg0,
                    None,
                    before.m,
                    best.m,
                    n as int,
                    field as int,
                );
                lemma_scan_values_kept(
                    ch,
                    catalog,
                    max_weight,
                    *cfg0,
                    None,
                    before.m,
                    best.m,
                    field,
                    value as int,
                );
            }
            value += 1;
        }
        field += 1;
    }
    proof {
        assert forall|seed: (Seq<Fixed>, C::Config)| seeds.contains(seed) implies #[trigger] beats_search_from(
            ch,
            catalog,
            max_weight,
            best.m,
            seed.0,
            seed.1,
        ) by {
            if exists|i: int| 0 <= i < n && seed == (#[trigger] single_seed(n, max_weight, i), *cfg0) {
                let i = choose|i: int|
                    0 <= i < n && seed == (#[trigger] single_seed(n, max_weight, i), *cfg0);
                assert(beats_held_search_from(
                    ch,
                    catalog,
                    max_weight,
                    prefix_seed_hold(None, i),
                    best.m,
                    single_seed(n, max_weight, i),
                    *cfg0,
                ));
            } else {
                let (f, v) = choose|f: int, v: u16|
                    may_set(*cfg0, Hold::Nothing, f, v) && ch.config_valid(&seed.1) && seed == (
                        spec_zero_weights(n),
                        #[trigger] cfg0.with_field(f, v),
                    );
                assert(ch.config_valid(&cfg0.with_field(f, v)));
                assert(beats_held_search_from(
                    ch,
                    catalog,
                    max_weight,
                    field_seed_hold(None, f),
                    best.m,
                    spec_zero_weights(n),
                    cfg0.with_field(f, v),
                ));
            }
        }
    }
    (best.pw, best.cfg)
}

} // verus!
