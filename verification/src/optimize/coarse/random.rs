//! Random draws for the restart strategies, and the moves that the draws select.

use crate::fixed::{Fixed, SCALE};
use crate::optimize::coarse::{
    increase_prefix_weight, increased, lemma_fraction_of, lemma_increased_within_budget,
    within_budget, PrefixWeights,
};
use crate::vary::Vary;
use rand::rngs::StdRng;
use rand::{Rng, SeedableRng};
use vstd::prelude::*;

verus! {

/// The generator of `rand`.  Nothing is known of its state.
#[verifier::external_type_specification]
#[verifier::external_body]
pub struct ExStdRng(StdRng);

/// The seed of every restart strategy: a given seed reproduces a given run.
pub const SEED: u64 = 1234567;

/// A generator made by `StdRng::seed_from_u64` of `rand`.  Nothing is claimed of it.
#[verifier::external_body]
pub(crate) fn seeded(seed: u64) -> StdRng {
    StdRng::seed_from_u64(seed)
}

/// A draw by `Rng::gen_range` of `rand` from the range `0..n`, which must not be empty: the
/// result lies below `n`.  Which number it is depends on the state of the generator.
#[verifier::external_body]
pub(crate) fn random_below(rng: &mut StdRng, n: u64) -> (r: u64)
    requires
        n > 0,
    ensures
        r < n,
{
    rng.gen_range(0..n)
}

/// A random fraction: at least zero and less than one.
pub(crate) fn random_fraction(rng: &mut StdRng) -> (r: Fixed)
    ensures
        0 <= r.raw < SCALE,
{
    Fixed { raw: random_below(rng, 1_000_000) as i64 }
}

/// A change to a state of the coarse stage.
#[derive(Clone, Copy, Debug)]
pub enum Move {
    /// Shift the given fraction of the budget to the prefix at the given position.
    Weight { prefix: usize, fraction: Fixed },
    /// Set the field at the given position to the given value.
    Field { field: usize, value: u16 },
}

impl Move {
    /// The move can be made on `num_prefixes` weights and the configuration `cfg`.
    pub open spec fn fits<V: Vary>(self, num_prefixes: int, cfg: &V) -> bool {
        match self {
            Move::Weight { prefix, fraction } => prefix < num_prefixes && 0 <= fraction.raw
                <= SCALE,
            Move::Field { field, value } => field < cfg.arity().len() && value
                < cfg.arity()[field as int],
        }
    }
}

/// What the move makes of the weights `pw`.
pub open spec fn moved_weights(pw: Seq<Fixed>, max_weight: Fixed, mv: Move) -> Seq<Fixed> {
    match mv {
        Move::Weight { prefix, fraction } => increased(pw, max_weight, prefix as int, fraction),
        Move::Field { .. } => pw,
    }
}

/// What the move makes of the configuration `cfg`.
pub open spec fn moved_config<V: Vary>(cfg: V, mv: Move) -> V {
    match mv {
        Move::Weight { .. } => cfg,
        Move::Field { field, value } => cfg.with_field(field as int, value),
    }
}

/// Makes the move on the state `(pw, cfg)`.
pub fn apply_move<V: Vary>(pw: &mut PrefixWeights, cfg: &mut V, max_weight: Fixed, mv: Move)
    requires
        old(cfg).wf(),
        within_budget(old(pw)@, max_weight),
        mv.fits(old(pw)@.len() as int, old(cfg)),
    ensures
        final(pw)@ == moved_weights(old(pw)@, max_weight, mv),
        *final(cfg) == moved_config(*old(cfg), mv),
        final(cfg).wf(),
        final(cfg).arity() == old(cfg).arity(),
        within_budget(final(pw)@, max_weight),
        final(pw)@.len() == old(pw)@.len(),
{
    match mv {
        Move::Weight { prefix, fraction } => {
            proof {
                lemma_increased_within_budget(pw@, max_weight, prefix as int, fraction);
            }
            increase_prefix_weight(pw, max_weight, prefix, fraction);
        },
        Move::Field { field, value } => {
            cfg.set_field(field, value);
        },
    }
}

/// Draws a move: with equal chance the weights or any one field of `cfg`; for the weights a
/// prefix and a fraction of the budget, for a field one of its values.
pub(crate) fn random_move<V: Vary>(rng: &mut StdRng, num_prefixes: usize, cfg: &V) -> (mv: Move)
    requires
        cfg.wf(),
        num_prefixes > 0,
    ensures
        mv.fits(num_prefixes as int, cfg),
{
    let num_fields = cfg.num_fields();
    let choices: u64 = if num_fields as u64 == u64::MAX {
        u64::MAX
    } else {
        num_fields as u64 + 1
    };
    let which = random_below(rng, choices);
    let pick = random_below(rng, draw_bound(num_prefixes, cfg, which));
    let fraction = if which == 0 {
        random_fraction(rng)
    } else {
        Fixed::zero()
    };
    proof {
        lemma_drawn_move_fits(num_prefixes, cfg, which, pick, fraction);
    }
    drawn_move(which, pick, fraction)
}

/// How many numbers the second draw of a move chooses from, after the first draw `which`:
/// the prefixes where `which` is zero, and else the values of the field before `which`.
pub open spec fn spec_draw_bound<V: Vary>(num_prefixes: usize, cfg: &V, which: u64) -> u64 {
    if which == 0 {
        num_prefixes as u64
    } else {
        cfg.arity()[which - 1] as u64
    }
}

/// How many numbers the second draw of a move chooses from, after the first draw `which`.
/// There is at least one.
pub fn draw_bound<V: Vary>(num_prefixes: usize, cfg: &V, which: u64) -> (n: u64)
    requires
        cfg.wf(),
        num_prefixes > 0,
        which <= cfg.arity().len() <= usize::MAX,
    ensures
        n == spec_draw_bound(num_prefixes, cfg, which),
        n > 0,
{
    if which == 0 {
        num_prefixes as u64
    } else {
        let field = (which - 1) as usize;
        cfg.num_field_values(field) as u64
    }
}

/// The move that three draws select.  Where `which` is zero, the move shifts the fraction
/// `fraction` of the budget to the prefix `pick`; else it sets the field before `which` to
/// the value `pick`.
pub open spec fn spec_drawn_move(which: u64, pick: u64, fraction: Fixed) -> Move {
    if which == 0 {
        Move::Weight { prefix: pick as usize, fraction }
    } else {
        Move::Field { field: (which - 1) as usize, value: pick as u16 }
    }
}

/// The move that three draws select.
#[verifier::when_used_as_spec(spec_drawn_move)]
pub fn drawn_move(which: u64, pick: u64, fraction: Fixed) -> (mv: Move)
    ensures
        mv == spec_drawn_move(which, pick, fraction),
{
    if which == 0 {
        Move::Weight { prefix: pick as usize, fraction }
    } else {
        Move::Field { field: (which - 1) as usize, value: pick as u16 }
    }
}

/// A move that draws within their bounds select can be made.
pub proof fn lemma_drawn_move_fits<V: Vary>(
    num_prefixes: usize,
    cfg: &V,
    which: u64,
    pick: u64,
    fraction: Fixed,
)
    requires
        which <= cfg.arity().len() <= usize::MAX,
        pick < spec_draw_bound(num_prefixes, cfg, which),
        0 <= fraction.raw <= SCALE,
    ensures
        drawn_move(which, pick, fraction).fits(num_prefixes as int, cfg),
{
}

/// The fraction of the budget that a move of weight of the annealing walk shifts: all of it
/// where the coin shows zero, and else the fraction drawn.
pub open spec fn spec_anneal_fraction(coin: u64, drawn: Fixed) -> Fixed {
    if coin == 0 {
        Fixed::one()
    } else {
        drawn
    }
}

/// The fraction of the budget that a move of weight of the annealing walk shifts.
#[verifier::when_used_as_spec(spec_anneal_fraction)]
pub fn anneal_fraction(coin: u64, drawn: Fixed) -> (c: Fixed)
    ensures
        c == spec_anneal_fraction(coin, drawn),
{
    if coin == 0 {
        Fixed::one()
    } else {
        drawn
    }
}

/// Draws a move of the annealing walk: with equal chance the weights or any one field of
/// `cfg`; for the weights a prefix, and with equal chance the whole budget or a fraction of
/// it; for a field one of its values.
pub(crate) fn random_anneal_move<V: Vary>(rng: &mut StdRng, num_prefixes: usize, cfg: &V) -> (mv:
    Move)
    requires
        cfg.wf(),
        num_prefixes > 0,
    ensures
        mv.fits(num_prefixes as int, cfg),
{
    let num_fields = cfg.num_fields();
    let choices: u64 = if num_fields as u64 == u64::MAX {
        u64::MAX
    } else {
        num_fields as u64 + 1
    };
    let which = random_below(rng, choices);
    let pick = random_below(rng, draw_bound(num_prefixes, cfg, which));
    let fraction = if which == 0 {
        let coin = random_below(rng, 2);
        let drawn = if coin == 0 {
            Fixed::zero()
        } else {
            random_fraction(rng)
        };
        anneal_fraction(coin, drawn)
    } else {
        Fixed::zero()
    };
    proof {
        lemma_drawn_move_fits(num_prefixes, cfg, which, pick, fraction);
    }
    drawn_move(which, pick, fraction)
}

/// `y` squared `k` times over: `y` to the power of two to the `k`.
pub open spec fn squared(y: Fixed, k: nat) -> Fixed
    decreases k,
{
    if k == 0 {
        y
    } else {
        let half = squared(y, (k - 1) as nat);
        half.mul(half)
    }
}

/// An approximation of the exponential function at `-x`, for `x` that is not negative: the
/// 1024th power of `1 - x / 1024`, and zero from 1024 on.
pub open spec fn spec_exp_neg(x: Fixed) -> Fixed {
    if x.raw >= 1024 * SCALE {
        Fixed::zero()
    } else {
        squared(Fixed::one().sub(x.div(Fixed::from_int(1024))), 10)
    }
}

/// Squaring keeps a fraction a fraction.
pub proof fn lemma_squared(y: Fixed, k: nat)
    requires
        0 <= y.raw <= SCALE,
    ensures
        0 <= squared(y, k).raw <= SCALE,
    decreases k,
{
    if k > 0 {
        lemma_squared(y, (k - 1) as nat);
        let half = squared(y, (k - 1) as nat);
        lemma_fraction_of(half, half);
    }
}

/// An approximation of the exponential function at `-x`, for `x` that is not negative.  The
/// result lies between zero and one.
#[verifier::when_used_as_spec(spec_exp_neg)]
pub fn exp_neg(x: Fixed) -> (r: Fixed)
    requires
        0 <= x.raw,
    ensures
        r == spec_exp_neg(x),
        0 <= r.raw <= SCALE,
{
    if x.raw >= 1024 * SCALE {
        return Fixed::zero();
    }
    let mut y = Fixed::one().sub(x.div(Fixed::from_int(1024)));
    proof {
        assert(Fixed::from_int(1024).raw == 1_024_000_000);
        let q = (x.raw * 1_000_000) / 1_024_000_000;
        assert(0 <= q <= 1_000_000) by (nonlinear_arith)
            requires
                0 <= x.raw < 1_024_000_000,
                q == (x.raw * 1_000_000) / 1_024_000_000,
        ;
    }
    let ghost start = y;
    let mut k: usize = 0;
    while k < 10
        invariant
            k <= 10,
            0 <= start.raw <= SCALE,
            y == squared(start, k as nat),
        decreases 10 - k,
    {
        proof {
            lemma_squared(start, k as nat);
        }
        y = y.mul(y);
        k += 1;
    }
    proof {
        lemma_squared(start, 10);
    }
    y
}

/// How a draw is skewed toward one: a fifth of the draws gives the lower half of the results.
pub open spec fn spec_skew(x: Fixed) -> Fixed {
    if x.raw < SCALE / 5 {
        x.mul(Fixed::from_ratio(5, 2))
    } else {
        Fixed::from_ratio(1, 2).add(x.sub(Fixed::from_ratio(1, 5)).mul(Fixed::from_ratio(5, 8)))
    }
}

/// How a draw is skewed toward one.
#[verifier::when_used_as_spec(spec_skew)]
pub fn skew(x: Fixed) -> (r: Fixed)
    ensures
        r == spec_skew(x),
{
    if x.raw < SCALE / 5 {
        x.mul(Fixed::from_ratio(5, 2))
    } else {
        Fixed::from_ratio(1, 2).add(x.sub(Fixed::from_ratio(1, 5)).mul(Fixed::from_ratio(5, 8)))
    }
}

/// The position in a list of `len` entries that the draw `r` picks: early positions are
/// picked more often than late ones.
pub open spec fn spec_pick_index(len: usize, r: Fixed) -> usize {
    let f = Fixed::one().sub(skew(r)).mul(Fixed::from_int(len as i64));
    let i = (f.raw as int) / (SCALE as int);
    if i < 0 {
        0
    } else if i >= len {
        (len - 1) as usize
    } else {
        i as usize
    }
}

/// The position in a list of `len` entries that the draw `r` picks.
#[verifier::when_used_as_spec(spec_pick_index)]
pub fn pick_index(len: usize, r: Fixed) -> (i: usize)
    requires
        0 < len <= i64::MAX,
    ensures
        i == spec_pick_index(len, r),
        i < len,
{
    let f = Fixed::one().sub(skew(r)).mul(Fixed::from_int(len as i64));
    if f.raw < 0 {
        return 0;
    }
    let i = f.raw / SCALE;
    if i as u64 >= len as u64 {
        len - 1
    } else {
        i as usize
    }
}

} // verus!
