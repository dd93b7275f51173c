//! Restart strategies layered on the local search: simulated annealing, basin hopping, and
//! randomized multi-start.
//!
//! Every strategy draws from a generator with a fixed seed, so that a run can be repeated, and
//! stops after a given number of iterations.

use crate::character::CharacterModel;
use crate::fixed::{Fixed, SCALE};
use crate::gear::{Catalog, GearSlot, Quality};
use crate::optimize::coarse::random::{
    apply_move, exp_neg, moved_config, moved_weights, pick_index, random_below, random_fraction,
    random_anneal_move, random_move, seeded, Move, SEED,
};
use crate::optimize::coarse::{
    beats_held_search_from, beats_scan, beats_scan_values, calc_gear_stats, coarse_objective,
    copy_weights, hold_ok, increase_prefix_weight, is_coarse_outcome, is_recorded_search,
    is_search_outcome, kept, lemma_fraction_of, lemma_increased_within_budget, lemma_raw_sum_update,
    lemma_scan_kept, lemma_scan_values_kept, lemma_single_seed, lemma_zero_weights,
    optimize_coarse_one_ex, optimize_coarse_scan, scan_outcome, scan_seeds, search_result,
    single_seed, spec_zero_weights, try_seed, within_budget, zero_weights, Best, BestSeen, Hold,
    PrefixWeights, ROUNDS,
};
use crate::optimize::fine::{lemma_search_order, search_order, sort_by_weight};
use crate::optimize::{calc_max_weight, evaluate_config, spec_calc_max_weight, worst_objective};
use crate::vary::Vary;
use rand::rngs::StdRng;
use vstd::prelude::*;

verus! {

/// The factor by which the temperature of the annealing walk falls from one step to the
/// next: the temperature halves in ten steps.
pub open spec fn spec_cooling() -> Fixed {
    Fixed { raw: 933_033 }
}

/// The factor by which the temperature of the annealing walk falls from one step to the next.
#[verifier::when_used_as_spec(spec_cooling)]
pub fn cooling() -> (r: Fixed)
    ensures
        r == spec_cooling(),
{
    Fixed { raw: 933_033 }
}

/// The temperature of the annealing walk at the given iteration: it starts at 100 and cools
/// geometrically, by the factor [`cooling`] at each step.
pub open spec fn spec_temperature(iteration: usize) -> Fixed
    decreases iteration,
{
    if iteration == 0 {
        Fixed::from_int(100)
    } else {
        spec_temperature((iteration - 1) as usize).mul(cooling())
    }
}

/// Once the temperature has fallen to zero, it stays there.
pub proof fn lemma_temperature_stays_zero(i: usize, j: usize)
    requires
        i <= j,
        spec_temperature(i).raw == 0,
    ensures
        spec_temperature(j).raw == 0,
    decreases j - i,
{
    if i < j {
        lemma_temperature_stays_zero(i, (j - 1) as usize);
        assert(0 * cooling().raw == 0);
    }
}

/// The temperature of the annealing walk at the given iteration.
#[verifier::when_used_as_spec(spec_temperature)]
pub fn temperature(iteration: usize) -> (t: Fixed)
    ensures
        t == spec_temperature(iteration),
{
    let mut t = Fixed::from_int(100);
    let mut i: usize = 0;
    while i < iteration
        invariant
            i <= iteration,
            t == spec_temperature(i),
        decreases iteration - i,
    {
        if t.raw == 0 {
            proof {
                lemma_temperature_stays_zero(i, iteration);
            }
            return t;
        }
        t = t.mul(cooling());
        i += 1;
    }
    t
}

/// Whether the annealing walk moves from a state with the objective `m` to one with the
/// objective `new_m`, at the temperature `t` and with the draw `draw`: always where the new
/// state is better, and else where the draw lies below the exponential of the loss over the
/// temperature, negated.
pub open spec fn spec_accepts(m: Fixed, new_m: Fixed, t: Fixed, draw: Fixed) -> bool {
    new_m.raw < m.raw || (t.raw > 0 && draw.raw < exp_neg(
        new_m.sub(m).div(t).max(Fixed::zero()),
    ).raw)
}

/// Whether the annealing walk moves to the new state.
#[verifier::when_used_as_spec(spec_accepts)]
pub fn accepts(m: Fixed, new_m: Fixed, t: Fixed, draw: Fixed) -> (r: bool)
    ensures
        r == spec_accepts(m, new_m, t, draw),
{
    if new_m.lt(m) {
        return true;
    }
    if t.raw <= 0 {
        return false;
    }
    draw.lt(exp_neg(new_m.sub(m).div(t).max(Fixed::zero())))
}

/// The state after one step of the annealing walk from the state `(pw, cfg)` with the
/// objective `m`: the state that the move `mv` makes, where its configuration is valid and
/// the walk accepts it, and else the state as it was.
pub open spec fn anneal_next<C: CharacterModel>(
    ch: &C,
    catalog: &Catalog,
    max_weight: Fixed,
    pw: Seq<Fixed>,
    cfg: C::Config,
    m: Fixed,
    mv: Move,
    t: Fixed,
    draw: Fixed,
) -> (Seq<Fixed>, C::Config, Fixed) {
    let new_pw = moved_weights(pw, max_weight, mv);
    let new_cfg = moved_config(cfg, mv);
    let new_m = coarse_objective(ch, catalog, new_pw, new_cfg);
    if (mv is Field && !ch.config_valid(&new_cfg)) || !accepts(m, new_m, t, draw) {
        (pw, cfg, m)
    } else {
        (new_pw, new_cfg, new_m)
    }
}

/// Makes one step of the annealing walk.
pub fn anneal_step<C: CharacterModel>(
    ch: &C,
    catalog: &Catalog,
    max_weight: Fixed,
    cur: &mut Best<C::Config>,
    mv: Move,
    t: Fixed,
    draw: Fixed,
)
    requires
        ch.wf(),
        old(cur).cfg.wf(),
        old(cur).pw@.len() == catalog.prefixes@.len(),
        within_budget(old(cur).pw@, max_weight),
        mv.fits(old(cur).pw@.len() as int, &old(cur).cfg),
    ensures
        (final(cur).pw@, final(cur).cfg, final(cur).m) == anneal_next(
            ch,
            catalog,
            max_weight,
            old(cur).pw@,
            old(cur).cfg,
            old(cur).m,
            mv,
            t,
            draw,
        ),
        final(cur).cfg.wf(),
        final(cur).cfg.arity() == old(cur).cfg.arity(),
        final(cur).pw@.len() == old(cur).pw@.len(),
        within_budget(final(cur).pw@, max_weight),
        ch.config_valid(&old(cur).cfg) ==> ch.config_valid(&final(cur).cfg),
        *final(cur) == *old(cur) || final(cur).m == coarse_objective(
            ch,
            catalog,
            final(cur).pw@,
            final(cur).cfg,
        ),
{
    let mut new_pw = copy_weights(&cur.pw);
    let mut new_cfg = cur.cfg;
    apply_move(&mut new_pw, &mut new_cfg, max_weight, mv);
    let is_field = match mv {
        Move::Field { .. } => true,
        Move::Weight { .. } => false,
    };
    if is_field && !ch.is_config_valid(&new_cfg) {
        return ;
    }
    let new_gear = calc_gear_stats(catalog, &new_pw);
    let new_m = evaluate_config(ch, &new_gear, &new_cfg);
    if accepts(cur.m, new_m, t, draw) {
        cur.pw = new_pw;
        cur.cfg = new_cfg;
        cur.m = new_m;
    }
}

/// The state `(pw, cfg)` is one that a restart strategy may return from the configuration
/// `cfg0`: the state without any weight, or a state that is better than the starting
/// objective.
pub open spec fn is_restart_outcome<C: CharacterModel>(
    ch: &C,
    catalog: &Catalog,
    cfg0: C::Config,
    pw: Seq<Fixed>,
    cfg: C::Config,
) -> bool {
    ||| pw == spec_zero_weights(catalog.prefixes@.len() as usize) && cfg == cfg0
    ||| coarse_objective(ch, catalog, pw, cfg).raw < worst_objective().raw
}

/// `best` is what a restart strategy that started from the configuration `cfg0` may hold as
/// its best state: a state within the budget with a valid configuration, which is either the
/// state without any weight, with the starting objective, or a state with its own objective,
/// which is better than the starting one.
pub open spec fn holds_best<C: CharacterModel>(
    ch: &C,
    catalog: &Catalog,
    max_weight: Fixed,
    cfg0: C::Config,
    best: &Best<C::Config>,
) -> bool {
    let n = catalog.prefixes@.len() as usize;
    &&& best.cfg.wf()
    &&& best.cfg.arity() == cfg0.arity()
    &&& ch.config_valid(&best.cfg)
    &&& best.pw@.len() == n
    &&& within_budget(best.pw@, max_weight)
    &&& {
        ||| best.m == worst_objective() && best.pw@ == spec_zero_weights(n) && best.cfg == cfg0
        ||| best.m.raw < worst_objective().raw && best.m == coarse_objective(
            ch,
            catalog,
            best.pw@,
            best.cfg,
        )
    }
}

/// Copies `from` to `best` where `from` is better.
pub fn keep_if_better<V: Copy>(best: &mut Best<V>, from: &Best<V>)
    ensures
        final(best).m.raw <= old(best).m.raw,
        final(best).m.raw <= from.m.raw,
        *final(best) == *old(best) || (final(best).pw@ == from.pw@ && final(best).cfg == from.cfg
            && final(best).m == from.m && from.m.raw < old(best).m.raw),
{
    if from.m.lt(best.m) {
        best.pw = copy_weights(&from.pw);
        best.cfg = from.cfg;
        best.m = from.m;
    }
}

/// The states `(pws[i], cfgs[i])` with the objectives `ms[i]` are those of an annealing walk
/// of `n` steps: each comes from the one before it by a step with a move that fits and a draw
/// that is at least zero and less than one, at the temperature of the step.
pub open spec fn is_anneal_walk<C: CharacterModel>(
    ch: &C,
    catalog: &Catalog,
    max_weight: Fixed,
    n: nat,
    pws: Seq<Seq<Fixed>>,
    cfgs: Seq<C::Config>,
    ms: Seq<Fixed>,
    moves: Seq<Move>,
    draws: Seq<Fixed>,
) -> bool {
    &&& pws.len() == n + 1
    &&& cfgs.len() == n + 1
    &&& ms.len() == n + 1
    &&& moves.len() == n
    &&& draws.len() == n
    &&& forall|i: int|
        0 <= i < n ==> {
            &&& (#[trigger] moves[i]).fits(pws[i].len() as int, &cfgs[i])
            &&& 0 <= draws[i].raw < SCALE
            &&& (pws[i + 1], cfgs[i + 1], ms[i + 1]) == anneal_next(
                ch,
                catalog,
                max_weight,
                pws[i],
                cfgs[i],
                ms[i],
                moves[i],
                temperature(i as usize),
                draws[i],
            )
        }
}

/// An annealing walk with one more step is an annealing walk.
pub proof fn lemma_walk_step<C: CharacterModel>(
    ch: &C,
    catalog: &Catalog,
    max_weight: Fixed,
    n: nat,
    pws: Seq<Seq<Fixed>>,
    cfgs: Seq<C::Config>,
    ms: Seq<Fixed>,
    moves: Seq<Move>,
    draws: Seq<Fixed>,
    pw: Seq<Fixed>,
    cfg: C::Config,
    m: Fixed,
    mv: Move,
    draw: Fixed,
)
    requires
        is_anneal_walk(ch, catalog, max_weight, n, pws, cfgs, ms, moves, draws),
        n < usize::MAX,
        mv.fits(pws[n as int].len() as int, &cfgs[n as int]),
        0 <= draw.raw < SCALE,
        (pw, cfg, m) == anneal_next(
            ch,
            catalog,
            max_weight,
            pws[n as int],
            cfgs[n as int],
            ms[n as int],
            mv,
            temperature(n as usize),
            draw,
        ),
    ensures
        is_anneal_walk(
            ch,
            catalog,
            max_weight,
            n + 1,
            pws.push(pw),
            cfgs.push(cfg),
            ms.push(m),
            moves.push(mv),
            draws.push(draw),
        ),
{
    let longer_pws = pws.push(pw);
    let longer_cfgs = cfgs.push(cfg);
    let longer_ms = ms.push(m);
    let longer_moves = moves.push(mv);
    let longer_draws = draws.push(draw);
    assert forall|i: int| 0 <= i < n + 1 implies {
        &&& (#[trigger] longer_moves[i]).fits(longer_pws[i].len() as int, &longer_cfgs[i])
        &&& 0 <= longer_draws[i].raw < SCALE
        &&& (longer_pws[i + 1], longer_cfgs[i + 1], longer_ms[i + 1]) == anneal_next(
            ch,
            catalog,
            max_weight,
            longer_pws[i],
            longer_cfgs[i],
            longer_ms[i],
            longer_moves[i],
            temperature(i as usize),
            longer_draws[i],
        )
    } by {
        if i < n {
            assert(moves[i].fits(pws[i].len() as int, &cfgs[i]));
            assert(longer_moves[i] == moves[i]);
            assert(longer_draws[i] == draws[i]);
            assert(longer_pws[i] == pws[i] && longer_pws[i + 1] == pws[i + 1]);
            assert(longer_cfgs[i] == cfgs[i] && longer_cfgs[i + 1] == cfgs[i + 1]);
            assert(longer_ms[i] == ms[i] && longer_ms[i + 1] == ms[i + 1]);
        } else {
            assert(longer_moves[i] == mv && longer_draws[i] == draw);
            assert(longer_pws[i] == pws[i] && longer_cfgs[i] == cfgs[i] && longer_ms[i] == ms[i]);
            assert(longer_pws[i + 1] == pw && longer_cfgs[i + 1] == cfg && longer_ms[i + 1] == m);
        }
    }
}

/// The state `(pw, cfg)` is the best that the given annealing walk of `n` steps has passed:
/// the walk starts from the state without any weight, with the configuration `cfg0` and the
/// starting objective, and `(pw, cfg)` is its state number `k`, the first whose objective no
/// state of the walk beats.
pub open spec fn is_best_of_walk<C: CharacterModel>(
    ch: &C,
    catalog: &Catalog,
    max_weight: Fixed,
    cfg0: C::Config,
    n: nat,
    pws: Seq<Seq<Fixed>>,
    cfgs: Seq<C::Config>,
    ms: Seq<Fixed>,
    moves: Seq<Move>,
    draws: Seq<Fixed>,
    k: int,
    pw: Seq<Fixed>,
    cfg: C::Config,
) -> bool {
    &&& is_anneal_walk(ch, catalog, max_weight, n, pws, cfgs, ms, moves, draws)
    &&& pws[0] == spec_zero_weights(catalog.prefixes@.len() as usize)
    &&& cfgs[0] == cfg0
    &&& ms[0] == worst_objective()
    &&& 0 <= k <= n
    &&& pw == pws[k]
    &&& cfg == cfgs[k]
    &&& forall|j: int| 0 <= j <= n ==> ms[k].raw <= (#[trigger] ms[j]).raw
    &&& forall|j: int| 0 <= j < k ==> ms[k].raw < (#[trigger] ms[j]).raw
}

/// The state `(pw, cfg)` is an outcome of simulated annealing with `n` steps: the best state
/// that some annealing walk of `n` steps has passed.
pub open spec fn is_anneal_outcome<C: CharacterModel>(
    ch: &C,
    catalog: &Catalog,
    max_weight: Fixed,
    cfg0: C::Config,
    n: nat,
    pw: Seq<Fixed>,
    cfg: C::Config,
) -> bool {
    exists|
        pws: Seq<Seq<Fixed>>,
        cfgs: Seq<C::Config>,
        ms: Seq<Fixed>,
        moves: Seq<Move>,
        draws: Seq<Fixed>,
        k: int,
    | #[trigger]
        is_best_of_walk(ch, catalog, max_weight, cfg0, n, pws, cfgs, ms, moves, draws, k, pw, cfg)
}

/// Finds weights and a configuration by simulated annealing: a random walk of `iter_limit`
/// steps from the state without any weight, which accepts every improvement and, the less
/// often the lower the temperature has fallen, some losses.  The best state that the walk
/// has passed is returned.
pub fn optimize_coarse_anneal<C: CharacterModel>(
    ch: &C,
    catalog: &Catalog,
    slots: &[(GearSlot, Quality)],
    cfg0: &C::Config,
    iter_limit: usize,
) -> (r: (PrefixWeights, C::Config))
    requires
        ch.wf(),
        cfg0.wf(),
        catalog.wf(),
        ch.config_valid(cfg0),
        spec_calc_max_weight(catalog, slots@).raw >= 0,
    ensures
        is_anneal_outcome(
            ch,
            catalog,
            spec_calc_max_weight(catalog, slots@),
            *cfg0,
            iter_limit as nat,
            r.0@,
            r.1,
        ),
        is_restart_outcome(ch, catalog, *cfg0, r.0@, r.1),
        iter_limit == 0 ==> r.0@ == spec_zero_weights(catalog.prefixes@.len() as usize) && r.1
            == *cfg0,
        within_budget(r.0@, spec_calc_max_weight(catalog, slots@)),
        r.0@.len() == catalog.prefixes@.len(),
        r.1.wf(),
        r.1.arity() == cfg0.arity(),
        ch.config_valid(&r.1),
{
    let max_weight = calc_max_weight(catalog, slots);
    let n = catalog.prefixes.len();
    proof {
        lemma_zero_weights(n);
    }
    let mut cur = Best { pw: zero_weights(n), cfg: *cfg0, m: worst_objective() };
    let mut best = Best { pw: zero_weights(n), cfg: *cfg0, m: worst_objective() };
    let mut rng = seeded(SEED);
    let ghost mut pws: Seq<Seq<Fixed>> = seq![cur.pw@];
    let ghost mut cfgs: Seq<C::Config> = seq![*cfg0];
    let ghost mut ms: Seq<Fixed> = seq![worst_objective()];
    let ghost mut moves: Seq<Move> = Seq::empty();
    let ghost mut draws: Seq<Fixed> = Seq::empty();
    let ghost mut k: int = 0;
    let mut t = Fixed::from_int(100);
    let mut iteration: usize = 0;
    while iteration < iter_limit
        invariant
            t == spec_temperature(iteration),
            ch.wf(),
            cfg0.wf(),
            ch.config_valid(cfg0),
            n == catalog.prefixes@.len(),
            n > 0,
            cur.cfg.wf(),
            cur.cfg.arity() == cfg0.arity(),
            ch.config_valid(&cur.cfg),
            cur.pw@.len() == n,
            within_budget(cur.pw@, max_weight),
            cur.m == worst_objective() || cur.m == coarse_objective(
                ch,
                catalog,
                cur.pw@,
                cur.cfg,
            ),
            holds_best(ch, catalog, max_weight, *cfg0, &best),
            iteration <= iter_limit,
            iteration == 0 ==> best.pw@ == spec_zero_weights(n) && best.cfg == *cfg0,
            is_anneal_walk(ch, catalog, max_weight, iteration as nat, pws, cfgs, ms, moves, draws),
            pws[0] == spec_zero_weights(n),
            cfgs[0] == *cfg0,
            ms[0] == worst_objective(),
            pws[iteration as int] == cur.pw@,
            cfgs[iteration as int] == cur.cfg,
            ms[iteration as int] == cur.m,
            0 <= k <= iteration,
            pws[k] == best.pw@,
            cfgs[k] == best.cfg,
            ms[k] == best.m,
            forall|j: int| 0 <= j <= iteration ==> ms[k].raw <= (#[trigger] ms[j]).raw,
            forall|j: int| 0 <= j < k ==> ms[k].raw < (#[trigger] ms[j]).raw,
        decreases iter_limit - iteration,
    {
        let mv = random_anneal_move(&mut rng, n, &cur.cfg);
        let draw = random_fraction(&mut rng);
        anneal_step(ch, catalog, max_weight, &mut cur, mv, t, draw);
        let ghost best_before = best.m;
        keep_if_better(&mut best, &cur);
        proof {
            let longer_pws = pws.push(cur.pw@);
            let longer_cfgs = cfgs.push(cur.cfg);
            let longer_ms = ms.push(cur.m);
            let longer_moves = moves.push(mv);
            let longer_draws = draws.push(draw);
            lemma_walk_step(
                ch,
                catalog,
                max_weight,
                iteration as nat,
                pws,
                cfgs,
                ms,
                moves,
                draws,
                cur.pw@,
                cur.cfg,
                cur.m,
                mv,
                draw,
            );
            if cur.m.raw < best_before.raw {
                k = iteration + 1;
            }
            assert forall|j: int| 0 <= j <= iteration + 1 implies longer_ms[k].raw <= (
            #[trigger] longer_ms[j]).raw by {
                if j <= iteration {
                    assert(longer_ms[j] == ms[j]);
                }
            }
            assert forall|j: int| 0 <= j < k implies longer_ms[k].raw < (#[trigger] longer_ms[j]).raw by {
                assert(longer_ms[j] == ms[j]);
            }
            pws = longer_pws;
            cfgs = longer_cfgs;
            ms = longer_ms;
            moves = longer_moves;
            draws = longer_draws;
        }
        t = t.mul(cooling());
        iteration += 1;
    }
    let r = (best.pw, best.cfg);
    assert(is_best_of_walk(
        ch,
        catalog,
        max_weight,
        *cfg0,
        iter_limit as nat,
        pws,
        cfgs,
        ms,
        moves,
        draws,
        k,
        r.0@,
        r.1,
    ));
    r
}

/// What a perturbation makes of the state `(pw, cfg)`: the state that the move makes, or the
/// state as it was where the move gives a configuration that is not valid.
pub open spec fn perturbed<C: CharacterModel>(
    ch: &C,
    max_weight: Fixed,
    pw: Seq<Fixed>,
    cfg: C::Config,
    mv: Move,
) -> (Seq<Fixed>, C::Config) {
    let new_cfg = moved_config(cfg, mv);
    if mv is Field && !ch.config_valid(&new_cfg) {
        (pw, cfg)
    } else {
        (moved_weights(pw, max_weight, mv), new_cfg)
    }
}

/// Perturbs the state `(pw, cfg)` by the move `mv`.
pub fn perturb<C: CharacterModel>(
    ch: &C,
    max_weight: Fixed,
    pw: &mut PrefixWeights,
    cfg: &mut C::Config,
    mv: Move,
)
    requires
        ch.wf(),
        old(cfg).wf(),
        within_budget(old(pw)@, max_weight),
        mv.fits(old(pw)@.len() as int, old(cfg)),
    ensures
        (final(pw)@, *final(cfg)) == perturbed(ch, max_weight, old(pw)@, *old(cfg), mv),
        final(cfg).wf(),
        final(cfg).arity() == old(cfg).arity(),
        within_budget(final(pw)@, max_weight),
        final(pw)@.len() == old(pw)@.len(),
        ch.config_valid(old(cfg)) ==> ch.config_valid(final(cfg)),
{
    let before = *cfg;
    apply_move(pw, cfg, max_weight, mv);
    let is_field = match mv {
        Move::Field { .. } => true,
        Move::Weight { .. } => false,
    };
    if is_field && !ch.is_config_valid(cfg) {
        *cfg = before;
    }
}

/// What the first `k` of the moves `moves` make of the state `(pw, cfg)`, each by a
/// perturbation of what the moves before it have made.
pub open spec fn perturbed_by<C: CharacterModel>(
    ch: &C,
    max_weight: Fixed,
    pw: Seq<Fixed>,
    cfg: C::Config,
    moves: Seq<Move>,
    k: int,
) -> (Seq<Fixed>, C::Config)
    decreases k,
{
    if k <= 0 {
        (pw, cfg)
    } else {
        let before = perturbed_by(ch, max_weight, pw, cfg, moves, k - 1);
        perturbed(ch, max_weight, before.0, before.1, moves[k - 1])
    }
}

/// Each of the first `k` of the moves `moves` fits the state on which it is made: what the
/// moves before it have made of the state `(pw, cfg)`.
pub open spec fn moves_fit<C: CharacterModel>(
    ch: &C,
    max_weight: Fixed,
    pw: Seq<Fixed>,
    cfg: C::Config,
    moves: Seq<Move>,
    k: int,
) -> bool
    decreases k,
{
    if k <= 0 {
        true
    } else {
        let before = perturbed_by(ch, max_weight, pw, cfg, moves, k - 1);
        moves_fit(ch, max_weight, pw, cfg, moves, k - 1) && moves[k - 1].fits(
            before.0.len() as int,
            &before.1,
        )
    }
}

/// Moves that follow do not change whether the moves before them fit.
pub proof fn lemma_moves_fit_prefix<C: CharacterModel>(
    ch: &C,
    max_weight: Fixed,
    pw: Seq<Fixed>,
    cfg: C::Config,
    moves: Seq<Move>,
    mv: Move,
    k: int,
)
    requires
        k <= moves.len(),
    ensures
        moves_fit(ch, max_weight, pw, cfg, moves.push(mv), k) == moves_fit(
            ch,
            max_weight,
            pw,
            cfg,
            moves,
            k,
        ),
    decreases k,
{
    if k > 0 {
        lemma_moves_fit_prefix(ch, max_weight, pw, cfg, moves, mv, k - 1);
        lemma_perturbed_by_prefix(ch, max_weight, pw, cfg, moves, mv, k - 1);
        assert(moves.push(mv)[k - 1] == moves[k - 1]);
    }
}

/// What one hop with the moves `moves` makes of the best state `best`: the state is
/// perturbed by the moves, a local search starts from what they make, and its outcome is
/// kept where it is strictly better.
pub open spec fn hopped<C: CharacterModel>(
    ch: &C,
    catalog: &Catalog,
    max_weight: Fixed,
    best: (Seq<Fixed>, C::Config, Fixed),
    moves: Seq<Move>,
) -> (Seq<Fixed>, C::Config, Fixed) {
    let from = perturbed_by(ch, max_weight, best.0, best.1, moves, moves.len() as int);
    kept(
        ch,
        catalog,
        best,
        search_result(ch, catalog, max_weight, Hold::Nothing, ROUNDS as nat, from.0, from.1),
    )
}

/// The best state after the first `k` of the hops `hops` from the state `start`.
pub open spec fn hops_upto<C: CharacterModel>(
    ch: &C,
    catalog: &Catalog,
    max_weight: Fixed,
    start: (Seq<Fixed>, C::Config, Fixed),
    hops: Seq<Seq<Move>>,
    k: int,
) -> (Seq<Fixed>, C::Config, Fixed)
    decreases k,
{
    if k <= 0 {
        start
    } else {
        hopped(
            ch,
            catalog,
            max_weight,
            hops_upto(ch, catalog, max_weight, start, hops, k - 1),
            hops[k - 1],
        )
    }
}

/// The state from which basin hopping starts: what [`optimize_coarse_scan`] returns, with
/// its objective.
pub open spec fn hop_start<C: CharacterModel>(
    ch: &C,
    catalog: &Catalog,
    max_weight: Fixed,
    cfg0: C::Config,
) -> (Seq<Fixed>, C::Config, Fixed) {
    let found = scan_outcome(ch, catalog, max_weight, cfg0);
    (found.0, found.1, coarse_objective(ch, catalog, found.0, found.1))
}

/// The state `(pw, cfg)` is what the `n` hops `hops`, each of one to nine moves that fit, make
/// of the outcome of the scan.
pub open spec fn is_hop_chain<C: CharacterModel>(
    ch: &C,
    catalog: &Catalog,
    max_weight: Fixed,
    cfg0: C::Config,
    n: nat,
    hops: Seq<Seq<Move>>,
    pw: Seq<Fixed>,
    cfg: C::Config,
) -> bool {
    let end = hops_upto(
        ch,
        catalog,
        max_weight,
        hop_start(ch, catalog, max_weight, cfg0),
        hops,
        n as int,
    );
    &&& hops.len() == n
    &&& forall|i: int|
        0 <= i < n ==> {
            let from = hops_upto(
                ch,
                catalog,
                max_weight,
                hop_start(ch, catalog, max_weight, cfg0),
                hops,
                i,
            );
            &&& 1 <= (#[trigger] hops[i]).len() <= 9
            &&& moves_fit(ch, max_weight, from.0, from.1, hops[i], hops[i].len() as int)
        }
    &&& pw == end.0
    &&& cfg == end.1
}

/// The state `(pw, cfg)` is an outcome of basin hopping with `n` hops: there are moves such
/// that it is the best of the chain of hops that they make from the outcome of the scan.
pub open spec fn is_hop_outcome<C: CharacterModel>(
    ch: &C,
    catalog: &Catalog,
    max_weight: Fixed,
    cfg0: C::Config,
    n: nat,
    pw: Seq<Fixed>,
    cfg: C::Config,
) -> bool {
    exists|hops: Seq<Seq<Move>>| #[trigger]
        is_hop_chain(ch, catalog, max_weight, cfg0, n, hops, pw, cfg)
}

/// Moves that follow do not change what the moves before them make.
pub proof fn lemma_perturbed_by_prefix<C: CharacterModel>(
    ch: &C,
    max_weight: Fixed,
    pw: Seq<Fixed>,
    cfg: C::Config,
    moves: Seq<Move>,
    mv: Move,
    k: int,
)
    requires
        k <= moves.len(),
    ensures
        perturbed_by(ch, max_weight, pw, cfg, moves.push(mv), k) == perturbed_by(
            ch,
            max_weight,
            pw,
            cfg,
            moves,
            k,
        ),
    decreases k,
{
    if k > 0 {
        lemma_perturbed_by_prefix(ch, max_weight, pw, cfg, moves, mv, k - 1);
        assert(moves.push(mv)[k - 1] == moves[k - 1]);
    }
}

/// Hops that follow do not change what the hops before them make.
pub proof fn lemma_hops_prefix<C: CharacterModel>(
    ch: &C,
    catalog: &Catalog,
    max_weight: Fixed,
    start: (Seq<Fixed>, C::Config, Fixed),
    hops: Seq<Seq<Move>>,
    hop: Seq<Move>,
    k: int,
)
    requires
        k <= hops.len(),
    ensures
        hops_upto(ch, catalog, max_weight, start, hops.push(hop), k) == hops_upto(
            ch,
            catalog,
            max_weight,
            start,
            hops,
            k,
        ),
    decreases k,
{
    if k > 0 {
        lemma_hops_prefix(ch, catalog, max_weight, start, hops, hop, k - 1);
        assert(hops.push(hop)[k - 1] == hops[k - 1]);
    }
}

/// Finds weights and a configuration by basin hopping: from the outcome of
/// [`optimize_coarse_scan`], `iter_limit` times over (without end where no limit is given, as
/// far as the machine counts), the best state is perturbed by up to nine random moves and
/// optimized locally, and the outcome is kept where it is better.
pub fn optimize_coarse_basin_hopping<C: CharacterModel>(
    ch: &C,
    catalog: &Catalog,
    slots: &[(GearSlot, Quality)],
    cfg0: &C::Config,
    iter_limit: Option<usize>,
) -> (r: (PrefixWeights, C::Config))
    requires
        ch.wf(),
        cfg0.wf(),
        catalog.wf(),
        ch.config_valid(cfg0),
        spec_calc_max_weight(catalog, slots@).raw >= 0,
    ensures
        within_budget(r.0@, spec_calc_max_weight(catalog, slots@)),
        r.0@.len() == catalog.prefixes@.len(),
        r.1.wf(),
        r.1.arity() == cfg0.arity(),
        ch.config_valid(&r.1),
        is_hop_outcome(
            ch,
            catalog,
            spec_calc_max_weight(catalog, slots@),
            *cfg0,
            match iter_limit {
                Some(limit) => limit as nat,
                None => usize::MAX as nat,
            },
            r.0@,
            r.1,
        ),
        ({
            let found = scan_outcome(ch, catalog, spec_calc_max_weight(catalog, slots@), *cfg0);
            &&& coarse_objective(ch, catalog, r.0@, r.1).raw <= coarse_objective(
                ch,
                catalog,
                found.0,
                found.1,
            ).raw
            &&& iter_limit == Some(0usize) ==> r.0@ == found.0 && r.1 == found.1
        }),
        iter_limit == Some(0usize) ==> is_coarse_outcome(
            ch,
            catalog,
            spec_calc_max_weight(catalog, slots@),
            *cfg0,
            scan_seeds(
                ch,
                catalog.prefixes@.len() as usize,
                spec_calc_max_weight(catalog, slots@),
                *cfg0,
            ),
            r.0@,
            r.1,
        ),
{
    let max_weight = calc_max_weight(catalog, slots);
    let n = catalog.prefixes.len();
    let (pw, cfg) = optimize_coarse_scan(ch, catalog, slots, cfg0);
    let gear = calc_gear_stats(catalog, &pw);
    let m = evaluate_config(ch, &gear, &cfg);
    let ghost s_pw = pw@;
    let ghost s_cfg = cfg;
    let ghost start = hop_start(ch, catalog, max_weight, *cfg0);
    let mut best = Best { pw, cfg, m };
    let mut rng = seeded(SEED);
    let limit = match iter_limit {
        Some(limit) => limit,
        None => usize::MAX,
    };
    let ghost mut hops: Seq<Seq<Move>> = Seq::empty();
    let mut iteration: usize = 0;
    while iteration < limit
        invariant
            ch.wf(),
            cfg0.wf(),
            n == catalog.prefixes@.len(),
            n > 0,
            best.cfg.wf(),
            best.cfg.arity() == cfg0.arity(),
            ch.config_valid(&best.cfg),
            best.pw@.len() == n,
            within_budget(best.pw@, max_weight),
            best.m == coarse_objective(ch, catalog, best.pw@, best.cfg),
            best.m.raw <= coarse_objective(ch, catalog, s_pw, s_cfg).raw,
            iteration <= limit,
            iteration == 0 ==> best.pw@ == s_pw && best.cfg == s_cfg,
            is_coarse_outcome(
                ch,
                catalog,
                max_weight,
                *cfg0,
                scan_seeds(ch, n, max_weight, *cfg0),
                s_pw,
                s_cfg,
            ),
            start == hop_start(ch, catalog, max_weight, *cfg0),
            start.0 == s_pw,
            start.1 == s_cfg,
            hops.len() == iteration,
            forall|i: int|
                0 <= i < iteration ==> {
                    let from = hops_upto(ch, catalog, max_weight, start, hops, i);
                    &&& 1 <= (#[trigger] hops[i]).len() <= 9
                    &&& moves_fit(ch, max_weight, from.0, from.1, hops[i], hops[i].len() as int)
                },
            best.state() == hops_upto(ch, catalog, max_weight, start, hops, iteration as int),
        decreases limit - iteration,
    {
        let mut new_pw0 = copy_weights(&best.pw);
        let mut new_cfg0 = best.cfg;
        let moves = random_below(&mut rng, 9) + 1;
        let ghost mut made: Seq<Move> = Seq::empty();
        let mut k: u64 = 0;
        while k < moves
            invariant
                ch.wf(),
                n > 0,
                k <= moves,
                new_cfg0.wf(),
                new_cfg0.arity() == cfg0.arity(),
                ch.config_valid(&new_cfg0),
                new_pw0@.len() == n,
                within_budget(new_pw0@, max_weight),
                made.len() == k,
                moves_fit(ch, max_weight, best.pw@, best.cfg, made, k as int),
                (new_pw0@, new_cfg0) == perturbed_by(
                    ch,
                    max_weight,
                    best.pw@,
                    best.cfg,
                    made,
                    k as int,
                ),
            decreases moves - k,
        {
            let mv = random_move(&mut rng, n, &new_cfg0);
            perturb(ch, max_weight, &mut new_pw0, &mut new_cfg0, mv);
            proof {
                lemma_perturbed_by_prefix(ch, max_weight, best.pw@, best.cfg, made, mv, k as int);
                lemma_moves_fit_prefix(ch, max_weight, best.pw@, best.cfg, made, mv, k as int);
                made = made.push(mv);
            }
            k += 1;
        }
        let ghost from = best.state();
        try_seed(ch, catalog, max_weight, &mut best, &new_pw0, &new_cfg0);
        proof {
            let longer = hops.push(made);
            lemma_hops_prefix(ch, catalog, max_weight, start, hops, made, iteration as int);
            assert forall|i: int| 0 <= i < iteration + 1 implies {
                let at = hops_upto(ch, catalog, max_weight, start, longer, i);
                &&& 1 <= (#[trigger] longer[i]).len() <= 9
                &&& moves_fit(ch, max_weight, at.0, at.1, longer[i], longer[i].len() as int)
            } by {
                lemma_hops_prefix(ch, catalog, max_weight, start, hops, made, i);
                if i < iteration {
                    assert(longer[i] == hops[i]);
                } else {
                    assert(longer[i] == made);
                    assert(hops_upto(ch, catalog, max_weight, start, hops, i) == from);
                }
            }
            hops = longer;
        }
        iteration += 1;
    }
    let r = (best.pw, best.cfg);
    assert(is_hop_chain(ch, catalog, max_weight, *cfg0, limit as nat, hops, r.0@, r.1));
    r
}

/// The key whose order is the reverse of that of `key`.
pub open spec fn flipped(key: Fixed) -> Fixed {
    Fixed { raw: (-1 - key.raw) as i64 }
}

/// The positions of `keys` from the best objective to the worst; positions with the same
/// objective stay in their order.
pub open spec fn spec_best_first(keys: Seq<Fixed>) -> Seq<usize> {
    search_order(Seq::new(keys.len(), |i: int| flipped(keys[i])), keys.len() as int)
}

/// The positions of `keys` from the best objective to the worst.
pub fn best_first(keys: &Vec<Fixed>) -> (order: Vec<usize>)
    ensures
        order@ == spec_best_first(keys@),
        order@.len() == keys@.len(),
        forall|p: int| 0 <= p < order@.len() ==> (#[trigger] order@[p]) < keys@.len(),
{
    let mut flipped_keys: Vec<Fixed> = Vec::new();
    let mut i: usize = 0;
    while i < keys.len()
        invariant
            i <= keys@.len(),
            flipped_keys@.len() == i,
            forall|k: int| 0 <= k < i ==> #[trigger] flipped_keys@[k] == flipped(keys@[k]),
        decreases keys@.len() - i,
    {
        flipped_keys.push(Fixed { raw: -1 - keys[i].raw });
        i += 1;
    }
    assert(flipped_keys@ =~= Seq::new(keys@.len(), |i: int| flipped(keys@[i])));
    proof {
        lemma_search_order(flipped_keys@, keys@.len() as int);
    }
    sort_by_weight(&flipped_keys)
}

/// Fraction of the budget that the first phase of [`optimize_coarse_randomized`] holds on the
/// prefix that a search starts from.
pub open spec fn spec_prefix_hold_factor() -> Fixed {
    Fixed::from_ratio(4, 10)
}

/// Fraction of the budget that the first phase holds on the prefix that a search starts from.
#[verifier::when_used_as_spec(spec_prefix_hold_factor)]
pub fn prefix_hold_factor() -> (r: Fixed)
    ensures
        r == spec_prefix_hold_factor(),
        0 <= r.raw <= SCALE,
{
    proof {
        assert(4 * SCALE == 4_000_000);
        assert(4_000_000int / 10int == 400_000int) by (nonlinear_arith);
    }
    Fixed::from_ratio(4, 10)
}

/// Runs a local search from the state `(pw0, cfg0)` with the hold `hold`, recording in `seen`,
/// and keeps its outcome where it improves on the best.
pub fn try_seed_ex<C: CharacterModel>(
    ch: &C,
    catalog: &Catalog,
    max_weight: Fixed,
    best: &mut Best<C::Config>,
    pw0: &PrefixWeights,
    cfg0: &C::Config,
    hold: Hold,
    seen: &mut BestSeen,
) -> (r: (PrefixWeights, C::Config))
    requires
        ch.wf(),
        cfg0.wf(),
        ch.config_valid(cfg0),
        pw0@.len() == catalog.prefixes@.len(),
        within_budget(pw0@, max_weight),
        hold_ok(hold, max_weight, pw0@.len() as int),
        old(seen).fits(pw0@.len() as int, cfg0),
        old(best).cfg.wf(),
        old(best).cfg.arity() == cfg0.arity(),
        ch.config_valid(&old(best).cfg),
        within_budget(old(best).pw@, max_weight),
        old(best).pw@.len() == pw0@.len(),
    ensures
        (r.0@, r.1) == search_result(ch, catalog, max_weight, hold, ROUNDS as nat, pw0@, *cfg0),
        is_search_outcome(
            ch,
            catalog,
            max_weight,
            hold,
            ROUNDS as nat,
            pw0@,
            *cfg0,
            r.0@,
            r.1,
        ),
        is_recorded_search(
            final(seen),
            ch,
            catalog,
            max_weight,
            hold,
            ROUNDS as nat,
            pw0@,
            *cfg0,
            r.0@,
            r.1,
        ),
        within_budget(r.0@, max_weight),
        r.0@.len() == pw0@.len(),
        r.1.wf(),
        r.1.arity() == cfg0.arity(),
        ch.config_valid(&r.1),
        final(best).m.raw <= old(best).m.raw,
        final(best).m.raw <= coarse_objective(ch, catalog, r.0@, r.1).raw,
        beats_held_search_from(ch, catalog, max_weight, hold, final(best).m, pw0@, *cfg0),
        final(best).cfg.wf(),
        final(best).cfg.arity() == cfg0.arity(),
        ch.config_valid(&final(best).cfg),
        within_budget(final(best).pw@, max_weight),
        final(best).pw@.len() == pw0@.len(),
        *final(best) == *old(best) || (final(best).pw@ == r.0@ && final(best).cfg == r.1
            && final(best).m == coarse_objective(ch, catalog, r.0@, r.1) && final(best).m.raw
            < old(best).m.raw),
        final(seen).fits(pw0@.len() as int, cfg0),
        final(seen).no_worse_than(old(seen)),
{
    let (pw, cfg) = optimize_coarse_one_ex(ch, catalog, max_weight, pw0, cfg0, hold, seen);
    let gear = calc_gear_stats(catalog, &pw);
    let m = evaluate_config(ch, &gear, &cfg);
    if m.lt(best.m) {
        best.pw = copy_weights(&pw);
        best.cfg = cfg;
        best.m = m;
    }
    (pw, cfg)
}

/// A random position of `order`, early positions more often than late ones.
pub(crate) fn pick(rng: &mut StdRng, order: &Vec<usize>) -> (r: usize)
    requires
        0 < order@.len(),
    ensures
        exists|i: int| 0 <= i < order@.len() && r == #[trigger] order@[i],
{
    let len = order.len();
    if len as u64 > 0x7fff_ffff_ffff_ffff {
        return order[0];
    }
    let i = pick_index(len, random_fraction(rng));
    order[i]
}

/// The weights of a seed of the second phase: the fraction `c` of the budget on the prefix
/// `pi`, and then what is left of the budget on the prefix `pj`.
pub open spec fn spec_seed_weights(
    n: usize,
    max_weight: Fixed,
    pi: int,
    pj: int,
    c: Fixed,
) -> Seq<Fixed> {
    spec_zero_weights(n).update(pi, max_weight.mul(c)).update(
        pj,
        max_weight.mul(Fixed::one().sub(c)),
    )
}

/// The weights of a seed of the second phase.
pub fn seed_weights(n: usize, max_weight: Fixed, pi: usize, pj: usize, c: Fixed) -> (pw:
    PrefixWeights)
    requires
        pi < n,
        pj < n,
        0 <= max_weight.raw,
        0 <= c.raw <= SCALE,
    ensures
        pw@ == spec_seed_weights(n, max_weight, pi as int, pj as int, c),
        pw@.len() == n,
        within_budget(pw@, max_weight),
{
    let mut pw0 = zero_weights(n);
    let first = max_weight.mul(c);
    let second = max_weight.mul(Fixed::one().sub(c));
    proof {
        lemma_zero_weights(n);
        lemma_fraction_of(max_weight, c);
        lemma_fraction_of(max_weight, Fixed::one().sub(c));
        lemma_split(max_weight, c);
    }
    pw0[pi] = first;
    let ghost one = pw0@;
    pw0[pj] = second;
    proof {
        lemma_raw_sum_update(spec_zero_weights(n), pi as int, first);
        lemma_raw_sum_update(one, pj as int, second);
    }
    pw0
}

/// The configuration `cfg` with the first `k` fields set to the values `picks`, one after
/// the other.
pub open spec fn with_fields<V: Vary>(cfg: V, picks: Seq<u16>, k: int) -> V
    decreases k,
{
    if k <= 0 {
        cfg
    } else {
        with_fields(cfg, picks, k - 1).with_field(k - 1, picks[k - 1])
    }
}

/// The configuration of a seed of the second phase: `fallback` with every field set to its
/// value in `picks`, or `fallback` itself where that is not valid.
pub open spec fn spec_seed_config<C: CharacterModel>(
    ch: &C,
    fallback: C::Config,
    picks: Seq<u16>,
) -> C::Config {
    let drawn = with_fields(fallback, picks, picks.len() as int);
    if ch.config_valid(&drawn) {
        drawn
    } else {
        fallback
    }
}

/// The configuration of a seed of the second phase.
pub fn seed_config<C: CharacterModel>(ch: &C, fallback: &C::Config, picks: &Vec<u16>) -> (cfg:
    C::Config)
    requires
        ch.wf(),
        fallback.wf(),
        picks@.len() == fallback.arity().len(),
        forall|i: int| 0 <= i < picks@.len() ==> (#[trigger] picks@[i]) < fallback.arity()[i],
    ensures
        cfg == spec_seed_config(ch, *fallback, picks@),
        cfg.wf(),
        cfg.arity() == fallback.arity(),
        ch.config_valid(fallback) ==> ch.config_valid(&cfg),
{
    let mut cfg = *fallback;
    let num_fields = cfg.num_fields();
    let mut fi: usize = 0;
    while fi < num_fields
        invariant
            fallback.wf(),
            cfg.wf(),
            cfg.arity() == fallback.arity(),
            num_fields == fallback.arity().len(),
            picks@.len() == num_fields,
            forall|i: int| 0 <= i < picks@.len() ==> (#[trigger] picks@[i]) < fallback.arity()[i],
            fi <= num_fields,
            cfg == with_fields(*fallback, picks@, fi as int),
        decreases num_fields - fi,
    {
        cfg.set_field(fi, picks[fi]);
        fi += 1;
    }
    if ch.is_config_valid(&cfg) {
        cfg
    } else {
        *fallback
    }
}

/// Draws a seed for a search: for the weights, two prefixes out of `prefix_order`, early ones
/// more often, of which the first gets at least half of the budget and the second the rest;
/// for the configuration, `fallback` with each field set to a value out of the order of the
/// field in `seen`, early ones more often, or `fallback` itself where that is not valid.
/// The seed is what [`seed_weights`] and [`seed_config`] make of the draws.
pub(crate) fn random_seed<C: CharacterModel>(
    rng: &mut StdRng,
    ch: &C,
    max_weight: Fixed,
    prefix_order: &Vec<usize>,
    seen: &BestSeen,
    fallback: &C::Config,
) -> (r: (PrefixWeights, C::Config))
    requires
        ch.wf(),
        fallback.wf(),
        ch.config_valid(fallback),
        0 <= max_weight.raw,
        0 < prefix_order@.len(),
        forall|p: int| 0 <= p < prefix_order@.len() ==> (#[trigger] prefix_order@[p])
            < prefix_order@.len(),
        seen.fits(prefix_order@.len() as int, fallback),
    ensures
        r.0@.len() == prefix_order@.len(),
        within_budget(r.0@, max_weight),
        r.1.wf(),
        r.1.arity() == fallback.arity(),
        ch.config_valid(&r.1),
{
    let n = prefix_order.len();
    let pi = pick(rng, prefix_order);
    let pj = pick(rng, prefix_order);
    // At least half of the budget, and less than all of it.
    let c = Fixed { raw: 500_000 + random_below(rng, 500_000) as i64 };
    let pw0 = seed_weights(n, max_weight, pi, pj, c);
    let num_fields = fallback.num_fields();
    let mut picks: Vec<u16> = Vec::new();
    let mut fi: usize = 0;
    while fi < num_fields
        invariant
            fallback.wf(),
            num_fields == fallback.arity().len(),
            fi <= num_fields,
            picks@.len() == fi,
            forall|i: int| 0 <= i < picks@.len() ==> (#[trigger] picks@[i]) < fallback.arity()[i],
            seen.fits(prefix_order@.len() as int, fallback),
        decreases num_fields - fi,
    {
        let order = best_first(&seen.for_field_value[fi]);
        let x = pick(rng, &order);
        picks.push(x as u16);
        fi += 1;
    }
    let cfg = seed_config(ch, fallback, &picks);
    (pw0, cfg)
}

/// The two parts into which a fraction splits a weight do not exceed the weight.
pub proof fn lemma_split(w: Fixed, c: Fixed)
    requires
        0 <= w.raw,
        0 <= c.raw <= SCALE,
    ensures
        w.mul(c).raw + w.mul(Fixed::one().sub(c)).raw <= w.raw,
{
    let a = (w.raw * c.raw) / 1_000_000;
    let b = (w.raw * (1_000_000 - c.raw)) / 1_000_000;
    assert(a + b <= w.raw) by (nonlinear_arith)
        requires
            0 <= w.raw,
            0 <= c.raw <= 1_000_000,
            a == (w.raw * c.raw) / 1_000_000,
            b == (w.raw * (1_000_000 - c.raw)) / 1_000_000,
    ;
    lemma_fraction_of(w, c);
    lemma_fraction_of(w, Fixed::one().sub(c));
}

/// The state `(pw, cfg)` is an outcome of randomized multi-start that scores `m`.
///
/// It is the state without any weight and `m` is the starting objective, or `m` is its
/// objective and better than the starting one.  And `m` beats every search of the first
/// phase: those from the seed of each prefix, with a share of the budget held on the prefix,
/// and those from the seeds of each field, with the field held.
pub open spec fn is_multi_start_outcome<C: CharacterModel>(
    ch: &C,
    catalog: &Catalog,
    max_weight: Fixed,
    cfg0: C::Config,
    pw: Seq<Fixed>,
    cfg: C::Config,
    m: Fixed,
) -> bool {
    let n = catalog.prefixes@.len() as usize;
    &&& {
        ||| m == worst_objective() && pw == spec_zero_weights(n) && cfg == cfg0
        ||| m.raw < worst_objective().raw && m == coarse_objective(ch, catalog, pw, cfg)
    }
    &&& beats_scan(
        ch,
        catalog,
        max_weight,
        cfg0,
        Some(prefix_hold_factor().mul(max_weight)),
        m,
        n as int,
        cfg0.arity().len() as int,
    )
}

/// The objective `m` beats the searches from each of the seeds `seeds`: each seed is a state
/// within the budget with a valid configuration, and what a local search reaches from it is
/// no better than `m`.
pub open spec fn beats_seeds<C: CharacterModel>(
    ch: &C,
    catalog: &Catalog,
    max_weight: Fixed,
    m: Fixed,
    seeds: Seq<(Seq<Fixed>, C::Config)>,
) -> bool {
    forall|i: int|
        0 <= i < seeds.len() ==> {
            let found = search_result(
                ch,
                catalog,
                max_weight,
                Hold::Nothing,
                ROUNDS as nat,
                (#[trigger] seeds[i]).0,
                seeds[i].1,
            );
            &&& within_budget(seeds[i].0, max_weight)
            &&& ch.config_valid(&seeds[i].1)
            &&& m.raw <= coarse_objective(ch, catalog, found.0, found.1).raw
        }
}

/// What beats the searches from seeds keeps beating them as the best improves.
pub proof fn lemma_seeds_kept<C: CharacterModel>(
    ch: &C,
    catalog: &Catalog,
    max_weight: Fixed,
    m: Fixed,
    better: Fixed,
    seeds: Seq<(Seq<Fixed>, C::Config)>,
)
    requires
        better.raw <= m.raw,
        beats_seeds(ch, catalog, max_weight, m, seeds),
    ensures
        beats_seeds(ch, catalog, max_weight, better, seeds),
{
    assert forall|i: int| 0 <= i < seeds.len() implies {
        let found = search_result(
            ch,
            catalog,
            max_weight,
            Hold::Nothing,
            ROUNDS as nat,
            (#[trigger] seeds[i]).0,
            seeds[i].1,
        );
        &&& within_budget(seeds[i].0, max_weight)
        &&& ch.config_valid(&seeds[i].1)
        &&& better.raw <= coarse_objective(ch, catalog, found.0, found.1).raw
    } by {
        let found = search_result(
            ch,
            catalog,
            max_weight,
            Hold::Nothing,
            ROUNDS as nat,
            seeds[i].0,
            seeds[i].1,
        );
        assert(m.raw <= coarse_objective(ch, catalog, found.0, found.1).raw);
    }
}

/// The state `(pw, cfg)` with the objective `m` is what randomized multi-start makes of its
/// first phase and of the `n` seeds `seeds` of its second phase: `m` beats every search of
/// the first phase, and the search from every seed of the second.
pub open spec fn is_multi_start_of<C: CharacterModel>(
    ch: &C,
    catalog: &Catalog,
    max_weight: Fixed,
    cfg0: C::Config,
    n: nat,
    pw: Seq<Fixed>,
    cfg: C::Config,
    m: Fixed,
    seeds: Seq<(Seq<Fixed>, C::Config)>,
) -> bool {
    &&& is_multi_start_outcome(ch, catalog, max_weight, cfg0, pw, cfg, m)
    &&& seeds.len() == n
    &&& beats_seeds(ch, catalog, max_weight, m, seeds)
}

/// Finds weights and a configuration by randomized multi-start.
///
/// A first phase searches locally from one seed for each prefix, holding a share of the
/// budget on it, and from one seed for each valid value of each field of the configuration,
/// holding the field.  Then, `iter_limit` times over, a search starts from a random seed that
/// favours the prefixes and values with which the searches so far have seen the best
/// objectives, and five more searches start from its outcome with a random share of the budget
/// moved to a random prefix and held there.  The best outcome is returned.
pub fn optimize_coarse_randomized<C: CharacterModel>(
    ch: &C,
    catalog: &Catalog,
    slots: &[(GearSlot, Quality)],
    cfg0: &C::Config,
    iter_limit: usize,
) -> (r: (PrefixWeights, C::Config))
    requires
        ch.wf(),
        cfg0.wf(),
        catalog.wf(),
        ch.config_valid(cfg0),
        spec_calc_max_weight(catalog, slots@).raw >= 0,
    ensures
        is_restart_outcome(ch, catalog, *cfg0, r.0@, r.1),
        exists|m: Fixed| #[trigger]
            is_multi_start_outcome(
                ch,
                catalog,
                spec_calc_max_weight(catalog, slots@),
                *cfg0,
                r.0@,
                r.1,
                m,
            ),
        exists|m: Fixed, seeds: Seq<(Seq<Fixed>, C::Config)>| #[trigger]
            is_multi_start_of(
                ch,
                catalog,
                spec_calc_max_weight(catalog, slots@),
                *cfg0,
                iter_limit as nat,
                r.0@,
                r.1,
                m,
                seeds,
            ),
        within_budget(r.0@, spec_calc_max_weight(catalog, slots@)),
        r.0@.len() == catalog.prefixes@.len(),
        r.1.wf(),
        r.1.arity() == cfg0.arity(),
        ch.config_valid(&r.1),
{
    let max_weight = calc_max_weight(catalog, slots);
    let n = catalog.prefixes.len();
    proof {
        lemma_zero_weights(n);
    }
    let mut best = Best { pw: zero_weights(n), cfg: *cfg0, m: worst_objective() };
    let mut seen = BestSeen::new(n, cfg0);
    let held = prefix_hold_factor().mul(max_weight);
    proof {
        lemma_fraction_of(max_weight, prefix_hold_factor());
        assert(held.raw == max_weight.mul(prefix_hold_factor()).raw) by {
            assert(prefix_hold_factor().raw * max_weight.raw == max_weight.raw
                * prefix_hold_factor().raw) by (nonlinear_arith);
        }
    }

    // First phase: one search for each prefix.
    let mut i: usize = 0;
    while i < n
        invariant
            ch.wf(),
            cfg0.wf(),
            ch.config_valid(cfg0),
            n == catalog.prefixes@.len(),
            i <= n,
            0 <= held.raw <= max_weight.raw,
            held == prefix_hold_factor().mul(max_weight),
            holds_best(ch, catalog, max_weight, *cfg0, &best),
            seen.fits(n as int, cfg0),
            beats_scan(ch, catalog, max_weight, *cfg0, Some(held), best.m, i as int, 0),
        decreases n - i,
    {
        let mut pw0 = zero_weights(n);
        pw0[i] = max_weight;
        proof {
            assert(pw0@ =~= single_seed(n, max_weight, i as int));
            lemma_single_seed(n, max_weight, i as int);
        }
        let ghost before = best.m;
        try_seed_ex(ch, catalog, max_weight, &mut best, &pw0, cfg0, Hold::Prefix(i, held), &mut seen);
        proof {
            lemma_scan_kept(
                ch,
                catalog,
                max_weight,
                *cfg0,
                Some(held),
                before,
                best.m,
                i as int,
                0,
            );
        }
        i += 1;
    }

    // First phase: one search for each valid value of each field.
    let num_fields = cfg0.num_fields();
    let mut field: usize = 0;
    while field < num_fields
        invariant
            ch.wf(),
            cfg0.wf(),
            ch.config_valid(cfg0),
            n == catalog.prefixes@.len(),
            num_fields == cfg0.arity().len(),
            field <= num_fields,
            0 <= max_weight.raw,
            holds_best(ch, catalog, max_weight, *cfg0, &best),
            seen.fits(n as int, cfg0),
            beats_scan(ch, catalog, max_weight, *cfg0, Some(held), best.m, n as int, field as int),
        decreases num_fields - field,
    {
        let count = cfg0.num_field_values(field);
        let mut value: u16 = 0;
        while value < count
            invariant
                ch.wf(),
                cfg0.wf(),
                ch.config_valid(cfg0),
                n == catalog.prefixes@.len(),
                num_fields == cfg0.arity().len(),
                field < num_fields,
                count == cfg0.arity()[field as int],
                value <= count,
                0 <= max_weight.raw,
                holds_best(ch, catalog, max_weight, *cfg0, &best),
                seen.fits(n as int, cfg0),
                beats_scan(ch, catalog, max_weight, *cfg0, Some(held), best.m, n as int, field as int),
                beats_scan_values(
                    ch,
                    catalog,
                    max_weight,
                    *cfg0,
                    Some(held),
                    best.m,
                    field,
                    value as int,
                ),
            decreases count - value,
        {
            let pw0 = zero_weights(n);
            proof {
                lemma_zero_weights(n);
            }
            let mut seed_cfg = *cfg0;
            seed_cfg.set_field(field, value);
            let ghost before = best.m;
            let valid = ch.is_config_valid(&seed_cfg);
            if valid {
                proof {
                    assert(seen.fits(n as int, &seed_cfg));
                }
                try_seed_ex(
                    ch,
                    catalog,
                    max_weight,
                    &mut best,
                    &pw0,
                    &seed_cfg,
                    Hold::Field(field),
                    &mut seen,
                );
                proof {
                    assert(seen.fits(n as int, cfg0));
                }
            }
            proof {
                assert(seed_cfg == cfg0.with_field(field as int, value));
                lemma_scan_kept(
                    ch,
                    catalog,
                    max_weight,
                    *cfg0,
                    Some(held),
                    before,
                    best.m,
                    n as int,
                    field as int,
                );
                lemma_scan_values_kept(
                    ch,
                    catalog,
                    max_weight,
                    *cfg0,
                    Some(held),
                    before,
                    best.m,
                    field,
                    value as int,
                );
            }
            value += 1;
        }
        field += 1;
    }

    // Second phase: searches from random seeds.
    let mut rng = seeded(SEED);
    let ghost mut seeds: Seq<(Seq<Fixed>, C::Config)> = Seq::empty();
    let mut iteration: usize = 0;
    while iteration < iter_limit
        invariant
            iteration <= iter_limit,
            seeds.len() == iteration,
            beats_seeds(ch, catalog, max_weight, best.m, seeds),
            ch.wf(),
            cfg0.wf(),
            ch.config_valid(cfg0),
            n == catalog.prefixes@.len(),
            n > 0,
            0 <= max_weight.raw,
            holds_best(ch, catalog, max_weight, *cfg0, &best),
            seen.fits(n as int, cfg0),
            beats_scan(
                ch,
                catalog,
                max_weight,
                *cfg0,
                Some(held),
                best.m,
                n as int,
                cfg0.arity().len() as int,
            ),
        decreases iter_limit - iteration,
    {
        let prefix_order = best_first(&seen.for_prefix);
        let ghost before = best.m;
        let (pw0, seed_cfg) = random_seed(&mut rng, ch, max_weight, &prefix_order, &seen, cfg0);
        proof {
            assert(seen.fits(n as int, &seed_cfg));
        }
        let (pw, cfg) = try_seed_ex(
            ch,
            catalog,
            max_weight,
            &mut best,
            &pw0,
            &seed_cfg,
            Hold::Nothing,
            &mut seen,
        );
        let ghost after_seed = best.m;
        proof {
            assert(seen.fits(n as int, cfg0));
            assert(after_seed.raw <= coarse_objective(ch, catalog, pw@, cfg).raw);
        }

        let mut subiter: usize = 0;
        while subiter < 5
            invariant
                ch.wf(),
                cfg0.wf(),
                n == catalog.prefixes@.len(),
                n > 0,
                subiter <= 5,
                0 <= max_weight.raw,
                prefix_order@.len() == n,
                forall|p: int| 0 <= p < n ==> (#[trigger] prefix_order@[p]) < n,
                pw@.len() == n,
                within_budget(pw@, max_weight),
                cfg.wf(),
                cfg.arity() == cfg0.arity(),
                ch.config_valid(&cfg),
                holds_best(ch, catalog, max_weight, *cfg0, &best),
                seen.fits(n as int, cfg0),
                best.m.raw <= before.raw,
                best.m.raw <= after_seed.raw,
            decreases 5 - subiter,
        {
            let mut alt_pw0 = copy_weights(&pw);
            let pi = pick(&mut rng, &prefix_order);
            // Less than a quarter of the budget.
            let c = Fixed { raw: random_below(&mut rng, 250_000) as i64 };
            proof {
                lemma_increased_within_budget(pw@, max_weight, pi as int, c);
                lemma_fraction_of(max_weight, c);
                assert(c.mul(max_weight).raw == max_weight.mul(c).raw) by {
                    assert(c.raw * max_weight.raw == max_weight.raw * c.raw) by (nonlinear_arith);
                }
                assert(seen.fits(n as int, &cfg));
            }
            increase_prefix_weight(&mut alt_pw0, max_weight, pi, c);
            try_seed_ex(
                ch,
                catalog,
                max_weight,
                &mut best,
                &alt_pw0,
                &cfg,
                Hold::Prefix(pi, c.mul(max_weight)),
                &mut seen,
            );
            proof {
                assert(seen.fits(n as int, cfg0));
            }
            subiter += 1;
        }
        proof {
            lemma_scan_kept(
                ch,
                catalog,
                max_weight,
                *cfg0,
                Some(held),
                before,
                best.m,
                n as int,
                cfg0.arity().len() as int,
            );
            lemma_seeds_kept(ch, catalog, max_weight, before, best.m, seeds);
            let longer = seeds.push((pw0@, seed_cfg));
            assert forall|i: int| 0 <= i < longer.len() implies {
                let found = search_result(
                    ch,
                    catalog,
                    max_weight,
                    Hold::Nothing,
                    ROUNDS as nat,
                    (#[trigger] longer[i]).0,
                    longer[i].1,
                );
                &&& within_budget(longer[i].0, max_weight)
                &&& ch.config_valid(&longer[i].1)
                &&& best.m.raw <= coarse_objective(ch, catalog, found.0, found.1).raw
            } by {
                if i < seeds.len() {
                    assert(longer[i] == seeds[i]);
                }
            }
            seeds = longer;
        }
        iteration += 1;
    }
    let ghost m = best.m;
    let r = (best.pw, best.cfg);
    assert(is_multi_start_outcome(ch, catalog, max_weight, *cfg0, r.0@, r.1, m));
    assert(is_multi_start_of(
        ch,
        catalog,
        max_weight,
        *cfg0,
        iter_limit as nat,
        r.0@,
        r.1,
        m,
        seeds,
    ));
    r
}

} // verus!
