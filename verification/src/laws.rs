//! What holds of every state of an optimizer, proved over the model.

use crate::donors::donors;
use crate::donors::donors_apart;
use crate::donors::lemma_donors_apart;
use crate::donors::raw_draws;
use crate::fixed::mutation;
use crate::model::adopts;
use crate::model::mutant_coordinate;
use crate::model::offspring_of;
use crate::model::Config;
use crate::model::Member;
use crate::model::SlotDraws;
use crate::model::State;
use crate::population::costs_are_true;
use crate::population::is_step;
use crate::population::may_cost;
use vstd::prelude::*;

verus! {

/// A freshly constructed optimizer is in a well-formed state, with every
/// position inside the search box and every control parameter inside its
/// interval.
pub proof fn lemma_initial_state(s: State, cfg: Config)
    requires
        cfg.valid(),
        s.initial(cfg),
    ensures
        s.wf(cfg),
        forall|i: int, d: int|
            0 <= i < cfg.pop_size && 0 <= d < cfg.dim() ==> cfg.bounds[d].0 <= (
            #[trigger] s.curr[i].pos[d]) < cfg.bounds[d].1,
        forall|i: int| 0 <= i < cfg.pop_size ==> cfg.tuned(#[trigger] s.curr[i]),
{
    assert forall|i: int, d: int| 0 <= i < cfg.pop_size && 0 <= d < cfg.dim() implies cfg.bounds[d].0
        <= (#[trigger] s.curr[i].pos[d]) < cfg.bounds[d].1 by {
        assert(cfg.boxed(s.curr[i]));
    }
    assert forall|i: int| 0 <= i < s.curr.len() implies (#[trigger] s.curr[i]).pos.len()
        == cfg.dim() by {
        assert(cfg.boxed(s.curr[i]));
    }
}

/// A freshly constructed optimizer is determined by its settings and by
/// the members that were drawn for it.
pub proof fn lemma_initial_state_is_determined(a: State, b: State, cfg: Config)
    requires
        a.initial(cfg),
        b.initial(cfg),
        a.curr == b.curr,
    ensures
        a == b,
{
}

/// Recording a cost keeps the state well-formed.
pub proof fn lemma_record_keeps_wf(s: State, cfg: Config, cost: i64)
    requires
        s.wf(cfg),
        s.countdown > 0,
    ensures
        s.record(cost).wf(cfg),
{
    let t = s.record(cost);
    let i = s.next_slot();
    assert forall|j: int| 0 <= j < t.curr.len() && (#[trigger] t.curr[j]).cost is Some implies t.bounded_below(
        t.curr[j],
    ) by {
        if j != i {
            assert(t.curr[j] == s.curr[j]);
            assert(s.bounded_below(s.curr[j]));
        }
    }
    assert forall|j: int| 0 <= j < t.best.len() && (#[trigger] t.best[j]).cost is Some implies t.bounded_below(
        t.best[j],
    ) by {
        assert(s.bounded_below(s.best[j]));
    }
    assert forall|j: int| 0 <= j < t.curr.len() implies cfg.tuned(#[trigger] t.curr[j]) by {
        assert(cfg.tuned(s.curr[j]));
    }
    assert forall|j: int| 0 <= j < t.curr.len() implies (#[trigger] t.curr[j]).pos.len()
        == cfg.dim() by {
        assert(s.curr[j].pos.len() == cfg.dim());
    }
    assert forall|j: int| 0 <= j < t.curr.len() implies ((#[trigger] t.curr[j]).cost is Some <==> j
        >= t.countdown) by {
        assert(s.curr[j].cost is Some <==> j >= s.countdown);
    }
    if t.best_idx != Some(i as nat) {
        let bi = s.best_idx.unwrap() as int;
        assert(t.best_idx == s.best_idx && t.best_cost == s.best_cost);
        if bi == i {
            assert(s.curr[i].cost is None);
            assert(s.attains(s.best[bi]));
        } else {
            assert(t.curr[bi] == s.curr[bi]);
        }
    }
}

/// The lowest cost seen so far never rises: after a cost is recorded it is
/// that cost or the lowest before, whichever is lower.
pub proof fn lemma_record_never_raises(s: State, cost: i64)
    ensures
        s.record(cost).best_cost is Some,
        s.record(cost).best_cost.unwrap() <= cost,
        s.best_cost is Some ==> s.record(cost).best_cost.unwrap() <= s.best_cost.unwrap(),
        s.record(cost).best_cost == Some(cost) || s.record(cost).best_cost == s.best_cost,
{
}

/// Evaluating the rest of a generation visits every slot that is left
/// exactly once, from the highest down, leaves the slots evaluated before
/// and every position alone, and ends with the lowest cost seen so far no
/// higher than any cost of the generation.
pub proof fn lemma_generation_visits_every_slot(s: State, cfg: Config, costs: Seq<i64>)
    requires
        s.wf(cfg),
        costs.len() == s.countdown,
    ensures
        s.record_all(costs).wf(cfg),
        s.record_all(costs).countdown == 0,
        s.record_all(costs).evaluations == s.evaluations + costs.len(),
        s.record_all(costs).best == s.best,
        forall|i: int|
            0 <= i < s.countdown ==> (#[trigger] s.record_all(costs).curr[i]).cost == Some(
                costs[s.countdown - 1 - i],
            ),
        forall|i: int| s.countdown <= i < cfg.pop_size ==> (#[trigger] s.record_all(costs).curr[i]) == s.curr[i],
        forall|i: int| 0 <= i < cfg.pop_size ==> (#[trigger] s.record_all(costs).curr[i]).pos == s.curr[i].pos,
        forall|k: int|
            0 <= k < costs.len() ==> s.record_all(costs).best_cost is Some && s.record_all(
                costs,
            ).best_cost.unwrap() <= #[trigger] costs[k],
    decreases costs.len(),
{
    if costs.len() > 0 {
        let first = s.record(costs[0]);
        let rest = costs.drop_first();
        let last = first.record_all(rest);
        lemma_record_keeps_wf(s, cfg, costs[0]);
        lemma_generation_visits_every_slot(first, cfg, rest);
        assert(last == s.record_all(costs));
        assert forall|i: int| 0 <= i < s.countdown implies (#[trigger] last.curr[i]).cost == Some(
            costs[s.countdown - 1 - i],
        ) by {
            if i < first.countdown {
                assert(rest[first.countdown - 1 - i] == costs[s.countdown - 1 - i]);
            } else {
                assert(last.curr[i] == first.curr[i]);
            }
        }
        assert forall|i: int| s.countdown <= i < cfg.pop_size implies (#[trigger] last.curr[i]) == s.curr[i] by {
            assert(last.curr[i] == first.curr[i]);
        }
        assert forall|i: int| 0 <= i < cfg.pop_size implies (#[trigger] last.curr[i]).pos == s.curr[i].pos by {
            assert(last.curr[i].pos == first.curr[i].pos);
        }
        assert forall|k: int| 0 <= k < costs.len() implies last.best_cost is Some && last.best_cost.unwrap()
            <= #[trigger] costs[k] by {
            let slot = s.countdown - 1 - k;
            assert(last.curr[slot].cost == Some(costs[s.countdown - 1 - slot]));
            assert(last.bounded_below(last.curr[slot]));
        }
    }
}

/// The lowest cost seen so far is never invented: after any run of
/// evaluations it is the one from before or one of the costs recorded.
pub proof fn lemma_best_cost_was_recorded(s: State, costs: Seq<i64>)
    ensures
        s.record_all(costs).best_cost == s.best_cost || exists|k: int|
            0 <= k < costs.len() && s.record_all(costs).best_cost == Some(#[trigger] costs[k]),
    decreases costs.len(),
{
    if costs.len() > 0 {
        let first = s.record(costs[0]);
        let rest = costs.drop_first();
        let last = first.record_all(rest);
        lemma_best_cost_was_recorded(first, rest);
        if last.best_cost == first.best_cost {
            if first.best_cost != s.best_cost {
                assert(last.best_cost == Some(costs[0]));
            }
        } else {
            let k = choose|k: int| 0 <= k < rest.len() && last.best_cost == Some(#[trigger] rest[k]);
            assert(last.best_cost == Some(costs[k + 1]));
        }
    }
}

/// An evolution step changes members only: the lowest cost seen so far, its
/// slot, the number of evaluations and the countdown stay as they were, and
/// breeding leaves the personal bests alone.
pub proof fn lemma_evolution_keeps_bookkeeping(s: State, cfg: Config, draws: Seq<SlotDraws>)
    ensures
        s.evolved(cfg, draws).best_cost == s.best_cost,
        s.evolved(cfg, draws).best_idx == s.best_idx,
        s.evolved(cfg, draws).evaluations == s.evaluations,
        s.evolved(cfg, draws).countdown == s.countdown,
        s.bred(cfg, draws).best == s.best,
        s.bred(cfg, draws).best_cost == s.best_cost,
        s.bred(cfg, draws).best_idx == s.best_idx,
        s.bred(cfg, draws).evaluations == s.evaluations,
        s.bred(cfg, draws).countdown == s.countdown,
{
}

/// Once a generation is evaluated in full, holding personal bests against
/// current members leaves every slot with the lower of its two costs as
/// personal best, the newer one on a tie.
pub proof fn lemma_adopted_keeps_lower(s: State, cfg: Config, i: int)
    requires
        s.wf(cfg),
        s.countdown == 0,
        0 <= i < cfg.pop_size,
    ensures
        s.adopted().best[i].cost is Some,
        s.adopted().best[i].cost.unwrap() <= s.curr[i].cost.unwrap(),
        s.best[i].cost is Some ==> s.adopted().best[i].cost.unwrap() <= s.best[i].cost.unwrap(),
        s.adopted().best[i] == s.curr[i] || s.adopted().best[i] == s.best[i],
        s.best[i].cost == s.curr[i].cost ==> s.adopted().best[i] == s.curr[i],
{
    assert(s.curr[i].cost is Some);
}

/// An evolution step followed by the restart of the countdown keeps the
/// state well-formed, and starts a generation in which no current member
/// has a cost.
pub proof fn lemma_evolved_keeps_wf(s: State, cfg: Config, draws: Seq<SlotDraws>)
    requires
        s.wf(cfg),
        s.countdown == 0,
        cfg.admits_all(draws),
    ensures
        s.evolved(cfg, draws).restarted().wf(cfg),
        s.evolved(cfg, draws).restarted().countdown == cfg.pop_size,
        forall|i: int| 0 <= i < cfg.pop_size ==> (#[trigger] s.evolved(cfg, draws).curr[i]).cost is None,
{
    let a = s.adopted();
    let t = s.evolved(cfg, draws).restarted();
    assert forall|i: int| 0 <= i < cfg.pop_size implies {
        &&& (#[trigger] a.best[i]).cost is Some
        &&& cfg.tuned(a.best[i])
        &&& a.best[i].pos.len() == cfg.dim()
        &&& a.bounded_below(a.best[i])
    } by {
        assert(s.curr[i].cost is Some);
        assert(cfg.tuned(s.curr[i]));
        assert(s.curr[i].pos.len() == cfg.dim());
        assert(s.best[i].pos.len() == cfg.dim());
        assert(s.bounded_below(s.curr[i]));
        if !adopts(s.curr[i], s.best[i]) {
            assert(s.best[i].cost is Some);
            assert(cfg.tuned(s.best[i]));
            assert(s.bounded_below(s.best[i]));
        }
    }
    assert(t.best == a.best);
    assert forall|i: int| 0 <= i < t.curr.len() implies cfg.tuned(#[trigger] t.curr[i]) by {
        assert(cfg.admits(draws[i]));
        assert(cfg.tuned(a.best[i]));
    }
    assert forall|i: int| 0 <= i < t.best.len() && (#[trigger] t.best[i]).cost is Some implies t.bounded_below(
        t.best[i],
    ) && cfg.tuned(t.best[i]) by {
        assert(a.bounded_below(a.best[i]));
        assert(cfg.tuned(a.best[i]));
    }
    assert forall|i: int| 0 <= i < t.curr.len() implies (#[trigger] t.curr[i]).pos.len()
        == cfg.dim() by {
        assert(a.best[i].pos.len() == cfg.dim());
    }
    assert forall|i: int| 0 <= i < t.best.len() implies (#[trigger] t.best[i]).pos.len()
        == cfg.dim() by {
        assert(a.best[i].pos.len() == cfg.dim());
    }
    if s.best_idx is Some {
        let bi = s.best_idx.unwrap() as int;
        assert(s.curr[bi].cost is Some);
        assert(s.bounded_below(s.curr[bi]));
        if s.best[bi].cost is Some {
            assert(s.bounded_below(s.best[bi]));
        }
        assert(t.attains(t.best[bi]));
    }
}

/// In the forced dimension the offspring always holds the mutant's
/// coordinate, whatever the crossover rate and the crossover rolls are, and
/// the mutant is built from donors that are as distinct as the population
/// allows.
pub proof fn lemma_forced_dimension_mutates(
    best: Seq<Member>,
    i: int,
    d: SlotDraws,
    cr_change: i64,
    f_change: i64,
)
    requires
        0 <= i < best.len(),
        raw_draws(d.first, d.second, d.third, best.len() as int),
        0 <= d.forced < best[i].pos.len(),
    ensures
        offspring_of(best, i, d, cr_change, f_change).pos[d.forced] == mutation(
            best[donors(d.first, d.second, d.third, best.len() as int).0].pos[d.forced],
            best[donors(d.first, d.second, d.third, best.len() as int).1].pos[d.forced],
            best[donors(d.first, d.second, d.third, best.len() as int).2].pos[d.forced],
            offspring_of(best, i, d, cr_change, f_change).f,
        ),
        donors_apart(
            donors(d.first, d.second, d.third, best.len() as int).0,
            donors(d.first, d.second, d.third, best.len() as int).1,
            donors(d.first, d.second, d.third, best.len() as int).2,
            best.len() as int,
        ),
{
    lemma_donors_apart(d.first, d.second, d.third, best.len() as int);
}

/// The offspring differs from its parent in the forced dimension, and so as
/// a position, unless the mutant hits the parent's own coordinate there.
pub proof fn lemma_offspring_differs_from_parent(
    best: Seq<Member>,
    i: int,
    d: SlotDraws,
    cr_change: i64,
    f_change: i64,
)
    requires
        0 <= i < best.len(),
        0 <= d.forced < best[i].pos.len(),
        mutant_coordinate(best, d, d.forced, offspring_of(best, i, d, cr_change, f_change).f)
            != best[i].pos[d.forced],
    ensures
        offspring_of(best, i, d, cr_change, f_change).pos[d.forced] != best[i].pos[d.forced],
        offspring_of(best, i, d, cr_change, f_change).pos != best[i].pos,
{
}

/// In a population of one slot the three donors are that slot, so the
/// offspring is well defined and keeps the position of its parent.
pub proof fn lemma_single_slot_offspring(best: Seq<Member>, d: SlotDraws, cr_change: i64, f_change: i64)
    requires
        best.len() == 1,
        raw_draws(d.first, d.second, d.third, 1),
    ensures
        donors(d.first, d.second, d.third, 1) == (0int, 0int, 0int),
        offspring_of(best, 0, d, cr_change, f_change).pos == best[0].pos,
        offspring_of(best, 0, d, cr_change, f_change).cost is None,
{
    let kid = offspring_of(best, 0, d, cr_change, f_change);
    assert forall|k: int| 0 <= k < kid.pos.len() implies kid.pos[k] == best[0].pos[k] by {
        assert((kid.f as int) * (best[0].pos[k] - best[0].pos[k]) == 0) by (nonlinear_arith);
        assert(mutant_coordinate(best, d, k, kid.f) == best[0].pos[k]);
    }
    assert(kid.pos =~= best[0].pos);
}

/// Every coordinate of an offspring is the parent's or the mutant's, its
/// control parameters are the parent's or the fresh ones, and it has no
/// cost.
pub proof fn lemma_offspring_coordinates(
    best: Seq<Member>,
    i: int,
    d: SlotDraws,
    cr_change: i64,
    f_change: i64,
    k: int,
)
    requires
        0 <= i < best.len(),
        0 <= k < best[i].pos.len(),
    ensures
        offspring_of(best, i, d, cr_change, f_change).pos.len() == best[i].pos.len(),
        offspring_of(best, i, d, cr_change, f_change).pos[k] == best[i].pos[k] || offspring_of(
            best,
            i,
            d,
            cr_change,
            f_change,
        ).pos[k] == mutant_coordinate(best, d, k, offspring_of(best, i, d, cr_change, f_change).f),
        offspring_of(best, i, d, cr_change, f_change).cr == best[i].cr || offspring_of(
            best,
            i,
            d,
            cr_change,
            f_change,
        ).cr == d.cr_fresh,
        offspring_of(best, i, d, cr_change, f_change).f == best[i].f || offspring_of(
            best,
            i,
            d,
            cr_change,
            f_change,
        ).f == d.f_fresh,
        offspring_of(best, i, d, cr_change, f_change).cost is None,
{
}

/// Breeding through the settings is breeding with their two probabilities
/// of change, so what holds of every offspring holds in every evolution
/// step.
pub proof fn lemma_offspring_of_settings(cfg: Config, best: Seq<Member>, i: int, d: SlotDraws)
    ensures
        cfg.offspring(best, i, d) == offspring_of(best, i, d, cfg.cr_change, cfg.f_change),
        cfg.admits(d) ==> raw_draws(d.first, d.second, d.third, cfg.pop_size as int) && 0 <= d.forced
            < cfg.dim(),
{
}

/// In a well-formed state the best solution is absent exactly until the
/// first evaluation, and its cost is the lowest cost seen so far.
pub proof fn lemma_solution_attains_best_cost(s: State, cfg: Config)
    requires
        s.wf(cfg),
    ensures
        s.solution() is Some <==> s.evaluations > 0,
        s.solution() is Some ==> Some(s.solution().unwrap().0) == s.best_cost,
        s.solution() is Some ==> s.solution().unwrap().1.len() == cfg.dim(),
{
    if s.best_idx is Some {
        let bi = s.best_idx.unwrap() as int;
        if s.curr[bi].cost is Some {
            assert(s.bounded_below(s.curr[bi]));
        }
        if s.best[bi].cost is Some {
            assert(s.bounded_below(s.best[bi]));
        }
        assert(s.curr[bi].pos.len() == cfg.dim());
        assert(s.best[bi].pos.len() == cfg.dim());
    }
}

/// The best solution is a function of the state alone: two optimizers in
/// the same state, and so one optimizer asked twice, give the same answer.
pub proof fn lemma_solution_is_stable(a: State, b: State)
    requires
        a.curr =~= b.curr,
        a.best =~= b.best,
        a.best_idx == b.best_idx,
    ensures
        a.solution() == b.solution(),
{
}

/// One evaluation is a function of the state, of the draws and of the cost:
/// two optimizers in the same state that are handed the same draws and the
/// same cost evaluate the same position and are in the same state
/// afterwards. So two optimizers that are built alike and fed alike go
/// through the same states for as long as they run.
pub proof fn lemma_step_is_deterministic<F>(
    f: F,
    cfg: Config,
    a: State,
    b: State,
    draws: Seq<SlotDraws>,
    cost: i64,
    a_next: State,
    b_next: State,
) where F: Fn(&[i64]) -> i64
    requires
        a == b,
        is_step(f, cfg, a, draws, cost, a_next),
        is_step(f, cfg, b, draws, cost, b_next),
    ensures
        a.prepared(cfg, draws).curr[a.prepared(cfg, draws).next_slot()].pos == b.prepared(cfg, draws).curr[b.prepared(
            cfg,
            draws,
        ).next_slot()].pos,
        a_next == b_next,
{
}

/// The lowest cost seen so far never rises from one evaluation to the next,
/// whether or not an evolution step falls in between.
pub proof fn lemma_step_never_raises<F>(
    f: F,
    cfg: Config,
    before: State,
    draws: Seq<SlotDraws>,
    cost: i64,
    after: State,
) where F: Fn(&[i64]) -> i64
    requires
        is_step(f, cfg, before, draws, cost, after),
    ensures
        after.best_cost is Some,
        after.best_cost.unwrap() <= cost,
        before.best_cost is Some ==> after.best_cost.unwrap() <= before.best_cost.unwrap(),
        after.evaluations == before.evaluations + 1,
{
}

/// With a cost function that returns `k` on every position, the lowest cost
/// seen so far is `k` after every evaluation.
pub proof fn lemma_constant_cost_is_best<F>(
    f: F,
    cfg: Config,
    before: State,
    draws: Seq<SlotDraws>,
    cost: i64,
    after: State,
    k: i64,
) where F: Fn(&[i64]) -> i64
    requires
        forall|p: &[i64], c: i64| call_ensures(f, (p,), c) ==> c == k,
        before.best_cost is Some ==> before.best_cost == Some(k),
        is_step(f, cfg, before, draws, cost, after),
    ensures
        after.best_cost == Some(k),
{
}

/// One evaluation keeps every cost true to its position: the evolution step
/// moves members whole and breeds offspring without a cost, and the cost
/// recorded is one that the cost function returned at the position
/// evaluated.
pub proof fn lemma_step_keeps_costs<F>(
    f: F,
    cfg: Config,
    before: State,
    draws: Seq<SlotDraws>,
    cost: i64,
    after: State,
) where F: Fn(&[i64]) -> i64
    requires
        cfg.valid(),
        before.wf(cfg),
        costs_are_true(f, before),
        is_step(f, cfg, before, draws, cost, after),
    ensures
        costs_are_true(f, after),
{
    let ready = before.prepared(cfg, draws);
    if before.countdown == 0 {
        lemma_evolved_keeps_wf(before, cfg, draws);
        let a = before.adopted();
        assert forall|i: int| 0 <= i < ready.best.len() && (#[trigger] ready.best[i]).cost is Some implies may_cost(
            f,
            ready.best[i].pos,
            ready.best[i].cost.unwrap(),
        ) by {
            assert(ready.best[i] == a.best[i]);
            if adopts(before.curr[i], before.best[i]) {
                assert(a.best[i] == before.curr[i]);
            } else {
                assert(a.best[i] == before.best[i]);
            }
        }
        assert forall|i: int| 0 <= i < ready.curr.len() implies (#[trigger] ready.curr[i]).cost is None by {
            assert(ready.curr[i] == cfg.offspring(a.best, i, draws[i]));
        }
    }
    assert(costs_are_true(f, ready));
    let slot = ready.next_slot();
    assert forall|i: int| 0 <= i < after.curr.len() && (#[trigger] after.curr[i]).cost is Some implies may_cost(
        f,
        after.curr[i].pos,
        after.curr[i].cost.unwrap(),
    ) by {
        if i != slot {
            assert(after.curr[i] == ready.curr[i]);
        }
    }
}

/// In a well-formed state whose costs are true to their positions, the cost
/// of the best solution is one that the cost function returned at the
/// position of the best solution.
pub proof fn lemma_solution_is_true<F>(f: F, s: State, cfg: Config) where F: Fn(&[i64]) -> i64
    requires
        s.wf(cfg),
        costs_are_true(f, s),
        s.solution() is Some,
    ensures
        may_cost(f, s.solution().unwrap().1, s.solution().unwrap().0),
{
    let bi = s.best_idx.unwrap() as int;
    assert(s.attains(s.curr[bi]) || s.attains(s.best[bi]));
}

/// One evaluation keeps the state well-formed.
pub proof fn lemma_step_keeps_wf<F>(
    f: F,
    cfg: Config,
    before: State,
    draws: Seq<SlotDraws>,
    cost: i64,
    after: State,
) where F: Fn(&[i64]) -> i64
    requires
        cfg.valid(),
        before.wf(cfg),
        is_step(f, cfg, before, draws, cost, after),
    ensures
        after.wf(cfg),
{
    if before.countdown == 0 {
        lemma_evolved_keeps_wf(before, cfg, draws);
    }
    lemma_record_keeps_wf(before.prepared(cfg, draws), cfg, cost);
}

} // verus!
