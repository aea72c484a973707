//! The population: its store, the evaluation driver, the evolution step and
//! the query for the best solution.

use crate::breeding::breed;
use crate::breeding::members;
use crate::breeding::Draws;
use crate::breeding::Individual;
use crate::fixed::ONE;
use crate::fixed::TENTH;
use crate::laws::lemma_evolved_keeps_wf;
use crate::laws::lemma_initial_state;
use crate::laws::lemma_record_keeps_wf;
use crate::laws::lemma_solution_attains_best_cost;
use crate::laws::lemma_step_keeps_costs;
use crate::model::blank;
use crate::model::Config;
use crate::model::SlotDraws;
use crate::model::State;
use crate::random::sample_unit;
use crate::random::Sampler;
use crate::settings::Settings;
use rand::XorShiftRng;
use vstd::prelude::*;

verus! {

/// Creates the individual that stands in a slot before anything is drawn.
fn blank_individual(dim: usize) -> (r: Individual)
    ensures
        r@ == blank(dim as nat),
{
    let mut pos: Vec<i64> = Vec::new();
    let mut d: usize = 0;
    while d < dim
        invariant
            d <= dim,
            pos.len() == d,
            forall|k: int| 0 <= k < d ==> pos[k] == 0,
        decreases dim - d,
    {
        pos.push(0);
        d += 1;
    }
    assert(pos@ =~= blank(dim as nat).pos);
    Individual { pos, cost: None, cr: 0, f: 0 }
}

/// Draws an individual from the search box, with control parameters from
/// their intervals.
fn random_individual<F, R>(settings: &mut Settings<F, R>) -> (r: Individual) where
    F: Fn(&[i64]) -> i64,
    R: Sampler,

    requires
        old(settings).config().valid(),
    ensures
        final(settings).config() == old(settings).config(),
        final(settings).cost_function == old(settings).cost_function,
        old(settings).config().boxed(r@),
        old(settings).config().tuned(r@),
        r@.cost is None,
{
    let cr: i64 = settings.rng.sample_between(settings.cr_min_max.0, settings.cr_min_max.1);
    let f: i64 = settings.rng.sample_between(settings.f_min_max.0, settings.f_min_max.1);
    let dim: usize = settings.min_max_pos.len();
    let mut pos: Vec<i64> = Vec::new();
    let mut d: usize = 0;
    while d < dim
        invariant
            settings.config() == old(settings).config(),
            settings.cost_function == old(settings).cost_function,
            settings.config().valid(),
            dim == settings.min_max_pos.len(),
            d <= dim,
            pos.len() == d,
            forall|k: int|
                0 <= k < d ==> settings.min_max_pos[k].0 <= (#[trigger] pos[k]) < settings.min_max_pos[k].1,
        decreases dim - d,
    {
        let low: i64 = settings.min_max_pos[d].0;
        let high: i64 = settings.min_max_pos[d].1;
        assert(settings.config().bounds[d as int].0 < settings.config().bounds[d as int].1);
        let x: i64 = settings.rng.sample_between(low, high);
        pos.push(x);
        d += 1;
    }
    Individual { pos, cost: None, cr, f }
}

/// Makes the draws that breeding one offspring consumes: three donors, the
/// rolls for the control parameters with a fresh value where the roll asks
/// for one, the forced dimension, and a crossover roll for every other
/// dimension.
fn draw_for_slot<F, R>(settings: &mut Settings<F, R>) -> (draws: Draws) where
    F: Fn(&[i64]) -> i64,
    R: Sampler,

    requires
        old(settings).config().valid(),
    ensures
        final(settings).config() == old(settings).config(),
        final(settings).cost_function == old(settings).cost_function,
        old(settings).config().admits(draws@),
{
    let ghost cfg = settings.config();
    let n: usize = settings.pop_size;
    let dim: usize = settings.min_max_pos.len();

    // sample three different individuals
    let first: usize = settings.rng.sample_index(n);
    let second: usize = if n >= 2 {
        settings.rng.sample_index(n - 1)
    } else {
        0
    };
    let third: usize = if n >= 3 {
        settings.rng.sample_index(n - 2)
    } else {
        settings.rng.sample_index(n)
    };

    let cr_roll: i64 = sample_unit(&mut settings.rng);
    let cr_fresh: i64 = if cr_roll < settings.cr_change_probability {
        settings.rng.sample_between(settings.cr_min_max.0, settings.cr_min_max.1)
    } else {
        settings.cr_min_max.0
    };
    let f_roll: i64 = sample_unit(&mut settings.rng);
    let f_fresh: i64 = if f_roll < settings.f_change_probability {
        settings.rng.sample_between(settings.f_min_max.0, settings.f_min_max.1)
    } else {
        settings.f_min_max.0
    };

    let forced: usize = settings.rng.sample_index(dim);
    let mut rolls: Vec<i64> = Vec::new();
    let mut k: usize = 0;
    while k < dim
        invariant
            settings.config() == cfg,
            settings.cost_function == old(settings).cost_function,
            k <= dim,
            rolls.len() == k,
            forall|j: int| 0 <= j < k ==> 0 <= (#[trigger] rolls[j]) < ONE,
        decreases dim - k,
    {
        let roll: i64 = if k == forced {
            0
        } else {
            sample_unit(&mut settings.rng)
        };
        rolls.push(roll);
        k += 1;
    }
    Draws { first, second, third, cr_roll, cr_fresh, f_roll, f_fresh, forced, rolls }
}

/// Holds the population for the differential evolution based on the given
/// settings.
pub struct Population<F, R> where F: Fn(&[i64]) -> i64, R: Sampler {
    curr: Vec<Individual>,
    best: Vec<Individual>,
    settings: Settings<F, R>,
    // index of global best individual. Might be in best or in curr.
    best_idx: Option<usize>,
    // cost value of the global best individual, for quick access
    best_cost_cache: Option<i64>,
    num_cost_evaluations: usize,
    dim: usize,
    pop_countdown: usize,
}

/// Whether calling `f` on a position with coordinates `pos` can return
/// `cost`.
pub open spec fn may_cost<F>(f: F, pos: Seq<i64>, cost: i64) -> bool where F: Fn(&[i64]) -> i64 {
    exists|p: &[i64]| p@ == pos && #[trigger] call_ensures(f, (p,), cost)
}

/// Whether every cost that a member of `s` holds is one that `f` can return
/// at the member's position.
pub open spec fn costs_are_true<F>(f: F, s: State) -> bool where F: Fn(&[i64]) -> i64 {
    &&& forall|i: int|
        0 <= i < s.curr.len() && (#[trigger] s.curr[i]).cost is Some ==> may_cost(
            f,
            s.curr[i].pos,
            s.curr[i].cost.unwrap(),
        )
    &&& forall|i: int|
        0 <= i < s.best.len() && (#[trigger] s.best[i]).cost is Some ==> may_cost(
            f,
            s.best[i].pos,
            s.best[i].cost.unwrap(),
        )
}

/// Whether one evaluation can lead from `before` to `after` when an
/// evolution step that falls due draws `draws` and the cost function
/// returns `cost`.
pub open spec fn is_step<F>(
    f: F,
    cfg: Config,
    before: State,
    draws: Seq<SlotDraws>,
    cost: i64,
    after: State,
) -> bool where F: Fn(&[i64]) -> i64 {
    let ready = before.prepared(cfg, draws);
    &&& before.countdown == 0 ==> cfg.admits_all(draws)
    &&& may_cost(f, ready.curr[ready.next_slot()].pos, cost)
    &&& after == ready.record(cost)
}

impl<F, R> View for Population<F, R> where F: Fn(&[i64]) -> i64, R: Sampler {
    type V = State;

    closed spec fn view(&self) -> State {
        State {
            curr: members(self.curr@),
            best: members(self.best@),
            best_idx: match self.best_idx {
                Some(i) => Some(i as nat),
                None => None,
            },
            best_cost: self.best_cost_cache,
            evaluations: self.num_cost_evaluations as nat,
            countdown: self.pop_countdown as nat,
        }
    }
}

impl<F, R> Population<F, R> where F: Fn(&[i64]) -> i64, R: Sampler {
    /// The settings that the population was created with, without the
    /// generator and the cost function.
    pub closed spec fn config(&self) -> Config {
        self.settings.config()
    }

    /// The cost function that the population minimizes.
    pub closed spec fn cost_function(&self) -> F {
        self.settings.cost_function
    }

    /// Whether the number of dimensions that the population keeps at hand
    /// is that of its settings.
    pub closed spec fn coherent(&self) -> bool {
        self.dim == self.settings.min_max_pos.len()
    }

    /// Whether the cost function can be called on every position that has
    /// one coordinate per dimension.
    pub closed spec fn accepts_positions(&self) -> bool {
        self.settings.accepts_positions()
    }

    /// The invariant of the population: its settings are valid, its cost
    /// function takes its positions, its state is one that the settings
    /// allow, and every cost it holds came from the cost function at the
    /// position it is held with.
    pub open spec fn wf(&self) -> bool {
        &&& self.coherent()
        &&& self.accepts_positions()
        &&& self.config().valid()
        &&& self@.wf(self.config())
        &&& costs_are_true(self.cost_function(), self@)
    }

    /// Creates a new population based on the given settings: every
    /// individual drawn from the search box, nothing evaluated yet.
    pub fn new(s: Settings<F, R>) -> (pop: Population<F, R>)
        requires
            s.config().valid(),
            s.accepts_positions(),
        ensures
            pop.wf(),
            pop.config() == s.config(),
            pop.cost_function() == s.cost_function,
            pop@.initial(s.config()),
    {
        let ghost cfg = s.config();
        let dim: usize = s.min_max_pos.len();
        let n: usize = s.pop_size;
        let mut settings = s;
        let mut curr: Vec<Individual> = Vec::new();
        let mut best: Vec<Individual> = Vec::new();
        let mut i: usize = 0;
        while i < n
            invariant
                settings.config() == cfg,
                settings.cost_function == s.cost_function,
                cfg.valid(),
                dim == cfg.dim(),
                i <= n,
                curr.len() == i,
                best.len() == i,
                forall|j: int| 0 <= j < i ==> cfg.boxed((#[trigger] curr[j])@),
                forall|j: int| 0 <= j < i ==> cfg.tuned((#[trigger] curr[j])@),
                forall|j: int| 0 <= j < i ==> (#[trigger] curr[j])@.cost is None,
                forall|j: int| 0 <= j < i ==> (#[trigger] best[j])@ == blank(dim as nat),
            decreases n - i,
        {
            let ind = random_individual(&mut settings);
            curr.push(ind);
            best.push(blank_individual(dim));
            i += 1;
        }
        let pop = Population {
            curr,
            best,
            settings,
            best_idx: None,
            best_cost_cache: None,
            num_cost_evaluations: 0,
            dim,
            pop_countdown: n,
        };
        proof {
            assert(pop@.best =~= Seq::new(cfg.pop_size, |i: int| blank(cfg.dim())));
            assert forall|j: int| 0 <= j < pop@.curr.len() implies {
                &&& cfg.boxed(#[trigger] pop@.curr[j])
                &&& cfg.tuned(pop@.curr[j])
                &&& pop@.curr[j].cost is None
            } by {
                assert(pop@.curr[j] == pop.curr[j]@);
            }
            lemma_initial_state(pop@, cfg);
        }
        pop
    }

    /// Loops through each individual and updates its personal best.
    fn update_best(&mut self)
        requires
            old(self).curr.len() == old(self).best.len(),
            forall|i: int| 0 <= i < old(self).curr.len() ==> (#[trigger] old(self).curr[i]).cost is Some,
        ensures
            final(self)@ == old(self)@.adopted(),
            final(self).settings == old(self).settings,
            final(self).dim == old(self).dim,
    {
        let n: usize = self.curr.len();
        let mut i: usize = 0;
        while i < n
            invariant
                n == self.curr.len(),
                n == self.best.len(),
                n == old(self).curr.len(),
                n == old(self).best.len(),
                i <= n,
                self.settings == old(self).settings,
                self.dim == old(self).dim,
                self.best_idx == old(self).best_idx,
                self.best_cost_cache == old(self).best_cost_cache,
                self.num_cost_evaluations == old(self).num_cost_evaluations,
                self.pop_countdown == old(self).pop_countdown,
                forall|j: int| 0 <= j < n ==> (#[trigger] old(self).curr[j]).cost is Some,
                forall|j: int|
                    i <= j < n ==> self.curr[j] == old(self).curr[j] && self.best[j] == old(self).best[j],
                forall|j: int| 0 <= j < i ==> (#[trigger] self.curr[j])@ == old(self)@.adopted().curr[j],
                forall|j: int| 0 <= j < i ==> (#[trigger] self.best[j])@ == old(self)@.adopted().best[j],
            decreases n - i,
        {
            assert(old(self).curr[i as int].cost is Some);
            assert(old(self)@.curr[i as int] == old(self).curr[i as int]@);
            assert(old(self)@.best[i as int] == old(self).best[i as int]@);
            // we use <= here, so that the individual moves even if the cost
            // stays the same.
            if self.best[i].cost.is_none() || self.curr[i].cost.unwrap() <= self.best[i].cost.unwrap() {
                // replace individual's best. swap is *much* faster than clone.
                std::mem::swap(&mut self.curr[i], &mut self.best[i]);
            }
            i += 1;
        }
        assert(self@.curr =~= old(self)@.adopted().curr);
        assert(self@.best =~= old(self)@.adopted().best);
    }

    // Modifies all the curr positions. This needs a lot of random numbers, so
    // for a fast cost function it is important to use a fast random number
    // generator.
    fn update_positions(&mut self) -> (draws: Ghost<Seq<SlotDraws>>)
        requires
            old(self).config().valid(),
            old(self).curr.len() == old(self).settings.pop_size,
            old(self).best.len() == old(self).settings.pop_size,
            forall|j: int|
                0 <= j < old(self).curr.len() ==> (#[trigger] old(self).curr[j]).pos.len() == old(
                    self,
                ).settings.min_max_pos.len(),
            forall|j: int|
                0 <= j < old(self).best.len() ==> (#[trigger] old(self).best[j]).pos.len() == old(
                    self,
                ).settings.min_max_pos.len(),
        ensures
            final(self).config() == old(self).config(),
            final(self).cost_function() == old(self).cost_function(),
            final(self).settings.min_max_pos.len() == old(self).settings.min_max_pos.len(),
            final(self).dim == old(self).dim,
            old(self).config().admits_all(draws@),
            final(self)@ == old(self)@.bred(old(self).config(), draws@),
    {
        let ghost cfg = self.config();
        let ghost bests = members(self.best@);
        let ghost mut draws: Seq<SlotDraws> = Seq::empty();
        let n: usize = self.curr.len();
        let mut i: usize = 0;
        while i < n
            invariant
                self.config() == cfg,
                cfg.valid(),
                self.cost_function() == old(self).cost_function(),
                self.settings.min_max_pos.len() == old(self).settings.min_max_pos.len(),
                self.dim == old(self).dim,
                self.best_idx == old(self).best_idx,
                self.best_cost_cache == old(self).best_cost_cache,
                self.num_cost_evaluations == old(self).num_cost_evaluations,
                self.pop_countdown == old(self).pop_countdown,
                self.best == old(self).best,
                bests == members(self.best@),
                n == self.curr.len(),
                n == self.best.len(),
                n == self.settings.pop_size,
                i <= n,
                forall|j: int|
                    0 <= j < n ==> (#[trigger] self.curr[j]).pos.len() == self.settings.min_max_pos.len(),
                forall|j: int|
                    0 <= j < n ==> (#[trigger] self.best[j]).pos.len() == self.settings.min_max_pos.len(),
                draws.len() == i,
                forall|j: int| 0 <= j < i ==> cfg.admits(#[trigger] draws[j]),
                forall|j: int| 0 <= j < i ==> (#[trigger] self.curr[j])@ == cfg.offspring(bests, j, draws[j]),
            decreases n - i,
        {
            let d = draw_for_slot(&mut self.settings);
            breed(
                &mut self.curr[i],
                &self.best,
                i,
                &d,
                self.settings.cr_change_probability,
                self.settings.f_change_probability,
            );
            proof {
                draws = draws.push(d@);
            }
            i += 1;
        }
        assert(self@.curr =~= old(self)@.bred(cfg, draws).curr);
        Ghost(draws)
    }

    /// Gets a tuple of the best cost and best position found so far, or
    /// nothing before the first evaluation. The cost is one that the cost
    /// function returned at that position.
    pub fn best(&self) -> (r: Option<(i64, &[i64])>)
        requires
            self.wf(),
        ensures
            match r {
                Some((cost, pos)) => self@.solution() == Some((cost, pos@)) && may_cost(
                    self.cost_function(),
                    pos@,
                    cost,
                ),
                None => self@.solution() is None,
            },
            r is Some <==> self@.evaluations > 0,
            r is Some ==> Some(r.unwrap().0) == self@.best_cost,
    {
        proof {
            lemma_solution_attains_best_cost(self@, self.config());
        }
        if let Some(bi) = self.best_idx {
            let curr = &self.curr[bi];
            let best = &self.best[bi];
            assert(self@.curr[bi as int] == curr@);
            assert(self@.best[bi as int] == best@);

            if curr.cost.is_none() {
                return Some((best.cost.unwrap(), best.pos.as_slice()));
            }
            if best.cost.is_none() {
                return Some((curr.cost.unwrap(), curr.pos.as_slice()));
            }
            if curr.cost.unwrap() < best.cost.unwrap() {
                return Some((curr.cost.unwrap(), curr.pos.as_slice()));
            }
            return Some((best.cost.unwrap(), best.pos.as_slice()));
        } else {
            None
        }
    }

    /// Gets the total number of times the cost function has been evaluated.
    pub fn num_cost_evaluations(&self) -> (r: usize)
        ensures
            r == self@.evaluations,
    {
        self.num_cost_evaluations
    }

    /// Performs a single cost evaluation, and updates best positions and
    /// evolves the population if the whole population has been evaluated.
    /// Returns the cost value of the current best solution found.
    pub fn eval(&mut self) -> (r: Option<i64>)
        requires
            old(self).wf(),
            old(self)@.evaluations < usize::MAX,
        ensures
            final(self).wf(),
            final(self).config() == old(self).config(),
            final(self).cost_function() == old(self).cost_function(),
            exists|draws: Seq<SlotDraws>, cost: i64| #[trigger]
                is_step(old(self).cost_function(), old(self).config(), old(self)@, draws, cost, final(self)@),
            r == final(self)@.best_cost,
            r is Some,
            old(self)@.best_cost is Some ==> r.unwrap() <= old(self)@.best_cost.unwrap(),
            final(self)@.evaluations == old(self)@.evaluations + 1,
    {
        let ghost cfg = self.config();
        let ghost before = self@;
        let ghost mut draws: Seq<SlotDraws> = Seq::empty();
        if 0 == self.pop_countdown {
            // if the whole pop has been evaluated, evolve it to update positions.
            // this also copies curr to best, if better.
            proof {
                assert forall|i: int| 0 <= i < self.curr.len() implies (#[trigger] self.curr[i]).cost is Some by {
                    assert(self@.curr[i] == self.curr[i]@);
                }
            }
            self.update_best();
            proof {
                assert(self@.curr.len() == self.curr.len());
                assert(self@.best.len() == self.best.len());
                assert(before.adopted().curr.len() == before.curr.len());
                assert(before.adopted().best.len() == before.best.len());
                assert forall|j: int| 0 <= j < self.curr.len() implies (#[trigger] self.curr[j]).pos.len()
                    == self.settings.min_max_pos.len() by {
                    assert(self@.curr[j] == self.curr[j]@);
                    assert(before.curr[j].pos.len() == cfg.dim());
                    assert(before.best[j].pos.len() == cfg.dim());
                }
                assert forall|j: int| 0 <= j < self.best.len() implies (#[trigger] self.best[j]).pos.len()
                    == self.settings.min_max_pos.len() by {
                    assert(self@.best[j] == self.best[j]@);
                    assert(before.curr[j].pos.len() == cfg.dim());
                    assert(before.best[j].pos.len() == cfg.dim());
                }
            }
            let d = self.update_positions();
            self.pop_countdown = self.curr.len();
            proof {
                draws = d@;
                lemma_evolved_keeps_wf(before, cfg, draws);
                assert(self@.curr.len() == self.curr.len());
            }
        }
        let ghost ready = self@;
        assert(ready == before.prepared(cfg, draws));
        assert(ready.wf(cfg));

        // perform a single fitness evaluation
        self.pop_countdown -= 1;
        let i: usize = self.pop_countdown;
        assert(ready.curr[i as int] == self.curr[i as int]@);
        let cost: i64 = (self.settings.cost_function)(self.curr[i].pos.as_slice());
        self.curr[i].cost = Some(cost);
        self.num_cost_evaluations += 1;

        // see if we have improved the global best
        if self.best_cost_cache.is_none() || cost < self.best_cost_cache.unwrap() {
            self.best_cost_cache = Some(cost);
            self.best_idx = Some(i);
        }
        proof {
            assert(self@.curr =~= ready.record(cost).curr);
            assert(self@ == ready.record(cost));
            lemma_record_keeps_wf(ready, cfg, cost);
            assert(is_step(old(self).cost_function(), cfg, before, draws, cost, self@));
            lemma_step_keeps_costs(old(self).cost_function(), cfg, before, draws, cost, self@);
        }
        self.best_cost_cache
    }

    /// Gets an iterator for this population. Each call to `next()`
    /// performs one cost evaluation.
    pub fn iter(&mut self) -> (it: PopIter<'_, F, R>)
        ensures
            *it.pop == *old(self),
            *final(self) == *final(it.pop),
    {
        PopIter { pop: self }
    }
}

/// The settings that `Settings::default` gives for a search box.
pub open spec fn default_config(bounds: Seq<(i64, i64)>) -> Config {
    Config {
        bounds,
        cr_range: (0i64, ONE),
        cr_change: TENTH,
        f_range: (TENTH, ONE),
        f_change: TENTH,
        pop_size: 100,
    }
}

/// Convenience function to create a fully configured self adaptive
/// differential evolution population.
pub fn self_adaptive_de<F>(min_max_pos: Vec<(i64, i64)>, cost_function: F) -> (pop: Population<
    F,
    XorShiftRng,
>) where F: Fn(&[i64]) -> i64
    requires
        min_max_pos.len() >= 1,
        forall|d: int| 0 <= d < min_max_pos.len() ==> (#[trigger] min_max_pos[d]).0 < min_max_pos[d].1,
        forall|p: &[i64]| p@.len() == min_max_pos.len() ==> call_requires(cost_function, (p,)),
    ensures
        pop.wf(),
        pop.cost_function() == cost_function,
        pop.config() == default_config(min_max_pos@),
        pop@.initial(default_config(min_max_pos@)),
{
    Population::new(Settings::default(min_max_pos, cost_function))
}

/// Drives the differential evolution: every call of `next` performs a
/// single cost evaluation.
pub struct PopIter<'a, F, R> where F: Fn(&[i64]) -> i64, R: Sampler {
    /// The population that is driven.
    pub pop: &'a mut Population<F, R>,
}

impl<'a, F, R> PopIter<'a, F, R> where F: Fn(&[i64]) -> i64, R: Sampler {
    /// Simply forwards to the population's `eval()`.
    pub fn next(&mut self) -> (r: Option<i64>)
        requires
            old(self).pop.wf(),
            old(self).pop@.evaluations < usize::MAX,
        ensures
            final(self).pop.wf(),
            final(self).pop.config() == old(self).pop.config(),
            final(self).pop.cost_function() == old(self).pop.cost_function(),
            exists|draws: Seq<SlotDraws>, cost: i64| #[trigger]
                is_step(
                    old(self).pop.cost_function(),
                    old(self).pop.config(),
                    old(self).pop@,
                    draws,
                    cost,
                    final(self).pop@,
                ),
            r == final(self).pop@.best_cost,
            r is Some,
            old(self).pop@.best_cost is Some ==> r.unwrap() <= old(self).pop@.best_cost.unwrap(),
            final(self).pop@.evaluations == old(self).pop@.evaluations + 1,
            *final(final(self).pop) == *final(old(self).pop),
    {
        self.pop.eval()
    }
}

} // verus!
