//! The settings of the optimizer.

use crate::fixed::ONE;
use crate::fixed::TENTH;
use crate::model::Config;
use crate::random::weak_generator;
use crate::random::Sampler;
use rand::XorShiftRng;
use vstd::prelude::*;

verus! {

/// Holds all settings for the self-adaptive differential evolution.
///
/// Reals are in fixed point: the integer `ONE` stands for the real one.
pub struct Settings<F, R> where F: Fn(&[i64]) -> i64, R: Sampler {
    /// For each dimension the interval `[min, max)` that the initial
    /// positions are drawn from. This is only the initial state: the search
    /// goes on outside of it.
    pub min_max_pos: Vec<(i64, i64)>,
    /// The interval `[min, max)` that crossover rates are drawn from.
    pub cr_min_max: (i64, i64),
    /// The probability that an individual's crossover rate changes.
    pub cr_change_probability: i64,
    /// The interval `[min, max)` that differential weights are drawn from.
    pub f_min_max: (i64, i64),
    /// The probability that an individual's differential weight changes.
    pub f_change_probability: i64,
    /// The number of individuals.
    pub pop_size: usize,
    /// The random number generator that positions and mutations come from.
    pub rng: R,
    /// The cost function to minimize.
    pub cost_function: F,
}

impl<F> Settings<F, XorShiftRng> where F: Fn(&[i64]) -> i64 {
    /// Creates the settings of the paper "Self-Adapting Control Parameters
    /// in Differential Evolution": crossover rates from `[0, 1)`,
    /// differential weights from `[0.1, 1)`, both changing with probability
    /// 0.1, and 100 individuals, with a generator seeded by the system.
    pub fn default(min_max_pos: Vec<(i64, i64)>, cost_function: F) -> (s: Settings<F, XorShiftRng>)
        ensures
            s.min_max_pos == min_max_pos,
            s.cost_function == cost_function,
            s.cr_min_max == (0i64, ONE),
            s.cr_change_probability == TENTH,
            s.f_min_max == (TENTH, ONE),
            s.f_change_probability == TENTH,
            s.pop_size == 100,
    {
        Settings {
            min_max_pos,
            cr_min_max: (0, ONE),
            cr_change_probability: TENTH,
            f_min_max: (TENTH, ONE),
            f_change_probability: TENTH,
            pop_size: 100,
            rng: weak_generator(),
            cost_function,
        }
    }
}

impl<F, R> Settings<F, R> where F: Fn(&[i64]) -> i64, R: Sampler {
    /// The settings without the generator and the cost function.
    pub open spec fn config(&self) -> Config {
        Config {
            bounds: self.min_max_pos@,
            cr_range: self.cr_min_max,
            cr_change: self.cr_change_probability,
            f_range: self.f_min_max,
            f_change: self.f_change_probability,
            pop_size: self.pop_size as nat,
        }
    }

    /// Whether the cost function can be called on every position that has
    /// one coordinate per dimension.
    pub open spec fn accepts_positions(&self) -> bool {
        forall|p: &[i64]| p@.len() == self.min_max_pos.len() ==> call_requires(self.cost_function, (p,))
    }

    /// Tells whether an optimizer can be built from these settings.
    pub fn is_valid(&self) -> (ok: bool)
        ensures
            ok == self.config().valid(),
    {
        if self.min_max_pos.len() < 1 || self.pop_size < 1 {
            return false;
        }
        if self.cr_min_max.0 >= self.cr_min_max.1 || self.f_min_max.0 >= self.f_min_max.1 {
            return false;
        }
        let mut d: usize = 0;
        while d < self.min_max_pos.len()
            invariant
                d <= self.min_max_pos.len(),
                forall|k: int| 0 <= k < d ==> (#[trigger] self.min_max_pos[k]).0 < self.min_max_pos[k].1,
            decreases self.min_max_pos.len() - d,
        {
            if self.min_max_pos[d].0 >= self.min_max_pos[d].1 {
                return false;
            }
            d += 1;
        }
        true
    }
}

} // verus!
