//! The mathematical model of the optimizer: what a population is, and how
//! one evaluation and one evolution step change it.

use crate::donors::donors;
use crate::donors::raw_draws;
use crate::fixed::mutation;
use crate::fixed::ONE;
use vstd::prelude::*;

verus! {

/// One candidate solution.
pub struct Member {
    /// The position, one coordinate per dimension.
    pub pos: Seq<i64>,
    /// The cost at `pos`, absent until it has been evaluated. Lower is better.
    pub cost: Option<i64>,
    /// The member's own crossover rate.
    pub cr: i64,
    /// The member's own differential weight.
    pub f: i64,
}

/// The settings that an optimizer keeps for its whole life.
pub struct Config {
    /// For each dimension the interval that initial positions are drawn from.
    pub bounds: Seq<(i64, i64)>,
    /// The interval that crossover rates are drawn from.
    pub cr_range: (i64, i64),
    /// The probability that an offspring draws a fresh crossover rate.
    pub cr_change: i64,
    /// The interval that differential weights are drawn from.
    pub f_range: (i64, i64),
    /// The probability that an offspring draws a fresh differential weight.
    pub f_change: i64,
    /// The number of slots.
    pub pop_size: nat,
}

/// The random values that breeding one offspring consumes. A value that the
/// outcome does not depend on stands for a draw that is not taken.
pub struct SlotDraws {
    /// The raw draw for the first donor.
    pub first: int,
    /// The raw draw for the second donor.
    pub second: int,
    /// The raw draw for the third donor.
    pub third: int,
    /// Decides, against `Config::cr_change`, whether `cr_fresh` is used.
    pub cr_roll: i64,
    /// The fresh crossover rate.
    pub cr_fresh: i64,
    /// Decides, against `Config::f_change`, whether `f_fresh` is used.
    pub f_roll: i64,
    /// The fresh differential weight.
    pub f_fresh: i64,
    /// The dimension that is mutated whatever the crossover rolls say.
    pub forced: int,
    /// For each dimension the roll that is held against the crossover rate.
    pub rolls: Seq<i64>,
}

/// The whole state of an optimizer.
pub struct State {
    /// The candidates of the running generation.
    pub curr: Seq<Member>,
    /// For each slot the best candidate it has held so far.
    pub best: Seq<Member>,
    /// The slot of the lowest cost seen so far.
    pub best_idx: Option<nat>,
    /// The lowest cost seen so far.
    pub best_cost: Option<i64>,
    /// How often the cost function has been evaluated.
    pub evaluations: nat,
    /// How many slots of the running generation still await evaluation.
    pub countdown: nat,
}

/// The member that fills both arrays' slots before anything is drawn.
pub open spec fn blank(dim: nat) -> Member {
    Member { pos: Seq::new(dim, |k: int| 0i64), cost: None, cr: 0, f: 0 }
}

/// Whether a slot's personal best gives way to the slot's current member: it
/// does when it has no cost yet, and when the current cost is no higher.
pub open spec fn adopts(current: Member, holder: Member) -> bool {
    holder.cost is None || (current.cost is Some && current.cost.unwrap()
        <= holder.cost.unwrap())
}

/// A control parameter of an offspring: a fresh value when the roll falls
/// below the probability of change, else the inherited one.
pub open spec fn adapted(inherited: i64, roll: i64, change: i64, fresh: i64) -> i64 {
    if roll < change {
        fresh
    } else {
        inherited
    }
}

/// Coordinate `k` of the point that mutation builds with weight `f`: the
/// third donor moved by the weighted difference of the first two.
pub open spec fn mutant_coordinate(best: Seq<Member>, d: SlotDraws, k: int, f: i64) -> i64 {
    let r = donors(d.first, d.second, d.third, best.len() as int);
    mutation(best[r.0].pos[k], best[r.1].pos[k], best[r.2].pos[k], f)
}

/// Whether an offspring with crossover rate `cr` takes coordinate `k` from
/// the mutant: always in the forced dimension, elsewhere when the roll
/// falls below the crossover rate.
pub open spec fn takes_mutant(d: SlotDraws, k: int, cr: i64) -> bool {
    k == d.forced || d.rolls[k] < cr
}

/// The offspring of slot `i` under the draws `d`, where control parameters
/// change with probabilities `cr_change` and `f_change`: the slot's personal
/// best crossed with the mutant, with adapted control parameters and no
/// cost yet.
pub open spec fn offspring_of(best: Seq<Member>, i: int, d: SlotDraws, cr_change: i64, f_change: i64) -> Member {
    let cr = adapted(best[i].cr, d.cr_roll, cr_change, d.cr_fresh);
    let f = adapted(best[i].f, d.f_roll, f_change, d.f_fresh);
    Member {
        pos: Seq::new(
            best[i].pos.len(),
            |k: int|
                if takes_mutant(d, k, cr) {
                    mutant_coordinate(best, d, k, f)
                } else {
                    best[i].pos[k]
                },
        ),
        cost: None,
        cr,
        f,
    }
}

impl Config {
    /// The number of dimensions.
    pub open spec fn dim(self) -> nat {
        self.bounds.len()
    }

    /// Whether an optimizer can be built from these settings: at least one
    /// dimension and one slot, and every interval non-empty.
    pub open spec fn valid(self) -> bool {
        &&& self.bounds.len() >= 1
        &&& self.pop_size >= 1
        &&& forall|d: int| 0 <= d < self.bounds.len() ==> (#[trigger] self.bounds[d]).0 < self.bounds[d].1
        &&& self.cr_range.0 < self.cr_range.1
        &&& self.f_range.0 < self.f_range.1
    }

    /// Whether the member's control parameters lie in their intervals.
    pub open spec fn tuned(self, m: Member) -> bool {
        &&& self.cr_range.0 <= m.cr < self.cr_range.1
        &&& self.f_range.0 <= m.f < self.f_range.1
    }

    /// Whether the member's position lies in the initial search box.
    pub open spec fn boxed(self, m: Member) -> bool {
        &&& m.pos.len() == self.bounds.len()
        &&& forall|d: int| 0 <= d < self.bounds.len() ==> self.bounds[d].0 <= (#[trigger] m.pos[d]) < self.bounds[d].1
    }

    /// Whether `d` holds values that the draws for one offspring can return.
    pub open spec fn admits(self, d: SlotDraws) -> bool {
        &&& raw_draws(d.first, d.second, d.third, self.pop_size as int)
        &&& 0 <= d.cr_roll < ONE
        &&& self.cr_range.0 <= d.cr_fresh < self.cr_range.1
        &&& 0 <= d.f_roll < ONE
        &&& self.f_range.0 <= d.f_fresh < self.f_range.1
        &&& 0 <= d.forced < self.bounds.len()
        &&& d.rolls.len() == self.bounds.len()
        &&& forall|k: int| 0 <= k < d.rolls.len() ==> 0 <= (#[trigger] d.rolls[k]) < ONE
    }

    /// Whether `draws` holds admissible draws for every slot.
    pub open spec fn admits_all(self, draws: Seq<SlotDraws>) -> bool {
        &&& draws.len() == self.pop_size
        &&& forall|i: int| 0 <= i < draws.len() ==> self.admits(#[trigger] draws[i])
    }

    /// The offspring of slot `i` under the draws `d`, with the probabilities
    /// of change of these settings.
    pub open spec fn offspring(self, best: Seq<Member>, i: int, d: SlotDraws) -> Member {
        offspring_of(best, i, d, self.cr_change, self.f_change)
    }
}

impl State {
    /// Whether this is a state that an optimizer with settings `cfg` can be
    /// in.
    pub open spec fn wf(self, cfg: Config) -> bool {
        &&& self.curr.len() == cfg.pop_size
        &&& self.best.len() == cfg.pop_size
        &&& self.countdown <= cfg.pop_size
        &&& forall|i: int| 0 <= i < self.curr.len() ==> (#[trigger] self.curr[i]).pos.len() == cfg.dim()
        &&& forall|i: int| 0 <= i < self.best.len() ==> (#[trigger] self.best[i]).pos.len() == cfg.dim()
        &&& forall|i: int| 0 <= i < self.curr.len() ==> ((#[trigger] self.curr[i]).cost is Some <==> i >= self.countdown)
        &&& forall|i: int| 0 <= i < self.curr.len() ==> cfg.tuned(#[trigger] self.curr[i])
        &&& forall|i: int| 0 <= i < self.best.len() ==> ((#[trigger] self.best[i]).cost is Some ==> cfg.tuned(self.best[i]))
        &&& self.best_cost is Some <==> self.best_idx is Some
        &&& self.best_cost is Some <==> self.evaluations > 0
        &&& forall|i: int| 0 <= i < self.curr.len() ==> ((#[trigger] self.curr[i]).cost is Some ==> self.bounded_below(self.curr[i]))
        &&& forall|i: int| 0 <= i < self.best.len() ==> ((#[trigger] self.best[i]).cost is Some ==> self.bounded_below(self.best[i]))
        &&& self.best_idx is Some ==> {
            &&& self.best_idx.unwrap() < cfg.pop_size
            &&& self.attains(self.curr[self.best_idx.unwrap() as int]) || self.attains(self.best[self.best_idx.unwrap() as int])
        }
    }

    /// Whether the lowest cost seen so far is known and no higher than the
    /// member's.
    pub open spec fn bounded_below(self, m: Member) -> bool {
        self.best_cost is Some && self.best_cost.unwrap() <= m.cost.unwrap()
    }

    /// Whether the member's cost is the lowest cost seen so far.
    pub open spec fn attains(self, m: Member) -> bool {
        m.cost is Some && m.cost == self.best_cost
    }

    /// Whether this is a state that construction from `cfg` can give: every
    /// current member drawn from the search box with control parameters from
    /// their intervals, nothing evaluated, no personal best.
    pub open spec fn initial(self, cfg: Config) -> bool {
        &&& self.curr.len() == cfg.pop_size
        &&& forall|i: int| 0 <= i < self.curr.len() ==> {
            &&& cfg.boxed(#[trigger] self.curr[i])
            &&& cfg.tuned(self.curr[i])
            &&& self.curr[i].cost is None
        }
        &&& self.best == Seq::new(cfg.pop_size, |i: int| blank(cfg.dim()))
        &&& self.best_idx is None
        &&& self.best_cost is None
        &&& self.evaluations == 0
        &&& self.countdown == cfg.pop_size
    }

    /// The slot that the next evaluation is for.
    pub open spec fn next_slot(self) -> int {
        self.countdown - 1
    }

    /// The state after the cost of the next slot has been found to be
    /// `cost`: the slot holds it, and it becomes the lowest cost seen so far
    /// if it is the first or strictly lower.
    pub open spec fn record(self, cost: i64) -> State {
        let i = self.next_slot();
        let improved = self.best_cost is None || cost < self.best_cost.unwrap();
        State {
            curr: self.curr.update(
                i,
                Member { pos: self.curr[i].pos, cost: Some(cost), cr: self.curr[i].cr, f: self.curr[i].f },
            ),
            best: self.best,
            best_idx: if improved {
                Some(i as nat)
            } else {
                self.best_idx
            },
            best_cost: if improved {
                Some(cost)
            } else {
                self.best_cost
            },
            evaluations: self.evaluations + 1,
            countdown: i as nat,
        }
    }

    /// The state after the costs of the next slots have been found to be
    /// `costs`, in this order.
    pub open spec fn record_all(self, costs: Seq<i64>) -> State
        decreases costs.len(),
    {
        if costs.len() == 0 {
            self
        } else {
            self.record(costs[0]).record_all(costs.drop_first())
        }
    }

    /// The state after every slot's personal best has been held against the
    /// slot's current member. Where the personal best gives way the two
    /// change places.
    pub open spec fn adopted(self) -> State {
        State {
            curr: Seq::new(
                self.curr.len(),
                |i: int|
                    if adopts(self.curr[i], self.best[i]) {
                        self.best[i]
                    } else {
                        self.curr[i]
                    },
            ),
            best: Seq::new(
                self.best.len(),
                |i: int|
                    if adopts(self.curr[i], self.best[i]) {
                        self.curr[i]
                    } else {
                        self.best[i]
                    },
            ),
            best_idx: self.best_idx,
            best_cost: self.best_cost,
            evaluations: self.evaluations,
            countdown: self.countdown,
        }
    }

    /// The state after every current member has been replaced by the
    /// offspring of its slot. Nothing else changes.
    pub open spec fn bred(self, cfg: Config, draws: Seq<SlotDraws>) -> State {
        State {
            curr: Seq::new(self.curr.len(), |i: int| cfg.offspring(self.best, i, draws[i])),
            best: self.best,
            best_idx: self.best_idx,
            best_cost: self.best_cost,
            evaluations: self.evaluations,
            countdown: self.countdown,
        }
    }

    /// The state with every slot awaiting evaluation again.
    pub open spec fn restarted(self) -> State {
        State {
            curr: self.curr,
            best: self.best,
            best_idx: self.best_idx,
            best_cost: self.best_cost,
            evaluations: self.evaluations,
            countdown: self.curr.len(),
        }
    }

    /// The state after one evolution step: personal bests first, offspring
    /// from the new personal bests second.
    pub open spec fn evolved(self, cfg: Config, draws: Seq<SlotDraws>) -> State {
        self.adopted().bred(cfg, draws)
    }

    /// The state in which the next evaluation takes place: this one while
    /// its generation has slots left, else the one after an evolution step,
    /// with every slot awaiting evaluation again.
    pub open spec fn prepared(self, cfg: Config, draws: Seq<SlotDraws>) -> State {
        if self.countdown == 0 {
            self.evolved(cfg, draws).restarted()
        } else {
            self
        }
    }

    /// The best solution found so far, as cost and position: at the slot of
    /// the lowest cost, the current member if its cost is strictly lower
    /// than the personal best's, else the personal best.
    pub open spec fn solution(self) -> Option<(i64, Seq<i64>)> {
        match self.best_idx {
            None => None,
            Some(bi) => {
                let current = self.curr[bi as int];
                let holder = self.best[bi as int];
                let winner = if current.cost is Some && (holder.cost is None
                    || current.cost.unwrap() < holder.cost.unwrap()) {
                    current
                } else {
                    holder
                };
                Some((winner.cost.unwrap(), winner.pos))
            },
        }
    }
}

} // verus!
