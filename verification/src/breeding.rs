//! Individuals, and how an offspring is bred from the personal bests once
//! the random draws are made.

use crate::donors::donors;
use crate::donors::pick_donors;
use crate::donors::raw_draws;
use crate::fixed::mutate;
use crate::model::offspring_of;
use crate::model::Member;
use crate::model::SlotDraws;
use vstd::prelude::*;

verus! {

/// An individual of the population.
pub struct Individual {
    /// The position, one coordinate per dimension.
    pub pos: Vec<i64>,
    /// The cost at `pos`, absent until evaluated. The lower, the better.
    pub cost: Option<i64>,
    /// The crossover rate, a control parameter.
    pub cr: i64,
    /// The differential weight, a control parameter.
    pub f: i64,
}

impl View for Individual {
    type V = Member;

    open spec fn view(&self) -> Member {
        Member { pos: self.pos@, cost: self.cost, cr: self.cr, f: self.f }
    }
}

/// The models of a list of individuals.
pub open spec fn members(v: Seq<Individual>) -> Seq<Member> {
    Seq::new(v.len(), |i: int| v[i]@)
}

/// The random values that breeding one offspring consumes. Where the
/// outcome does not depend on a value, no draw needs to stand behind it.
pub struct Draws {
    /// The raw draw for the first donor.
    pub first: usize,
    /// The raw draw for the second donor.
    pub second: usize,
    /// The raw draw for the third donor.
    pub third: usize,
    /// Decides, against the probability of change, whether `cr_fresh` is
    /// used.
    pub cr_roll: i64,
    /// The fresh crossover rate.
    pub cr_fresh: i64,
    /// Decides, against the probability of change, whether `f_fresh` is
    /// used.
    pub f_roll: i64,
    /// The fresh differential weight.
    pub f_fresh: i64,
    /// The dimension that is mutated whatever the crossover rolls say.
    pub forced: usize,
    /// For each dimension the roll that is held against the crossover rate.
    pub rolls: Vec<i64>,
}

impl View for Draws {
    type V = SlotDraws;

    open spec fn view(&self) -> SlotDraws {
        SlotDraws {
            first: self.first as int,
            second: self.second as int,
            third: self.third as int,
            cr_roll: self.cr_roll,
            cr_fresh: self.cr_fresh,
            f_roll: self.f_roll,
            f_fresh: self.f_fresh,
            forced: self.forced as int,
            rolls: self.rolls@,
        }
    }
}

/// Replaces `child` by the offspring of slot `i` under the given draws:
/// DE/rand/1/bin with self-adapting control parameters, bred from the
/// personal bests `best`. The control parameters change with the
/// probabilities given.
pub fn breed(
    child: &mut Individual,
    best: &Vec<Individual>,
    i: usize,
    draws: &Draws,
    cr_change_probability: i64,
    f_change_probability: i64,
)
    requires
        i < best.len(),
        raw_draws(draws.first as int, draws.second as int, draws.third as int, best.len() as int),
        forall|j: int| 0 <= j < best.len() ==> (#[trigger] best[j]).pos.len() == old(child).pos.len(),
        draws.forced < old(child).pos.len(),
        draws.rolls.len() == old(child).pos.len(),
    ensures
        final(child)@ == offspring_of(
            members(best@),
            i as int,
            draws@,
            cr_change_probability,
            f_change_probability,
        ),
{
    let n: usize = best.len();
    let dim: usize = child.pos.len();
    let (id1, id2, id3) = pick_donors(draws.first, draws.second, draws.third, n);

    // see "Self-Adapting Control Parameters in Differential Evolution:
    // A Comparative Study on Numerical Benchmark Problems"
    let cr: i64 = if draws.cr_roll < cr_change_probability {
        draws.cr_fresh
    } else {
        best[i].cr
    };
    let f: i64 = if draws.f_roll < f_change_probability {
        draws.f_fresh
    } else {
        best[i].f
    };

    // This implements the DE/rand/1/bin, the most widely used algorithm.
    // See "A Comparative Study of Differential Evolution Variants for
    // Global Optimization (2006)".
    let ghost bests = members(best@);
    assert(bests[i as int] == best[i as int]@);
    let mut k: usize = 0;
    while k < dim
        invariant
            n == best.len(),
            i < n,
            id1 < n,
            id2 < n,
            id3 < n,
            (id1 as int, id2 as int, id3 as int) == donors(
                draws.first as int,
                draws.second as int,
                draws.third as int,
                n as int,
            ),
            bests == members(best@),
            forall|j: int| 0 <= j < best.len() ==> (#[trigger] best[j]).pos.len() == dim,
            child.pos.len() == dim,
            draws.rolls.len() == dim,
            k <= dim,
            forall|j: int|
                0 <= j < k ==> (#[trigger] child.pos[j]) == offspring_of(
                    bests,
                    i as int,
                    draws@,
                    cr_change_probability,
                    f_change_probability,
                ).pos[j],
            cr == offspring_of(bests, i as int, draws@, cr_change_probability, f_change_probability).cr,
            f == offspring_of(bests, i as int, draws@, cr_change_probability, f_change_probability).f,
        decreases dim - k,
    {
        proof {
            assert(bests[i as int] == best[i as int]@);
            assert(bests[id1 as int] == best[id1 as int]@);
            assert(bests[id2 as int] == best[id2 as int]@);
            assert(bests[id3 as int] == best[id3 as int]@);
        }
        let x: i64 = if k == draws.forced || draws.rolls[k] < cr {
            mutate(best[id1].pos[k], best[id2].pos[k], best[id3].pos[k], f)
        } else {
            best[i].pos[k]
        };
        child.pos[k] = x;
        k += 1;
    }

    // reset cost, has to be updated by the user.
    child.cost = None;
    child.cr = cr;
    child.f = f;
    proof {
        assert(bests[i as int] == best[i as int]@);
        assert(child@.pos =~= offspring_of(
            bests,
            i as int,
            draws@,
            cr_change_probability,
            f_change_probability,
        ).pos);
    }
}

} // verus!
