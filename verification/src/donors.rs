//! Choosing the three donors of a mutation without rejection.
//!
//! Three raw draws, each uniform over a range one smaller than the one
//! before, are mapped to three slots that are pairwise distinct whenever the
//! population is large enough for that. The map skips over the slots already
//! taken, so no draw is ever repeated and the choice always terminates.

use vstd::prelude::*;

verus! {

/// How many values the raw draw for the second donor ranges over.
pub open spec fn second_choices(n: int) -> int {
    if n >= 2 {
        n - 1
    } else {
        1
    }
}

/// How many values the raw draw for the third donor ranges over. With fewer
/// than three slots the third donor is not kept apart from the other two.
pub open spec fn third_choices(n: int) -> int {
    if n >= 3 {
        n - 2
    } else {
        n
    }
}

/// Whether `(a, b, c)` are raw draws for a population of `n` slots.
pub open spec fn raw_draws(a: int, b: int, c: int, n: int) -> bool {
    &&& 0 <= a < n
    &&& 0 <= b < second_choices(n)
    &&& 0 <= c < third_choices(n)
}

/// The second donor: the `b`-th slot among those that are not `first`.
pub open spec fn second_donor(first: int, b: int, n: int) -> int {
    if n >= 2 && b >= first {
        b + 1
    } else {
        b
    }
}

/// The third donor: the `c`-th slot among those that are neither `first`
/// nor `second`, or slot `c` itself where fewer than three slots exist.
pub open spec fn third_donor(first: int, second: int, c: int, n: int) -> int {
    if n >= 3 {
        let low = if first < second { first } else { second };
        let high = if first < second { second } else { first };
        let past_low = if c >= low { c + 1 } else { c };
        if past_low >= high {
            past_low + 1
        } else {
            past_low
        }
    } else {
        c
    }
}

/// The three donors that the raw draws `(a, b, c)` stand for.
pub open spec fn donors(a: int, b: int, c: int, n: int) -> (int, int, int) {
    let second = second_donor(a, b, n);
    (a, second, third_donor(a, second, c, n))
}

/// Whether `(r1, r2, r3)` are slots of a population of `n`, as distinct from
/// one another as `n` allows: the first two differ when there are two slots,
/// all three differ when there are three.
pub open spec fn donors_apart(r1: int, r2: int, r3: int, n: int) -> bool {
    &&& 0 <= r1 < n
    &&& 0 <= r2 < n
    &&& 0 <= r3 < n
    &&& n >= 2 ==> r1 != r2
    &&& n >= 3 ==> r3 != r1 && r3 != r2
}

/// Raw draws always stand for donors that are slots of the population and
/// as distinct as its size allows.
pub proof fn lemma_donors_apart(a: int, b: int, c: int, n: int)
    requires
        raw_draws(a, b, c, n),
    ensures
        donors_apart(donors(a, b, c, n).0, donors(a, b, c, n).1, donors(a, b, c, n).2, n),
{
}

/// With three slots or more every triple of pairwise distinct slots is the
/// image of some raw draws, so no admissible choice of donors is left out.
pub proof fn lemma_donors_cover(r1: int, r2: int, r3: int, n: int)
    requires
        n >= 3,
        donors_apart(r1, r2, r3, n),
    ensures
        exists|a: int, b: int, c: int|
            raw_draws(a, b, c, n) && #[trigger] donors(a, b, c, n) == (r1, r2, r3),
{
    let a = r1;
    let b = if r2 > r1 { r2 - 1 } else { r2 };
    let low = if r1 < r2 { r1 } else { r2 };
    let high = if r1 < r2 { r2 } else { r1 };
    let c = if r3 > high { r3 - 2 } else if r3 > low { r3 - 1 } else { r3 };
    assert(raw_draws(a, b, c, n));
    assert(donors(a, b, c, n) == (r1, r2, r3));
}

/// Different raw draws stand for different donors, so with three slots or
/// more each admissible triple is as likely as any other.
pub proof fn lemma_donors_injective(a: int, b: int, c: int, x: int, y: int, z: int, n: int)
    requires
        n >= 3,
        raw_draws(a, b, c, n),
        raw_draws(x, y, z, n),
        donors(a, b, c, n) == donors(x, y, z, n),
    ensures
        a == x,
        b == y,
        c == z,
{
}

/// Maps three raw draws to the three donors of a mutation.
pub fn pick_donors(a: usize, b: usize, c: usize, n: usize) -> (r: (usize, usize, usize))
    requires
        raw_draws(a as int, b as int, c as int, n as int),
    ensures
        (r.0 as int, r.1 as int, r.2 as int) == donors(a as int, b as int, c as int, n as int),
        donors_apart(r.0 as int, r.1 as int, r.2 as int, n as int),
{
    let second: usize = if n >= 2 && b >= a { b + 1 } else { b };
    let third: usize = if n >= 3 {
        let low: usize = if a < second { a } else { second };
        let high: usize = if a < second { second } else { a };
        let past_low: usize = if c >= low { c + 1 } else { c };
        if past_low >= high {
            past_low + 1
        } else {
            past_low
        }
    } else {
        c
    };
    (a, second, third)
}

} // verus!
