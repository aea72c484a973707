use differential_evolution::breeding::breed;
use differential_evolution::breeding::Draws;
use differential_evolution::breeding::Individual;
use differential_evolution::fixed::ONE;
use differential_evolution::fixed::TENTH;
use differential_evolution::Population;
use differential_evolution::Sampler;
use differential_evolution::Settings;
use std::cell::RefCell;
use std::collections::VecDeque;
use std::rc::Rc;

/// A generator that hands out a given sequence of draws.
struct Script {
    draws: Rc<RefCell<VecDeque<i64>>>,
}

impl Sampler for Script {
    fn sample_between(&mut self, low: i64, high: i64) -> i64 {
        let next = self.draws.borrow_mut().pop_front().unwrap();
        assert!(low <= next && next < high);
        next
    }

    fn sample_index(&mut self, n: usize) -> usize {
        let next = self.draws.borrow_mut().pop_front().unwrap();
        assert!(0 <= next && (next as usize) < n);
        next as usize
    }
}

fn script(draws: &[i64]) -> (Script, Rc<RefCell<VecDeque<i64>>>) {
    let shared = Rc::new(RefCell::new(draws.iter().copied().collect::<VecDeque<i64>>()));
    (Script { draws: shared.clone() }, shared)
}

fn taxicab(pos: &[i64]) -> i64 {
    pos.iter().map(|x| x.abs()).sum()
}

fn scripted_settings<F: Fn(&[i64]) -> i64>(
    dim: usize,
    pop_size: usize,
    rng: Script,
    cost_function: F,
) -> Settings<F, Script> {
    Settings {
        min_max_pos: vec![(-10 * ONE, 10 * ONE); dim],
        cr_min_max: (0, ONE),
        cr_change_probability: TENTH,
        f_min_max: (TENTH, ONE),
        f_change_probability: TENTH,
        pop_size,
        rng,
        cost_function,
    }
}

fn individual(pos: &[i64], cost: Option<i64>, cr: i64, f: i64) -> Individual {
    Individual { pos: pos.to_vec(), cost, cr, f }
}

const THREE_SLOTS: [i64; 12] = [
    // slot 0: cr, f, position
    200_000, 500_000, 1_000_000, 2_000_000,
    // slot 1
    300_000, 600_000, 3_000_000, -4_000_000,
    // slot 2
    400_000, 700_000, -5_000_000, 6_000_000,
];

const THREE_OFFSPRING: [i64; 23] = [
    // slot 0: donors (1, 2, 0); fresh cr 0.999999, inherited f 0.5; forced
    // dimension 0, and the roll for dimension 1 falls below cr
    1, 1, 0, 50_000, 999_999, 500_000, 0, 999_998,
    // slot 1: donors (0, 1, 2); inherited cr 0.3, fresh f 0.25; forced
    // dimension 1, and the roll for dimension 0 does not fall below cr
    0, 0, 0, 500_000, 0, 250_000, 1, 300_000,
    // slot 2: donors (2, 1, 0); inherited cr 0.4, inherited f 0.7; forced
    // dimension 0, and the roll for dimension 1 falls below cr
    2, 1, 0, 999_999, 100_000, 0, 399_999,
];

#[test]
fn construction_takes_its_members_from_the_draws() {
    let (rng, left) = script(&THREE_SLOTS);
    let seen: RefCell<Vec<Vec<i64>>> = RefCell::new(Vec::new());
    let cost = |pos: &[i64]| -> i64 {
        seen.borrow_mut().push(pos.to_vec());
        taxicab(pos)
    };
    let mut pop = Population::new(scripted_settings(2, 3, rng, cost));
    assert_eq!(left.borrow().len(), 0);
    assert!(pop.best().is_none());

    // slots are evaluated from the highest down
    assert_eq!(pop.eval(), Some(11_000_000));
    assert_eq!(pop.best().unwrap(), (11_000_000, &[-5_000_000, 6_000_000][..]));
    assert_eq!(pop.eval(), Some(7_000_000));
    assert_eq!(pop.best().unwrap(), (7_000_000, &[3_000_000, -4_000_000][..]));
    assert_eq!(pop.eval(), Some(3_000_000));
    assert_eq!(pop.best().unwrap(), (3_000_000, &[1_000_000, 2_000_000][..]));
    assert_eq!(
        *seen.borrow(),
        vec![vec![-5_000_000, 6_000_000], vec![3_000_000, -4_000_000], vec![1_000_000, 2_000_000]]
    );
    assert_eq!(pop.num_cost_evaluations(), 3);
}

#[test]
fn evolution_breeds_the_offspring_that_the_draws_stand_for() {
    let mut draws = THREE_SLOTS.to_vec();
    draws.extend_from_slice(&THREE_OFFSPRING);
    let (rng, left) = script(&draws);
    let seen: RefCell<Vec<Vec<i64>>> = RefCell::new(Vec::new());
    let cost = |pos: &[i64]| -> i64 {
        seen.borrow_mut().push(pos.to_vec());
        taxicab(pos)
    };
    let mut pop = Population::new(scripted_settings(2, 3, rng, cost));
    for _ in 0..3 {
        pop.eval();
    }
    // nothing is drawn before the generation is evaluated in full
    assert_eq!(left.borrow().len(), THREE_OFFSPRING.len());

    assert_eq!(pop.eval(), Some(3_000_000));
    assert_eq!(left.borrow().len(), 0);
    assert_eq!(pop.eval(), Some(3_000_000));
    assert_eq!(pop.eval(), Some(3_000_000));
    let seen = seen.borrow();
    // slot 2: 1 + 0.7 * (-5 - 3) and 2 + 0.7 * (6 + 4)
    assert_eq!(seen[3], vec![-4_600_000, 9_000_000]);
    // slot 1: the parent's 3, and 6 + 0.25 * (2 + 4)
    assert_eq!(seen[4], vec![3_000_000, 7_500_000]);
    // slot 0: 1 + 0.5 * (3 + 5) and 2 + 0.5 * (-4 - 6)
    assert_eq!(seen[5], vec![5_000_000, -3_000_000]);
    assert_eq!(pop.best().unwrap(), (3_000_000, &[1_000_000, 2_000_000][..]));
    assert_eq!(pop.num_cost_evaluations(), 6);
}

#[test]
fn equal_draws_give_equal_runs() {
    let mut draws = THREE_SLOTS.to_vec();
    draws.extend_from_slice(&THREE_OFFSPRING);
    let (first_rng, _) = script(&draws);
    let (second_rng, _) = script(&draws);
    let first_seen: RefCell<Vec<Vec<i64>>> = RefCell::new(Vec::new());
    let second_seen: RefCell<Vec<Vec<i64>>> = RefCell::new(Vec::new());
    let mut first = Population::new(scripted_settings(2, 3, first_rng, |pos: &[i64]| -> i64 {
        first_seen.borrow_mut().push(pos.to_vec());
        taxicab(pos)
    }));
    let mut second = Population::new(scripted_settings(2, 3, second_rng, |pos: &[i64]| -> i64 {
        second_seen.borrow_mut().push(pos.to_vec());
        taxicab(pos)
    }));
    for _ in 0..6 {
        assert_eq!(first.eval(), second.eval());
        assert_eq!(first.best().unwrap(), second.best().unwrap());
    }
    assert_eq!(*first_seen.borrow(), *second_seen.borrow());
}

#[test]
fn a_strictly_better_offspring_becomes_the_best_at_once() {
    let draws: Vec<i64> = vec![
        // two slots in one dimension: cr, f, position
        0, TENTH, 8_000_000, 0, TENTH, 2_000_000,
        // slot 0: donors (1, 0, 1), rolls keep cr and f, forced dimension 0
        1, 0, 1, 500_000, 500_000, 0,
        // slot 1: donors (0, 1, 0)
        0, 0, 0, 500_000, 500_000, 0,
    ];
    let (rng, left) = script(&draws);
    let seen: RefCell<Vec<Vec<i64>>> = RefCell::new(Vec::new());
    let cost = |pos: &[i64]| -> i64 {
        seen.borrow_mut().push(pos.to_vec());
        taxicab(pos)
    };
    let mut pop = Population::new(scripted_settings(1, 2, rng, cost));
    assert_eq!(pop.eval(), Some(2_000_000));
    assert_eq!(pop.eval(), Some(2_000_000));
    assert_eq!(pop.eval(), Some(2_000_000));
    assert_eq!(left.borrow().len(), 0);
    assert_eq!(pop.eval(), Some(1_400_000));
    let seen = seen.borrow();
    // slot 1: 8 + 0.1 * (8 - 2) = 8.6, which leaves the best alone;
    // slot 0: 2 + 0.1 * (2 - 8) = 1.4, which is the new best
    assert_eq!(seen[2], vec![8_600_000]);
    assert_eq!(seen[3], vec![1_400_000]);
    assert_eq!(pop.best().unwrap(), (1_400_000, &[1_400_000][..]));
}

#[test]
fn breed_mutates_the_forced_dimension_whatever_the_rolls() {
    let best = vec![
        individual(&[1_000_000, 10], Some(1), 5, 500_000),
        individual(&[3_000_000, 20], Some(2), 6, 600_000),
        individual(&[5_000_000, 30], Some(3), 7, 700_000),
    ];
    let mut child = individual(&[0, 0], Some(9), 0, 0);
    // donors (1, 0, 2); nothing changes; the rolls are never below cr = 5
    let draws = Draws {
        first: 1,
        second: 0,
        third: 0,
        cr_roll: 900_000,
        cr_fresh: 1,
        f_roll: 900_000,
        f_fresh: 2,
        forced: 0,
        rolls: vec![999_999, 999_999],
    };
    breed(&mut child, &best, 0, &draws, TENTH, TENTH);
    // 5 + 0.5 * (3 - 1) = 6 in the forced dimension, the parent's elsewhere
    assert_eq!(child.pos, vec![6_000_000, 10]);
    assert_eq!(child.cost, None);
    assert_eq!(child.cr, 5);
    assert_eq!(child.f, 500_000);
}

#[test]
fn breed_crosses_where_the_roll_falls_below_the_rate() {
    let best = vec![
        individual(&[100, 200, 300], Some(1), 500_000, ONE),
        individual(&[110, 220, 330], Some(2), 0, 0),
        individual(&[150, 250, 350], Some(3), 0, 0),
        individual(&[170, 270, 370], Some(4), 0, 0),
    ];
    let mut child = individual(&[0, 0, 0], None, 0, 0);
    // donors: first 3; second raw 1 -> 1; third raw 0 -> 0
    let draws = Draws {
        first: 3,
        second: 1,
        third: 0,
        cr_roll: TENTH,
        cr_fresh: 1,
        f_roll: TENTH,
        f_fresh: 2,
        forced: 2,
        rolls: vec![499_999, 500_000, 999_999],
    };
    breed(&mut child, &best, 0, &draws, TENTH, TENTH);
    // 100 + (170 - 110), the parent's 200, 300 + (370 - 330)
    assert_eq!(child.pos, vec![160, 200, 340]);
    assert_eq!(child.cr, 500_000);
    assert_eq!(child.f, ONE);
}

#[test]
fn breed_takes_fresh_control_parameters_when_the_rolls_ask_for_them() {
    let best = vec![
        individual(&[100], Some(1), 500_000, ONE),
        individual(&[110], Some(2), 0, 0),
        individual(&[150], Some(3), 0, 0),
    ];
    let mut child = individual(&[0], None, 0, 0);
    // donors (0, 1, 2)
    let draws = Draws {
        first: 0,
        second: 0,
        third: 0,
        cr_roll: TENTH - 1,
        cr_fresh: 123,
        f_roll: 0,
        f_fresh: 2 * ONE,
        forced: 0,
        rolls: vec![0],
    };
    breed(&mut child, &best, 1, &draws, TENTH, TENTH);
    // 150 + 2 * (100 - 110)
    assert_eq!(child.pos, vec![130]);
    assert_eq!(child.cr, 123);
    assert_eq!(child.f, 2 * ONE);
    assert_eq!(child.cost, None);
}

#[test]
fn breed_in_a_single_slot_keeps_the_parent() {
    let best = vec![individual(&[7, -8, 9], Some(1), 1, 999_999)];
    let mut child = individual(&[0, 0, 0], Some(5), 0, 0);
    let draws = Draws {
        first: 0,
        second: 0,
        third: 0,
        cr_roll: 0,
        cr_fresh: ONE,
        f_roll: 999_999,
        f_fresh: 0,
        forced: 1,
        rolls: vec![0, 0, 0],
    };
    breed(&mut child, &best, 0, &draws, TENTH, TENTH);
    assert_eq!(child.pos, vec![7, -8, 9]);
    assert_eq!(child.cost, None);
    assert_eq!(child.cr, ONE);
    assert_eq!(child.f, 999_999);
}
