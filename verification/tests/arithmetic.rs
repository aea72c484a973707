use differential_evolution::donors::pick_donors;
use differential_evolution::fixed::mutate;
use differential_evolution::fixed::ONE;
use differential_evolution::fixed::TENTH;

#[test]
fn one_is_a_million_units() {
    assert_eq!(ONE, 1_000_000);
    assert_eq!(TENTH * 10, ONE);
}

#[test]
fn mutate_adds_the_weighted_difference() {
    // 5 + 0.5 * (3 - 1) = 6
    assert_eq!(mutate(3 * ONE, ONE, 5 * ONE, ONE / 2), 6 * ONE);
    // 5 + 0.5 * (1 - 3) = 4
    assert_eq!(mutate(ONE, 3 * ONE, 5 * ONE, ONE / 2), 4 * ONE);
    // -2.5 + 0.8 * (1.25 - (-0.75)) = -0.9
    assert_eq!(mutate(1_250_000, -750_000, -2_500_000, 800_000), -900_000);
}

#[test]
fn mutate_with_zero_weight_returns_the_third_donor() {
    assert_eq!(mutate(17, -4, 123_456, 0), 123_456);
    assert_eq!(mutate(i64::MAX, i64::MIN, -9, 0), -9);
}

#[test]
fn mutate_with_equal_donors_returns_the_third_donor() {
    assert_eq!(mutate(42, 42, -7, 999_999), -7);
}

#[test]
fn mutate_rounds_towards_negative_infinity() {
    // 0.5 * 1 unit is half a unit: down to 0
    assert_eq!(mutate(1, 0, 0, ONE / 2), 0);
    // 0.5 * -1 unit is minus half a unit: down to -1
    assert_eq!(mutate(0, 1, 0, ONE / 2), -1);
    assert_eq!(mutate(0, 3, 10, ONE / 2), 8);
    assert_eq!(mutate(3, 0, 10, ONE / 2), 11);
    // a negative weight on a positive difference rounds down too
    assert_eq!(mutate(1, 0, 0, -ONE / 2), -1);
}

#[test]
fn mutate_saturates_at_the_ends_of_the_range() {
    assert_eq!(mutate(i64::MAX, i64::MIN, i64::MAX, 2 * ONE), i64::MAX);
    assert_eq!(mutate(i64::MIN, i64::MAX, i64::MIN, 2 * ONE), i64::MIN);
    assert_eq!(mutate(i64::MAX, i64::MIN, 0, i64::MAX), i64::MAX);
    assert_eq!(mutate(i64::MAX, i64::MIN, 0, i64::MIN), i64::MIN);
    assert_eq!(mutate(1, 0, i64::MAX, ONE), i64::MAX);
    assert_eq!(mutate(0, 1, i64::MIN, ONE), i64::MIN);
}

#[test]
fn mutate_reaches_the_last_value_before_saturation() {
    assert_eq!(mutate(1, 0, i64::MAX - 1, ONE), i64::MAX);
    assert_eq!(mutate(1, 0, i64::MAX - 2, ONE), i64::MAX - 1);
    assert_eq!(mutate(0, 1, i64::MIN + 2, ONE), i64::MIN + 1);
}

#[test]
fn donors_skip_the_slots_already_taken() {
    assert_eq!(pick_donors(2, 2, 1, 5), (2, 3, 1));
    assert_eq!(pick_donors(0, 0, 0, 3), (0, 1, 2));
    assert_eq!(pick_donors(1, 0, 0, 3), (1, 0, 2));
    assert_eq!(pick_donors(2, 1, 0, 3), (2, 1, 0));
    assert_eq!(pick_donors(4, 3, 2, 5), (4, 3, 2));
    assert_eq!(pick_donors(0, 3, 2, 5), (0, 4, 3));
    assert_eq!(pick_donors(3, 1, 1, 5), (3, 1, 2));
    assert_eq!(pick_donors(1, 2, 1, 5), (1, 3, 2));
}

#[test]
fn donors_are_pairwise_distinct_for_every_raw_draw() {
    for n in 3usize..8 {
        let mut seen: Vec<(usize, usize, usize)> = Vec::new();
        for a in 0..n {
            for b in 0..n - 1 {
                for c in 0..n - 2 {
                    let (r1, r2, r3) = pick_donors(a, b, c, n);
                    assert!(r1 < n && r2 < n && r3 < n);
                    assert!(r1 != r2 && r1 != r3 && r2 != r3);
                    assert!(!seen.contains(&(r1, r2, r3)));
                    seen.push((r1, r2, r3));
                }
            }
        }
        assert_eq!(seen.len(), n * (n - 1) * (n - 2));
    }
}

#[test]
fn donors_of_a_single_slot_are_that_slot() {
    assert_eq!(pick_donors(0, 0, 0, 1), (0, 0, 0));
}

#[test]
fn donors_of_two_slots_keep_the_first_two_apart() {
    assert_eq!(pick_donors(0, 0, 0, 2), (0, 1, 0));
    assert_eq!(pick_donors(0, 0, 1, 2), (0, 1, 1));
    assert_eq!(pick_donors(1, 0, 0, 2), (1, 0, 0));
    assert_eq!(pick_donors(1, 0, 1, 2), (1, 0, 1));
}
