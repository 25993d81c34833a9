use mandelbrot::budget::{decrease, increase, step_size, BATCH_STEP, DEFAULT_BUDGET, SINGLE_STEP};

#[test]
fn step_is_one_without_modifier() {
    assert_eq!(step_size(false), 1);
    assert_eq!(SINGLE_STEP, 1);
}

#[test]
fn step_is_ten_with_modifier() {
    assert_eq!(step_size(true), 10);
    assert_eq!(BATCH_STEP, 10);
}

#[test]
fn default_budget_is_one_hundred() {
    assert_eq!(DEFAULT_BUDGET, 100);
}

#[test]
fn increase_adds_the_step() {
    assert_eq!(increase(100, 1), 101);
    assert_eq!(increase(100, 10), 110);
    assert_eq!(increase(1, 0), 1);
}

#[test]
fn increase_reaches_the_top_of_the_range() {
    assert_eq!(increase(usize::MAX - 10, 10), usize::MAX);
    assert_eq!(increase(usize::MAX - 1, 1), usize::MAX);
}

#[test]
fn increase_has_no_effect_where_it_would_overflow() {
    assert_eq!(increase(usize::MAX, 1), usize::MAX);
    assert_eq!(increase(usize::MAX - 9, 10), usize::MAX - 9);
    assert_eq!(increase(5, usize::MAX), 5);
}

#[test]
fn decrease_subtracts_the_step() {
    assert_eq!(decrease(100, 1), 99);
    assert_eq!(decrease(100, 10), 90);
    assert_eq!(decrease(11, 10), 1);
    assert_eq!(decrease(2, 1), 1);
}

#[test]
fn decrease_never_goes_below_one() {
    assert_eq!(decrease(1, 1), 1);
    assert_eq!(decrease(10, 10), 10);
    assert_eq!(decrease(5, 10), 5);
    assert_eq!(decrease(1, usize::MAX), 1);
}

#[test]
fn decrease_undoes_increase() {
    for budget in [1usize, 2, 9, 10, 11, 100, 12345] {
        for step in [1usize, 10] {
            assert_eq!(decrease(increase(budget, step), step), budget);
        }
    }
}

#[test]
fn budget_stays_positive_under_any_sequence() {
    let mut budget = 25usize;
    for round in 0..40 {
        budget = decrease(budget, step_size(round % 3 == 0));
        assert!(budget >= 1);
    }
    assert_eq!(budget, 1);
}
