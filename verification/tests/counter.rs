use gpui_utils::utils::counter::{count_after, next_count};
use gpui_utils::utils::{atomic_incr_if_not_zero, post_inc};
use std::sync::atomic::{AtomicUsize, Ordering};

#[test]
fn post_inc_returns_the_old_value() {
    let mut value = 41u64;
    assert_eq!(post_inc(&mut value), 41);
    assert_eq!(value, 42);
    assert_eq!(post_inc(&mut value), 42);
    assert_eq!(value, 43);
}

#[test]
fn post_inc_works_on_other_integers() {
    let mut id = 0usize;
    assert_eq!(post_inc(&mut id), 0);
    assert_eq!(id, 1);
    let mut offset = -1i32;
    assert_eq!(post_inc(&mut offset), -1);
    assert_eq!(offset, 0);
}

#[test]
fn counter_at_zero_stays() {
    let counter = AtomicUsize::new(0);
    assert_eq!(atomic_incr_if_not_zero(&counter), 0);
    assert_eq!(counter.load(Ordering::SeqCst), 0);
}

#[test]
fn counter_above_zero_goes_up() {
    let counter = AtomicUsize::new(1);
    assert_eq!(atomic_incr_if_not_zero(&counter), 2);
    assert_eq!(atomic_incr_if_not_zero(&counter), 3);
    assert_eq!(counter.load(Ordering::SeqCst), 3);
}

#[test]
fn no_increment_is_lost_or_made_twice() {
    let counter = AtomicUsize::new(5);
    for nth in 1..=100 {
        assert_eq!(atomic_incr_if_not_zero(&counter), 5 + nth);
    }
    assert_eq!(counter.load(Ordering::SeqCst), 105);
    let stopped = AtomicUsize::new(0);
    for _ in 0..100 {
        assert_eq!(atomic_incr_if_not_zero(&stopped), 0);
    }
    assert_eq!(stopped.load(Ordering::SeqCst), 0);
}

#[test]
fn counter_wraps_at_its_limit() {
    let counter = AtomicUsize::new(usize::MAX);
    assert_eq!(atomic_incr_if_not_zero(&counter), 0);
    assert_eq!(counter.load(Ordering::SeqCst), 0);
}

#[test]
fn next_count_of_zero_is_none() {
    assert_eq!(next_count(0), None);
    assert_eq!(next_count(1), Some(2));
    assert_eq!(next_count(usize::MAX), Some(0));
}

#[test]
fn count_after_an_attempt() {
    assert_eq!(count_after(Ok(7)), 8);
    assert_eq!(count_after(Err(0)), 0);
    assert_eq!(count_after(Ok(usize::MAX)), 0);
}
