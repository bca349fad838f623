use std::cell::RefCell;
use std::rc::Rc;

use rusty_gists::cache::Cacher;

fn counting_adder(count: &Rc<RefCell<u64>>) -> impl Fn(u64, u64) -> u64 {
    let count = Rc::clone(count);
    move |x: u64, y: u64| {
        *count.borrow_mut() += 1;
        x + y
    }
}

#[test]
fn first_call_on_fresh_cache_computes() {
    let count = Rc::new(RefCell::new(0u64));
    let mut cacher = Cacher::new(counting_adder(&count));
    assert_eq!(*count.borrow(), 0);
    assert_eq!(cacher.value(7, 9), 16);
    assert_eq!(*count.borrow(), 1);
}

#[test]
fn no_recomputation_on_hit() {
    let count = Rc::new(RefCell::new(0u64));
    let mut cacher = Cacher::new(counting_adder(&count));
    assert_eq!(cacher.value(2, 3), 5);
    assert_eq!(*count.borrow(), 1);
    assert_eq!(cacher.value(2, 3), 5);
    assert_eq!(*count.borrow(), 1);
    assert_eq!(cacher.value(2, 4), 6);
    assert_eq!(*count.borrow(), 2);
}

#[test]
fn repeated_calls_observe_one_value_and_one_computation() {
    let count = Rc::new(RefCell::new(0u64));
    let mut cacher = Cacher::new(counting_adder(&count));
    for _ in 0..5 {
        assert_eq!(cacher.value(2, 3), 5);
    }
    assert_eq!(*count.borrow(), 1);
    assert_eq!(cacher.len(), 1);
}

#[test]
fn adversarial_pairs_use_distinct_keys() {
    // (1, 23) and (12, 3) would collide under a key made by
    // concatenating decimal representations; they must not here.
    let mut cacher = Cacher::new(|a: u64, b: u64| a + b * 1000);
    assert_eq!(cacher.value(1, 23), 23001);
    assert_eq!(cacher.value(12, 3), 3012);
    assert_eq!(cacher.value(1, 23), 23001);
    assert_eq!(cacher.value(12, 3), 3012);
    assert_eq!(cacher.len(), 2);
}

#[test]
fn insertion_order_across_keys_does_not_matter() {
    let mut first_then_second = Cacher::new(|a: u64, b: u64| a * 100 + b);
    let mut second_then_first = Cacher::new(|a: u64, b: u64| a * 100 + b);
    first_then_second.value(1, 2);
    first_then_second.value(3, 4);
    second_then_first.value(3, 4);
    second_then_first.value(1, 2);
    assert_eq!(first_then_second.len(), 2);
    assert_eq!(second_then_first.len(), 2);
    assert_eq!(first_then_second.value(1, 2), second_then_first.value(1, 2));
    assert_eq!(first_then_second.value(3, 4), second_then_first.value(3, 4));
}

#[test]
fn store_grows_one_entry_per_distinct_pair() {
    let count = Rc::new(RefCell::new(0u64));
    let mut cacher = Cacher::new(counting_adder(&count));
    // Seven calls over three distinct pairs.
    let pairs = [(1, 2), (3, 4), (1, 2), (5, 6), (3, 4), (1, 2), (5, 6)];
    for (a, b) in pairs {
        assert_eq!(cacher.value(a, b), a + b);
    }
    assert_eq!(cacher.len(), 3);
    assert_eq!(*count.borrow(), 3);
}

#[test]
fn empty_cache_has_no_entries() {
    let cacher = Cacher::new(|a: u64, b: u64| a * b);
    assert_eq!(cacher.len(), 0);
}

#[test]
fn cached_value_is_fixed_by_first_call() {
    // The computation is deliberately non-deterministic between calls;
    // the cache must keep returning what the first call produced.
    let count = Rc::new(RefCell::new(0u64));
    let inner = Rc::clone(&count);
    let mut cacher = Cacher::new(move |x: u64, y: u64| {
        *inner.borrow_mut() += 1;
        x + y + *inner.borrow() * 1000
    });
    assert_eq!(cacher.value(2, 3), 1005);
    assert_eq!(cacher.value(2, 3), 1005);
    assert_eq!(cacher.value(2, 4), 2006);
    assert_eq!(cacher.value(2, 3), 1005);
}
