//! Abstract container interfaces: sketches of the classic collection
//! shapes (queue, stack, priority queue, deque, list, unordered and
//! sorted set), declared for users of the crate to implement. No
//! implementation is provided here, and the declarations carry no
//! contracts: an implementor states its own.

use vstd::prelude::*;

verus! {

/// A first-in, first-out container.
pub trait Queue<T> {
    fn add(&mut self, x: T);

    fn remove(&mut self) -> T;
}

/// A last-in, first-out container.
pub trait Stack<T> {
    fn push(&mut self, x: T);

    fn pop(&mut self) -> T;
}

/// A container that hands back its elements smallest priority first.
pub trait PriorityQueue<T> {
    fn add(&mut self, x: T, priority: usize);

    fn delete_min(&mut self) -> T;
}

/// A container that adds and removes at both ends.
pub trait Deque<T> {
    fn add_first(&mut self, x: T);

    fn remove_first(&mut self) -> T;

    fn add_last(&mut self, x: T);

    fn remove_last(&mut self) -> T;
}

/// A sequence addressed by position.
pub trait List<T> {
    fn size(&self) -> usize;

    fn get(&self, i: usize) -> T;

    fn set(&mut self, i: usize, x: T);

    fn add(&mut self, i: usize, x: T);

    fn remove(&mut self, i: usize) -> T;
}

/// An unordered collection of distinct elements.
pub trait USet<T> {
    fn size() -> usize;

    fn add(&mut self, x: T) -> bool;

    fn remove(&mut self, x: &T) -> Option<T>;

    fn find(&self, x: &T) -> Option<T>;
}

/// A sorted collection of distinct elements.
pub trait SSet<T> {
    fn size() -> usize;

    fn add(&mut self, x: T) -> bool;

    fn remove(&mut self, x: &T) -> Option<T>;

    fn find(&self, x: &T) -> Option<T>;
}

} // verus!
