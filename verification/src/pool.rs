//! The pool and the handles it lends items through.
//!
//! A pool is a [`Queue`] of free items behind one lock, and one condition
//! variable on which takers wait for an item to come back. Everything that
//! is done to the queue is done by a method of [`Queue`] while the lock is
//! held; which items the queue holds at that moment depends on what other
//! threads have done, so the contracts of this module say nothing of it. What
//! a take or a return does to the queue, whatever it is found to hold, is
//! stated by [`Queue::claim`] and [`Queue::reclaim`]; what holds of the pool
//! as a whole is stated in [`crate::custody`].

use crate::queue::Queue;
use crate::sync::{lock, queue_mut, wait_claim};
use std::ops::{Deref, DerefMut};
use std::sync::{Condvar, Mutex};
use vstd::prelude::*;

verus! {

/// Container for objects that can be taken out.
#[verifier::reject_recursive_types(T)]
pub struct Pool<T> {
    items: Mutex<Queue<T>>,
    value_returned: Condvar,
    stock: Ghost<Seq<T>>,
}

impl<T> Pool<T> {
    /// What the pool was built with: the view of the queue that was put
    /// behind its lock, before any thread took from it. The custody of the
    /// pool starts from it, as [`crate::custody::Custody::initial`] of it.
    pub closed spec fn stock(&self) -> Seq<T> {
        self.stock@
    }

    /// Construct a new pool that holds `items`. All of them are free, and
    /// they are served in the order given.
    pub fn new(items: Vec<T>) -> (pool: Self)
        ensures
            pool.stock() == items@,
    {
        let queue = Queue::new(items);
        let stock = Ghost(queue@);
        Pool { items: Mutex::new(queue), value_returned: Condvar::new(), stock }
    }

    /// Remove an item from the pool; this takes the item that has waited
    /// longest, and blocks for as long as no item is free.
    ///
    /// The handle always holds an item, and gives it back to this pool when
    /// it is dropped. Nothing resets the item: whoever takes it next finds it
    /// as it was left.
    ///
    /// Panics if the pool's lock is poisoned.
    pub fn take(&self) -> (handle: Returnable<'_, T>)
        ensures
            handle.pool() == *self,
    {
        let guard = lock(&self.items);
        let value = wait_claim(&self.value_returned, guard);
        Returnable { value: Some(value), pool: self }
    }

    /// Gives the item in `value`, if one is left in it, back to the pool: puts
    /// it behind the items that are free, then wakes one thread that waits in
    /// [`Pool::take`]. The lock is given up before the thread is woken, and
    /// the item is in the queue before that. `value` is empty afterwards, so
    /// that a second call finds nothing to give back.
    ///
    /// Panics if the pool's lock is poisoned.
    fn return_(&self, value: &mut Option<T>)
        ensures
            *final(value) is None,
    {
        let returned = {
            let mut guard = lock(&self.items);
            queue_mut(&mut guard).reclaim(value)
        };
        if returned {
            self.value_returned.notify_one();
        }
    }
}

/// The item in a slot that is known to hold one.
fn item_mut<T>(slot: &mut Option<T>) -> (item: &mut T)
    requires
        *old(slot) is Some,
    ensures
        *item == (*old(slot))->0,
        *final(slot) == Some(*final(item)),
    no_unwind
{
    match slot {
        Some(item) => item,
        None => vstd::pervasive::unreached(),
    }
}

/// A smart pointer that holds an object taken from a pool.
///
/// Returns the object to the pool when dropped.
///
/// The view of a handle is the item that it holds.
#[verifier::reject_recursive_types(T)]
pub struct Returnable<'p, T> {
    // An `Option` only so that `drop` can move the item out. It is `Some` for
    // as long as the handle can be used.
    value: Option<T>,
    pool: &'p Pool<T>,
}

impl<'p, T> View for Returnable<'p, T> {
    type V = T;

    closed spec fn view(&self) -> T {
        self.value->0
    }
}

impl<'p, T> Returnable<'p, T> {
    #[verifier::type_invariant]
    spec fn holds_item(self) -> bool {
        self.value is Some
    }

    /// The pool that the item was taken from and goes back to.
    pub closed spec fn pool(self) -> Pool<T> {
        *self.pool
    }
}

impl<'p, T> Drop for Returnable<'p, T> {
    /// `Drop::drop`, which Rust runs once when the handle goes out of scope
    /// or is dropped by hand: the item goes back to the pool.
    ///
    /// Verus takes it that no `drop` unwinds or opens an invariant, and does
    /// not check this one. It opens none. It unwinds where [`Pool::take`]
    /// would: when the pool's lock is poisoned.
    #[verifier::external_body]
    fn drop(&mut self)
        opens_invariants none
        no_unwind
    {
        self.pool.return_(&mut self.value)
    }
}

impl<'p, T> Deref for Returnable<'p, T> {
    type Target = T;

    fn deref(&self) -> (item: &T)
        ensures
            *item == self@,
    {
        proof {
            use_type_invariant(self);
        }
        self.value.as_ref().unwrap()
    }
}

impl<'p, T> DerefMut for Returnable<'p, T> {
    fn deref_mut(&mut self) -> (item: &mut T)
        ensures
            *item == old(self)@,
            final(self)@ == *final(item),
            final(self).pool() == old(self).pool(),
    {
        proof {
            use_type_invariant(&*self);
        }
        item_mut(&mut self.value)
    }
}

} // verus!
