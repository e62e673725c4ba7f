//! The queue of free items: first in, first out.

use std::collections::VecDeque;
use vstd::prelude::*;

verus! {

/// The item that a queue holding `items` serves next, if it holds any.
pub open spec fn front<T>(items: Seq<T>) -> Option<T> {
    if items.len() > 0 {
        Some(items[0])
    } else {
        None
    }
}

/// What a queue holding `items` is left with once it has served its front
/// item; an empty queue stays as it is.
pub open spec fn rest<T>(items: Seq<T>) -> Seq<T> {
    if items.len() > 0 {
        items.drop_first()
    } else {
        items
    }
}

/// The free items of a pool, oldest first.
///
/// The view of a queue is the sequence of its items in the order in which
/// they will be served: index 0 is the item that has waited longest.
pub struct Queue<T> {
    items: VecDeque<T>,
}

impl<T> View for Queue<T> {
    type V = Seq<T>;

    closed spec fn view(&self) -> Seq<T> {
        self.items@
    }
}

impl<T> Queue<T> {
    /// A queue that holds `items`, to be served in the order given.
    pub fn new(items: Vec<T>) -> (queue: Self)
        ensures
            queue@ == items@,
    {
        let mut free: VecDeque<T> = VecDeque::new();
        for item in feed: items.into_iter()
            invariant
                free@ == feed.seq().take(feed.index()),
        {
            free.push_back(item);
        }
        Queue { items: free }
    }

    /// The number of free items.
    pub fn len(&self) -> (n: usize)
        ensures
            n == self@.len(),
    {
        self.items.len()
    }

    /// Removes and returns the item that has waited longest, or returns
    /// `None` and changes nothing when no item is free.
    pub fn take(&mut self) -> (item: Option<T>)
        ensures
            item == front(old(self)@),
            final(self)@ == rest(old(self)@),
    {
        self.items.pop_front()
    }

    /// Appends `item` behind every item that is already waiting.
    pub fn put(&mut self, item: T)
        ensures
            final(self)@ == old(self)@.push(item),
    {
        self.items.push_back(item);
    }

    /// Moves the item out of `slot`, if it holds one, behind every item that
    /// is already waiting, and answers whether it did. The slot is empty
    /// afterwards: asked again, the queue takes nothing from it.
    pub fn reclaim(&mut self, slot: &mut Option<T>) -> (returned: bool)
        ensures
            *final(slot) is None,
            returned == (*old(slot) is Some),
            final(self)@ == match *old(slot) {
                Some(item) => old(self)@.push(item),
                None => old(self)@,
            },
    {
        match slot.take() {
            Some(item) => {
                self.put(item);
                true
            },
            None => false,
        }
    }

    /// Moves the front item into `slot` and answers whether the caller has to
    /// wait: `true` exactly when the queue was empty, in which case `slot` is
    /// set to `None`.
    pub fn claim(&mut self, slot: &mut Option<T>) -> (wait: bool)
        ensures
            *final(slot) == front(old(self)@),
            final(self)@ == rest(old(self)@),
            wait == (old(self)@.len() == 0),
    {
        *slot = self.take();
        slot.is_none()
    }
}

} // verus!
