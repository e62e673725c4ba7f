//! Where the items of a pool are.
//!
//! The pool's lock hides its queue from every thread but the one that holds
//! it, and a handle is owned by one thread alone; no single place in the
//! program sees all items at once. [`Custody`] is that missing view: for every
//! item of a pool, whether it is free or lent, and what it holds now. An
//! [`Event`] is one thing that happens to a pool, and [`Custody::after`] says
//! what it changes. A pool starts in [`Custody::initial`] of its
//! [`crate::pool::Pool::stock`]. The laws below hold after any sequence of
//! events, that is, however the calls of the threads that share the pool
//! interleave.
//!
//! The queue of a custody moves as the contracts of [`crate::queue::Queue`]
//! say: a take leaves [`rest`] of it and hands out its [`front`], a release
//! pushes what the item holds.
//!
//! The laws are proved of the custody. That a pool goes through these events
//! one at a time is not proved here. It rests on the lock, under which alone
//! the queue is read and written, and on the ownership of a handle, through
//! which alone a lent item is reached.

use crate::queue::{front, rest};
use vstd::prelude::*;

verus! {

/// The numbers `0, 1, .., n - 1`. The items of a pool are numbered in the
/// order in which they were given to it.
pub open spec fn numbers(n: nat) -> Seq<int> {
    Seq::new(n, |k: int| k)
}

/// What the items of the given numbers hold, in the order of the numbers.
pub open spec fn values_of<T>(items: Seq<T>, numbers: Seq<int>) -> Seq<T> {
    Seq::new(numbers.len(), |j: int| items[numbers[j]])
}

/// The place of every item of a pool at one moment.
pub struct Custody<T> {
    /// What each item holds now; item `k` is the one that was given `k`-th.
    pub items: Seq<T>,
    /// The numbers of the free items, in the order in which they will be
    /// served.
    pub free: Seq<int>,
    /// The numbers of the lent items: one entry for every live handle, the
    /// oldest handle first.
    pub lent: Seq<int>,
}

/// One thing that happens to a pool.
pub enum Event<T> {
    /// A thread asks for an item. It gets the one that has waited longest; if
    /// none is free it waits, and nothing changes.
    Take,
    /// The handle that holds the item of this number writes this value to it.
    Alter(int, T),
    /// The handle that holds the item of this number gives it back.
    Release(int),
}

impl<T> Custody<T> {
    /// A pool as it is built: every item is free, in the order given.
    pub open spec fn initial(items: Seq<T>) -> Self {
        Custody { items, free: numbers(items.len()), lent: Seq::empty() }
    }

    /// What the free items hold, in the order in which they will be served:
    /// the view of the pool's queue.
    pub open spec fn queue(self) -> Seq<T> {
        values_of(self.items, self.free)
    }

    /// What the live handles hold, the oldest handle first: the views of the
    /// handles.
    pub open spec fn held(self) -> Seq<T> {
        values_of(self.items, self.lent)
    }

    /// The custody after `event`. An event that cannot happen changes
    /// nothing: a take while no item is free waits, and no handle alters or
    /// gives back an item that it does not hold.
    pub open spec fn after(self, event: Event<T>) -> Self {
        match event {
            Event::Take => if self.free.len() > 0 {
                Custody {
                    free: self.free.drop_first(),
                    lent: self.lent.push(self.free[0]),
                    ..self
                }
            } else {
                self
            },
            Event::Alter(k, value) => if self.lent.contains(k) {
                Custody { items: self.items.update(k, value), ..self }
            } else {
                self
            },
            Event::Release(k) => if self.lent.contains(k) {
                Custody { free: self.free.push(k), lent: self.lent.remove_value(k), ..self }
            } else {
                self
            },
        }
    }

    /// The custody after `events`, one after the other.
    pub open spec fn after_all(self, events: Seq<Event<T>>) -> Self
        decreases events.len(),
    {
        if events.len() == 0 {
            self
        } else {
            self.after_all(events.drop_last()).after(events.last())
        }
    }

    /// Every item is in one place, once: the free items and the lent ones
    /// together are the items of the pool, each exactly once.
    pub open spec fn sound(self) -> bool {
        self.free.to_multiset().add(self.lent.to_multiset()) == numbers(
            self.items.len(),
        ).to_multiset()
    }
}

/// No handle writes to its item in `events`.
pub open spec fn unaltered<T>(events: Seq<Event<T>>) -> bool {
    forall|j: int| 0 <= j < events.len() ==> !(#[trigger] events[j] is Alter)
}

/// `n` takes, one after the other.
pub open spec fn takes<T>(n: nat) -> Seq<Event<T>> {
    Seq::new(n, |i: int| Event::Take)
}

/// Each of the numbers `0, .., n - 1` occurs once among them, and no other
/// number does.
pub proof fn lemma_numbers_once(n: nat, k: int)
    ensures
        numbers(n).to_multiset().count(k) == if 0 <= k < n {
            1nat
        } else {
            0nat
        },
    decreases n,
{
    broadcast use vstd::seq_lib::group_to_multiset_ensures;

    if n > 0 {
        let shorter = (n - 1) as nat;
        lemma_numbers_once(shorter, k);
        assert(numbers(n) =~= numbers(shorter).push(shorter as int));
    }
}

/// In a sound custody an item of the pool is free once or lent once, never
/// both, and nothing but the pool's items is free or lent.
pub proof fn lemma_one_place<T>(c: Custody<T>, k: int)
    requires
        c.sound(),
    ensures
        c.free.to_multiset().count(k) + c.lent.to_multiset().count(k) == if 0 <= k
            < c.items.len() {
            1nat
        } else {
            0nat
        },
        c.free.contains(k) <==> c.free.to_multiset().count(k) > 0,
        c.lent.contains(k) <==> c.lent.to_multiset().count(k) > 0,
{
    broadcast use vstd::seq_lib::group_to_multiset_ensures;

    lemma_numbers_once(c.items.len(), k);
}

/// A number that occurs once in `numbers` occurs at one index only.
proof fn lemma_once_is_at_one_index(numbers: Seq<int>, i: int, j: int)
    requires
        0 <= i < numbers.len(),
        0 <= j < numbers.len(),
        numbers[i] == numbers[j],
        numbers.to_multiset().count(numbers[i]) <= 1,
    ensures
        i == j,
{
    broadcast use vstd::seq_lib::group_to_multiset_ensures;

    if i != j {
        let k = numbers[i];
        let other = if i < j {
            i
        } else {
            i - 1
        };
        assert(numbers.remove(j)[other] == k);
        assert(numbers.remove(j).to_multiset().count(k) > 0);
        assert(numbers.remove(j).to_multiset() == numbers.to_multiset().remove(k));
    }
}

/// In a sound custody no item is free twice, none is lent twice, none is
/// both, and every free or lent number is the number of an item.
pub proof fn lemma_sound_is_duplicate_free<T>(c: Custody<T>)
    requires
        c.sound(),
    ensures
        c.free.no_duplicates(),
        c.lent.no_duplicates(),
        forall|j: int| 0 <= j < c.free.len() ==> 0 <= #[trigger] c.free[j] < c.items.len(),
        forall|j: int| 0 <= j < c.lent.len() ==> 0 <= #[trigger] c.lent[j] < c.items.len(),
        forall|i: int, j: int|
            0 <= i < c.free.len() && 0 <= j < c.lent.len() ==> #[trigger] c.free[i]
                != #[trigger] c.lent[j],
{
    assert forall|i: int, j: int| 0 <= i < c.free.len() && 0 <= j < c.free.len() && i
        != j implies c.free[i] != c.free[j] by {
        if c.free[i] == c.free[j] {
            lemma_one_place(c, c.free[i]);
            lemma_once_is_at_one_index(c.free, i, j);
        }
    }
    assert forall|i: int, j: int| 0 <= i < c.lent.len() && 0 <= j < c.lent.len() && i
        != j implies c.lent[i] != c.lent[j] by {
        if c.lent[i] == c.lent[j] {
            lemma_one_place(c, c.lent[i]);
            lemma_once_is_at_one_index(c.lent, i, j);
        }
    }
    assert forall|j: int| 0 <= j < c.free.len() implies 0 <= #[trigger] c.free[j]
        < c.items.len() by {
        lemma_one_place(c, c.free[j]);
    }
    assert forall|j: int| 0 <= j < c.lent.len() implies 0 <= #[trigger] c.lent[j]
        < c.items.len() by {
        lemma_one_place(c, c.lent[j]);
    }
    assert forall|i: int, j: int| 0 <= i < c.free.len() && 0 <= j < c.lent.len() implies
        #[trigger] c.free[i] != #[trigger] c.lent[j] by {
        lemma_one_place(c, c.free[i]);
    }
}

/// Numbers that are the same but for their order name items that hold the
/// same but for their order.
proof fn lemma_values_follow_numbers<T>(items: Seq<T>, a: Seq<int>, b: Seq<int>)
    requires
        a.to_multiset() == b.to_multiset(),
    ensures
        values_of(items, a).to_multiset() == values_of(items, b).to_multiset(),
    decreases a.len(),
{
    broadcast use vstd::seq_lib::group_to_multiset_ensures;

    assert(a.to_multiset().len() == a.len() && b.to_multiset().len() == b.len());
    if a.len() > 0 {
        let k = a.last();
        assert(a.to_multiset().count(k) > 0);
        assert(b.contains(k));
        let i = b.index_of(k);
        assert(a.drop_last() =~= a.remove(a.len() - 1));
        lemma_values_follow_numbers(items, a.drop_last(), b.remove(i));
        assert(values_of(items, a) =~= values_of(items, a.drop_last()).push(items[k]));
        assert(values_of(items, b.remove(i)) =~= values_of(items, b).remove(i));
        assert(values_of(items, b)[i] == items[k]);
    }
}

/// In a sound custody what the queue and the live handles hold, taken
/// together, is what the items hold.
pub proof fn lemma_sound_holds_all<T>(c: Custody<T>)
    requires
        c.sound(),
    ensures
        c.queue().to_multiset().add(c.held().to_multiset()) == c.items.to_multiset(),
{
    broadcast use vstd::seq_lib::lemma_multiset_commutative;

    let all = numbers(c.items.len());
    lemma_values_follow_numbers(c.items, c.free + c.lent, all);
    assert(values_of(c.items, c.free + c.lent) =~= c.queue() + c.held());
    assert(values_of(c.items, all) =~= c.items);
}

/// One event keeps a sound custody sound, and neither adds nor drops an item.
pub proof fn lemma_event_keeps_sound<T>(c: Custody<T>, event: Event<T>)
    requires
        c.sound(),
    ensures
        c.after(event).sound(),
        c.after(event).items.len() == c.items.len(),
        !(event is Alter) ==> c.after(event).items == c.items,
{
    broadcast use vstd::seq_lib::group_to_multiset_ensures;

    let d = c.after(event);
    lemma_sound_is_duplicate_free(c);
    match event {
        Event::Take => {
            if c.free.len() > 0 {
                assert(c.free.remove(0) =~= c.free.drop_first());
                assert(d.free.to_multiset().add(d.lent.to_multiset()) =~= c.free.to_multiset().add(
                    c.lent.to_multiset(),
                ));
            }
        },
        Event::Alter(k, value) => {},
        Event::Release(k) => {
            if c.lent.contains(k) {
                c.lent.index_of_first_ensures(k);
                let i = c.lent.index_of_first(k)->0;
                assert(d.lent == c.lent.remove(i));
                assert(d.free.to_multiset().add(d.lent.to_multiset()) =~= c.free.to_multiset().add(
                    c.lent.to_multiset(),
                ));
            }
        },
    }
}

/// Conservation. Whatever happens to a pool, in whatever order, every item it
/// was built with is either free or lent, once, and nothing else is; so the
/// free and the lent items are always as many as the pool was built with,
/// and what the queue and the live handles hold, taken together, is what the
/// items hold. Where no handle writes to its item, that is what the pool was
/// built with.
pub proof fn lemma_conservation<T>(items: Seq<T>, events: Seq<Event<T>>)
    ensures
        Custody::initial(items).after_all(events).sound(),
        Custody::initial(items).after_all(events).free.len() + Custody::initial(
            items,
        ).after_all(events).lent.len() == items.len(),
        Custody::initial(items).after_all(events).queue().to_multiset().add(
            Custody::initial(items).after_all(events).held().to_multiset(),
        ) == Custody::initial(items).after_all(events).items.to_multiset(),
        Custody::initial(items).after_all(events).items.len() == items.len(),
        unaltered(events) ==> Custody::initial(items).after_all(events).items == items,
        unaltered(events) ==> Custody::initial(items).after_all(events).queue().to_multiset().add(
            Custody::initial(items).after_all(events).held().to_multiset(),
        ) == items.to_multiset(),
    decreases events.len(),
{
    broadcast use vstd::seq_lib::group_to_multiset_ensures;

    let start = Custody::initial(items);
    if events.len() == 0 {
        assert(start.free.to_multiset().add(start.lent.to_multiset())
            =~= start.free.to_multiset());
    } else {
        let before = start.after_all(events.drop_last());
        lemma_conservation(items, events.drop_last());
        lemma_event_keeps_sound(before, events.last());
        if unaltered(events) {
            assert(unaltered(events.drop_last())) by {
                assert forall|j: int| 0 <= j < events.drop_last().len() implies !(
                #[trigger] events.drop_last()[j] is Alter) by {
                    assert(events.drop_last()[j] == events[j]);
                }
            }
            assert(!(events.last() is Alter)) by {
                assert(events.last() == events[events.len() - 1]);
            }
        }
    }
    let now = start.after_all(events);
    lemma_sound_holds_all(now);
    assert(now.free.to_multiset().add(now.lent.to_multiset()).len() == numbers(
        items.len(),
    ).to_multiset().len());
}

/// No duplication. Whatever happens to a pool, no two live handles hold the
/// same item, and an item that a handle holds is not free: no take can hand
/// it out until it has been given back. No item is free twice over either.
pub proof fn lemma_no_duplication<T>(items: Seq<T>, events: Seq<Event<T>>)
    ensures
        Custody::initial(items).after_all(events).lent.no_duplicates(),
        Custody::initial(items).after_all(events).free.no_duplicates(),
        forall|k: int|
            !(Custody::initial(items).after_all(events).lent.contains(k) && Custody::initial(
                items,
            ).after_all(events).free.contains(k)),
{
    let now = Custody::initial(items).after_all(events);
    lemma_conservation(items, events);
    lemma_sound_is_duplicate_free(now);
}

/// A take serves the front of the queue and leaves the rest of it, as
/// [`crate::queue::Queue::take`] does; the item it serves is lent from then
/// on, to the newest handle. While the queue is empty a take changes
/// nothing: the taker waits.
pub proof fn lemma_take_serves_front<T>(c: Custody<T>)
    ensures
        c.after(Event::Take).queue() == rest(c.queue()),
        c.free.len() > 0 ==> front(c.queue()) == Some(c.items[c.free[0]]) && c.after(
            Event::Take,
        ).held() == c.held().push(c.items[c.free[0]]),
        c.free.len() == 0 ==> front(c.queue()) is None && c.after(Event::Take) == c,
{
    assert(c.after(Event::Take).queue() =~= rest(c.queue()));
    if c.free.len() > 0 {
        assert(c.after(Event::Take).held() =~= c.held().push(c.items[c.free[0]]));
    }
}

/// A release puts what the item holds behind everything that is free, as
/// [`crate::queue::Queue::reclaim`] does.
pub proof fn lemma_release_queues_last<T>(c: Custody<T>, k: int)
    requires
        c.lent.contains(k),
    ensures
        c.after(Event::Release(k)).queue() == c.queue().push(c.items[k]),
{
    assert(c.after(Event::Release(k)).queue() =~= c.queue().push(c.items[k]));
}

/// What a handle writes to its item reaches no free item: the queue holds
/// what it held.
pub proof fn lemma_alter_spares_queue<T>(c: Custody<T>, k: int, value: T)
    requires
        c.sound(),
    ensures
        c.after(Event::Alter(k, value)).queue() == c.queue(),
{
    if c.lent.contains(k) {
        lemma_sound_is_duplicate_free(c);
        assert(c.after(Event::Alter(k, value)).queue() =~= c.queue());
    }
}

/// What a handle has written to its item is what the queue holds last once
/// the item is given back: whoever is served the item next finds it as it
/// was left.
pub proof fn lemma_alter_is_kept<T>(c: Custody<T>, k: int, value: T)
    requires
        c.sound(),
        c.lent.contains(k),
    ensures
        c.after(Event::Alter(k, value)).after(Event::Release(k)).queue() == c.queue().push(
            value,
        ),
{
    lemma_sound_is_duplicate_free(c);
    lemma_alter_spares_queue(c, k, value);
    lemma_release_queues_last(c.after(Event::Alter(k, value)), k);
}

/// Release happens once. Giving back an item that a handle holds adds that
/// item, and no other, to the back of the queue; the item is lent no longer,
/// so that giving it back again changes nothing.
pub proof fn lemma_release_once<T>(c: Custody<T>, k: int)
    requires
        c.sound(),
        c.lent.contains(k),
    ensures
        c.after(Event::Release(k)).free == c.free.push(k),
        c.after(Event::Release(k)).lent.len() == c.lent.len() - 1,
        !c.after(Event::Release(k)).lent.contains(k),
        c.after(Event::Release(k)).after(Event::Release(k)) == c.after(Event::Release(k)),
{
    lemma_sound_is_duplicate_free(c);
    c.lent.index_of_first_ensures(k);
    let i = c.lent.index_of_first(k)->0;
    let given = c.after(Event::Release(k));
    assert(given.lent == c.lent.remove(i));
    if given.lent.contains(k) {
        let j = given.lent.index_of(k);
        let back = if j < i {
            j
        } else {
            j + 1
        };
        assert(c.lent[back] == k);
    }
}

/// Blocking and waking. While every item is lent a take waits; once one item
/// is given back the take goes through, and it is that item which the taker
/// gets.
pub proof fn lemma_release_wakes<T>(c: Custody<T>, k: int)
    requires
        c.sound(),
        c.free.len() == 0,
        c.lent.contains(k),
    ensures
        c.after(Event::Take) == c,
        front(c.after(Event::Release(k)).queue()) == Some(c.items[k]),
        c.after(Event::Release(k)).after(Event::Take).free == c.free,
        c.after(Event::Release(k)).after(Event::Take).lent == c.lent.remove_value(k).push(k),
{
    let given = c.after(Event::Release(k));
    let taken = given.after(Event::Take);
    assert(given.free =~= seq![k]);
    assert(taken.free =~= c.free);
}

/// A pool built with no item never has one: whatever happens, nothing is
/// free and nothing is lent, so every take waits.
pub proof fn lemma_empty_pool_never_serves<T>(events: Seq<Event<T>>)
    ensures
        Custody::initial(Seq::<T>::empty()).after_all(events) == Custody::initial(
            Seq::<T>::empty(),
        ),
        front(Custody::initial(Seq::<T>::empty()).after_all(events).queue()) is None,
    decreases events.len(),
{
    if events.len() > 0 {
        lemma_empty_pool_never_serves(events.drop_last());
    }
}

/// First in, first out. After `n` takes from a pool as it was built, the
/// first `n` items are lent, in that order, and the others are free in the
/// order given: the next take is served item `n`, and waits if there is
/// none.
pub proof fn lemma_takes_in_order<T>(items: Seq<T>, n: nat)
    requires
        n <= items.len(),
    ensures
        Custody::initial(items).after_all(takes(n)).items == items,
        Custody::initial(items).after_all(takes(n)).free == numbers(items.len()).skip(n as int),
        Custody::initial(items).after_all(takes(n)).lent == numbers(n),
        Custody::initial(items).after_all(takes(n)).queue() == items.skip(n as int),
        Custody::initial(items).after_all(takes(n)).held() == items.take(n as int),
    decreases n,
{
    let start = Custody::initial(items);
    let now = start.after_all(takes::<T>(n));
    if n == 0 {
        assert(now.free =~= numbers(items.len()).skip(0));
        assert(now.lent =~= numbers(0));
    } else {
        let fewer = (n - 1) as nat;
        let before = start.after_all(takes::<T>(fewer));
        lemma_takes_in_order(items, fewer);
        assert(takes::<T>(n).drop_last() =~= takes::<T>(fewer));
        assert(now == before.after(Event::Take));
        assert(before.free[0] == fewer as int);
        assert(now.free =~= numbers(items.len()).skip(n as int));
        assert(now.lent =~= numbers(n));
    }
    assert(now.queue() =~= items.skip(n as int));
    assert(now.held() =~= items.take(n as int));
}

} // verus!
