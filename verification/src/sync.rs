//! What the pool takes on trust from `std::sync`.

use crate::queue::Queue;
use std::sync::{Condvar, Mutex, MutexGuard};
use vstd::prelude::*;

verus! {

/// `std::sync::Mutex`. Nothing is known of what a mutex guards until it is
/// locked.
#[verifier::external_type_specification]
#[verifier::external_body]
#[verifier::reject_recursive_types(T)]
pub struct ExMutex<T: ?Sized>(Mutex<T>);

/// `std::sync::MutexGuard`: the lock, held.
#[verifier::external_type_specification]
#[verifier::external_body]
#[verifier::reject_recursive_types(T)]
pub struct ExMutexGuard<'a, T: ?Sized + 'a>(MutexGuard<'a, T>);

/// `std::sync::Condvar`.
#[verifier::external_type_specification]
#[verifier::external_body]
pub struct ExCondvar(Condvar);

/// `Mutex::new`: a mutex that guards `t`. No claim is made of the result.
pub assume_specification<T>[ Mutex::<T>::new ](t: T) -> (mutex: Mutex<T>);

/// `Condvar::new`: a condition variable on which nobody waits yet. No claim is
/// made of the result.
pub assume_specification[ Condvar::new ]() -> (condvar: Condvar);

/// `Condvar::notify_one`: wakes one thread that is blocked on the condition
/// variable, if there is one. No claim is made: the call changes nothing that
/// the caller can see.
pub assume_specification[ Condvar::notify_one ](condvar: &Condvar);

/// `Mutex::lock`: blocks until the lock is free and returns it, held.
///
/// Panics if the lock is poisoned, that is, if a thread has panicked while it
/// held the lock. A thread that holds the lock already must not ask for it
/// again: the call may then panic or never return. No function of this crate
/// does: while the lock is held nothing runs but [`Queue::claim`] and
/// [`Queue::reclaim`], which know of no lock. No claim is made of what the
/// lock is found to guard: that depends on what other threads have done.
#[verifier::external_body]
pub(crate) fn lock<'a, T>(free: &'a Mutex<Queue<T>>) -> (guard: MutexGuard<'a, Queue<T>>) {
    free.lock().unwrap()
}

/// `DerefMut::deref_mut` of `MutexGuard`: the queue that the held lock guards.
/// No claim is made of what the queue holds.
#[verifier::external_body]
pub(crate) fn queue_mut<'g, 'a, T>(
    guard: &'g mut MutexGuard<'a, Queue<T>>,
) -> (queue: &'g mut Queue<T>) {
    &mut *guard
}

/// `Condvar::wait_while`: gives up the held lock and blocks until notified,
/// again and again for as long as the closure answers `true` of the guarded
/// queue; the closure is asked a first time before any waiting. The closure
/// is one call of [`Queue::claim`], which answers `false` only when it has
/// moved the front item into the slot; that item is the result. The lock is
/// released before the item is handed back.
///
/// No claim is made of the item: which one it is depends on what the queue
/// holds when the wait is over. Does not return while the queue stays empty.
/// Panics if the lock is poisoned.
#[verifier::external_body]
pub(crate) fn wait_claim<'a, T>(returned: &Condvar, guard: MutexGuard<'a, Queue<T>>) -> (item: T) {
    let mut claimed = None;
    drop(returned.wait_while(guard, |queue| queue.claim(&mut claimed)).unwrap());
    claimed.unwrap()
}

} // verus!
