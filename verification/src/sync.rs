//! What this crate takes from `std::sync` on trust: the lock, the condition
//! variable, and the sharing of an `Arc`.
//!
//! Nothing in this file is proved. Each item names the function of the
//! standard library that it stands for and says what is claimed of it.
//!
//! A guard is a value that nothing is known of, and so is what it protects:
//! that is whatever the last holder of the lock left there. Where an item has
//! to say that a guard protects a certain value, it says that `peek` may
//! return that value for the guard. Where it has to say that a guard is a
//! guard of a certain mutex, it says that `lock` may return the guard for
//! that mutex.

use std::sync::Arc;
use std::sync::Condvar;
use std::sync::Mutex;
use std::sync::MutexGuard;
use std::time::Duration;
use vstd::prelude::*;

verus! {

/// `std::sync::Mutex`, as a value that nothing is known of.
#[verifier::external_type_specification]
#[verifier::external_body]
#[verifier::reject_recursive_types(T)]
pub struct ExMutex<T: ?Sized>(Mutex<T>);

/// `std::sync::MutexGuard`, as a value that nothing is known of.
#[verifier::external_type_specification]
#[verifier::external_body]
#[verifier::reject_recursive_types(T)]
pub struct ExMutexGuard<'a, T: ?Sized + 'a>(MutexGuard<'a, T>);

/// `std::sync::Condvar`, as a value that nothing is known of.
#[verifier::external_type_specification]
#[verifier::external_body]
pub struct ExCondvar(Condvar);

/// `Mutex::new`: a mutex around `value`. Nothing is claimed of it.
pub assume_specification<T>[ Mutex::<T>::new ](value: T) -> (mutex: Mutex<T>);

/// `Condvar::new`: a condition variable. Nothing is claimed of it.
pub assume_specification[ Condvar::new ]() -> (condvar: Condvar);

/// `Condvar::notify_all`: wakes every thread that waits on the condition
/// variable. Nothing is claimed of it but that it does not unwind: its
/// documentation knows of no panic.
#[verifier::external_body]
pub(crate) fn notify_all(condvar: &Condvar)
    opens_invariants none
    no_unwind
{
    condvar.notify_all()
}

/// `Arc::clone`: one more reference to the same allocation. The two point to
/// one value, so they are equal.
#[verifier::external_body]
pub(crate) fn share<T>(arc: &Arc<T>) -> (shared: Arc<T>)
    ensures
        shared == *arc,
{
    Arc::clone(arc)
}

/// `Mutex::lock`, for a caller to whom a poisoned lock is fatal: blocks until
/// the lock is held, and panics if a thread has panicked while it held the
/// lock. Nothing is claimed of the guard.
#[verifier::external_body]
pub(crate) fn lock<'a, T>(mutex: &'a Mutex<T>) -> (guard: MutexGuard<'a, T>) {
    mutex.lock().unwrap()
}

/// `Mutex::lock`, for a destructor: blocks until the lock is held, and
/// returns `None` if a thread has panicked while it held the lock. A guard
/// that does come back is the guard that `Mutex::lock` gave for `mutex`, so
/// it is one that `lock` may return for it. Nothing else is claimed of the
/// guard.
///
/// It is claimed not to unwind. Of a thread that holds the lock already, std
/// says that the call may panic or never return: a destructor that runs on
/// such a thread is not covered.
#[verifier::external_body]
pub(crate) fn lock_unless_poisoned<'a, T>(mutex: &'a Mutex<T>) -> (guard: Option<
    MutexGuard<'a, T>,
>)
    ensures
        guard matches Some(held) ==> call_ensures(lock::<T>, (mutex,), held),
    opens_invariants none
    no_unwind
{
    mutex.lock().ok()
}

/// `DerefMut::deref_mut` of a `MutexGuard`: the value that the guard
/// protects, to change. Getting at it does not unwind.
///
/// The reference that comes back is to the very value that the guard
/// protects. So the value that it is handed out with is one that `peek` may
/// return for the guard as it was, and the value that the caller leaves
/// behind it is one that `peek` may return for the guard as it then is.
///
/// The guard protects another value once the caller has changed it, so it is
/// not the same guard any more. It is still a guard of the same mutex: what
/// `lock` may have returned for a mutex before, it may return for that mutex
/// after.
#[verifier::external_body]
pub(crate) fn guarded<'a, 'b, T>(guard: &'a mut MutexGuard<'b, T>) -> (value: &'a mut T)
    ensures
        call_ensures(peek::<T>, (&*old(guard),), &*value),
        call_ensures(peek::<T>, (&*final(guard),), &*final(value)),
        forall|mutex: &Mutex<T>|
            call_ensures(lock::<T>, (mutex,), *old(guard)) ==> call_ensures(
                lock::<T>,
                (mutex,),
                *final(guard),
            ),
    opens_invariants none
    no_unwind
{
    &mut **guard
}

/// `Deref::deref` of a `MutexGuard`: the value that the guard protects, to
/// read. Nothing is claimed of the value.
#[verifier::external_body]
pub(crate) fn peek<'a, 'b, T>(guard: &'a MutexGuard<'b, T>) -> (value: &'a T) {
    &**guard
}

/// `Condvar::wait_while`, for a caller to whom a poisoned lock is fatal.
///
/// It gives up the lock and sleeps until `condition` says `false` of the
/// value that the lock protects. It asks `condition` at once and again after
/// every wake-up, each time with the lock held, and returns with the lock
/// held as soon as the answer is `false`. So whatever value the returned
/// guard protects, which is to say whatever `peek` may return for it, is a
/// value of which `condition` may say `false`: it has just done so. The lock
/// that it takes again is the lock of `guard`, so the returned guard is a
/// guard of the same mutex. It panics where `lock` does.
#[verifier::external_body]
pub(crate) fn wait_while<'a, T, F: Fn(&T) -> bool>(
    condvar: &Condvar,
    guard: MutexGuard<'a, T>,
    condition: F,
) -> (woken: MutexGuard<'a, T>)
    requires
        forall|value: &T| call_requires(condition, (value,)),
    ensures
        forall|value: &T|
            call_ensures(peek::<T>, (&woken,), value) ==> call_ensures(condition, (value,), false),
        forall|mutex: &Mutex<T>|
            call_ensures(lock::<T>, (mutex,), guard) ==> call_ensures(lock::<T>, (mutex,), woken),
{
    condvar.wait_while(guard, |value: &mut T| condition(value)).unwrap()
}

/// `Condvar::wait_timeout_while`, for a caller to whom a poisoned lock is
/// fatal: as `wait_while`, but for no longer than `timeout`.
///
/// The flag that comes back with the guard is `WaitTimeoutResult::timed_out`.
/// It is `false` where the wait ended because `condition` said `false`, and
/// of that case the same is claimed as of `wait_while`. It is `true` where
/// the time ran out while `condition` still said `true`: std sets it only
/// when the timeout has elapsed without the wait being over. So then the
/// returned guard protects a value of which `condition` may say `true`: it
/// has just done so. Either way the returned guard is a guard of the mutex of
/// `guard`: std takes that lock again before it returns. It panics where
/// `lock` does.
#[verifier::external_body]
pub(crate) fn wait_timeout_while<'a, T, F: Fn(&T) -> bool>(
    condvar: &Condvar,
    guard: MutexGuard<'a, T>,
    timeout: Duration,
    condition: F,
) -> (woken: (MutexGuard<'a, T>, bool))
    requires
        forall|value: &T| call_requires(condition, (value,)),
    ensures
        forall|value: &T|
            call_ensures(peek::<T>, (&woken.0,), value) ==> call_ensures(
                condition,
                (value,),
                woken.1,
            ),
        forall|mutex: &Mutex<T>|
            call_ensures(lock::<T>, (mutex,), guard) ==> call_ensures(lock::<T>, (mutex,), woken.0),
{
    let (guard, result) = condvar.wait_timeout_while(
        guard,
        timeout,
        |value: &mut T| condition(value),
    ).unwrap();
    (guard, result.timed_out())
}

} // verus!
