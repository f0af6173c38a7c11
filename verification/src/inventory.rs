//! The registry: a ledger behind a lock, shared by its clones and by the
//! objects that are registered in it.

use crate::ledger::Items;
use crate::object::TrackedObject;
use crate::sync::guarded;
use crate::sync::lock;
use crate::sync::lock_unless_poisoned;
use crate::sync::notify_all;
use crate::sync::peek;
use crate::sync::share;
use crate::sync::wait_timeout_while;
use crate::sync::wait_while;
use crate::weak::WeakRef;
use std::sync::Arc;
use std::sync::Condvar;
use std::sync::Mutex;
use std::sync::MutexGuard;
use std::time::Duration;
use vstd::prelude::*;

verus! {

/// What all clones of a registry share: the ledger behind its lock, and the
/// condition variable that is signalled whenever the ledger changes.
#[verifier::reject_recursive_types(T)]
pub(crate) struct InnerInventory<T> {
    items: Mutex<Items<T>>,
    condvar: Condvar,
}

/// A registry of the living objects of one type.
#[verifier::reject_recursive_types(T)]
pub struct Inventory<T> {
    inner: Arc<InnerInventory<T>>,
}

impl<T> Default for Inventory<T> {
    /// A registry of its own, with nothing registered in it.
    fn default() -> (census: Self)
        ensures
            census.begins_empty(),
    {
        let items = Items::default();
        Inventory { inner: Arc::new(InnerInventory { items: Mutex::new(items), condvar: Condvar::new() }) }
    }
}

impl<T> Clone for Inventory<T> {
    /// Another reference to the same registry: what is registered through one
    /// is listed by the other.
    fn clone(&self) -> (census: Self)
        ensures
            census == *self,
    {
        Inventory { inner: share(&self.inner) }
    }
}

impl<T> Inventory<T> {
    /// Whether the lock of the registry was made around an empty ledger: one
    /// without entries, in which nothing is counted as alive.
    pub closed spec fn begins_empty(&self) -> bool {
        exists|items: Items<T>|
            {
                &&& call_ensures(Mutex::<Items<T>>::new, (items,), self.inner.items)
                &&& items.count() == 0
                &&& items.entries() == Seq::<WeakRef<T>>::empty()
            }
    }

    /// A registry of its own, with nothing registered in it.
    pub fn new() -> (census: Inventory<T>)
        ensures
            census.begins_empty(),
    {
        Inventory::default()
    }

    /// Whether `guard` is a guard of the lock of this registry: one that
    /// locking it may give.
    spec fn locks(&self, guard: MutexGuard<Items<T>>) -> bool {
        call_ensures(lock::<Items<T>>, (&self.inner.items,), guard)
    }

    /// Whether `guard` is a guard of the lock of this registry that protects
    /// `items`.
    spec fn locks_in(&self, guard: MutexGuard<Items<T>>, items: Items<T>) -> bool {
        self.locks(guard) && call_ensures(peek::<Items<T>>, (&guard,), &items)
    }

    /// Whether `items` is a ledger of this registry: one that a holder of the
    /// lock of this registry finds behind it, at one moment or another.
    pub closed spec fn protects(&self, items: Items<T>) -> bool {
        exists|guard: MutexGuard<Items<T>>| self.locks_in(guard, items)
    }

    /// Whether a destructor found the lock of this registry poisoned.
    pub closed spec fn found_poisoned(&self) -> bool {
        call_ensures(lock_unless_poisoned::<Items<T>>, (&self.inner.items,), None)
    }

    /// Whether `object` has been registered in this registry: a ledger of the
    /// registry has become one in which a weak reference to `object` is
    /// entered behind the others, and one more object is counted as alive.
    pub open spec fn registered(&self, object: TrackedObject<T>) -> bool {
        exists|before: Items<T>, after: Items<T>, entry: WeakRef<T>|
            {
                &&& self.protects(before)
                &&& self.protects(after)
                &&& object.is_behind(entry)
                &&& #[trigger] before.registers_to(entry, after)
            }
    }

    /// Whether an object has been struck off this registry: a ledger of the
    /// registry has become one in which one object less is counted as alive.
    pub open spec fn struck(&self) -> bool {
        exists|before: Items<T>, after: Items<T>|
            {
                &&& self.protects(before)
                &&& self.protects(after)
                &&& #[trigger] before.strikes_to(after)
            }
    }

    /// Takes the lock of this registry, and sweeps the ledger behind it if
    /// that is due. The guard that comes back is a guard of the lock of this
    /// registry, and what it protects is what the sweep has left of the
    /// ledger that the call found. A lock that is poisoned is fatal: the call
    /// panics.
    fn lock_items(&self) -> (guard: MutexGuard<'_, Items<T>>)
        ensures
            self.locks(guard),
            exists|found: Items<T>, left: Items<T>|
                {
                    &&& self.protects(found)
                    &&& #[trigger] found.sweeps_to(left)
                    &&& self.locks_in(guard, left)
                },
    {
        let mut guard = lock(&self.inner.items);
        let ghost taken = guard;
        let items = guarded(&mut guard);
        let ghost found = *items;
        items.gc_if_needed();
        let ghost left = *items;
        proof {
            assert(self.locks_in(taken, found));
            assert(found.sweeps_to(left));
            assert(self.locks_in(guard, left));
        }
        guard
    }

    /// Takes a snapshot of the living objects: a handle to each, in no
    /// particular order.
    ///
    /// The snapshot is taken under the lock, so it is consistent: an object
    /// that is registered after the call is not in it. The handles of the
    /// snapshot keep their objects alive like any other handle.
    ///
    /// The snapshot is a listing of the ledger that the call finds behind the
    /// lock. Which ledger that is lies with the other holders of the
    /// registry.
    pub fn list(&self) -> (listing: Vec<TrackedObject<T>>)
        ensures
            exists|items: Items<T>| self.protects(items) && #[trigger] items.lists(listing@),
    {
        let guard = self.lock_items();
        let items = peek(&guard);
        let listing = items.list_arc();
        proof {
            assert(self.locks_in(guard, *items));
        }
        listing
    }

    /// Blocks until no object is counted as alive.
    ///
    /// A thread that holds a handle of its own while it waits will wait
    /// forever.
    ///
    /// When the call returns, it has seen a ledger of this registry in which
    /// nothing is counted as alive.
    pub fn wait_until_empty(&self)
        ensures
            exists|items: Items<T>| #[trigger] self.protects(items) && items.count() == 0,
    {
        let is_empty = |count: usize| -> (empty: bool)
            ensures
                empty == (count == 0),
            { count == 0 };
        self.wait_until_predicate(is_empty);
        proof {
            let items = choose|items: Items<T>| #[trigger]
                self.protects(items) && call_ensures(is_empty, (items.count() as usize,), true);
            items.lemma_count_fits();
        }
    }

    /// Blocks until `predicate_on_count` accepts the number of objects that
    /// are counted as alive. The predicate is asked at once, and again after
    /// every registration and every death.
    ///
    /// The predicate runs with the lock held: it must not touch the registry.
    ///
    /// When the call returns, the predicate has accepted the count of a
    /// ledger of this registry.
    pub fn wait_until_predicate<F: Fn(usize) -> bool>(&self, predicate_on_count: F)
        requires
            forall|count: usize| call_requires(predicate_on_count, (count,)),
        ensures
            exists|items: Items<T>| #[trigger]
                self.protects(items) && call_ensures(
                    predicate_on_count,
                    (items.count() as usize,),
                    true,
                ),
    {
        let guard = self.lock_items();
        let predicate = &predicate_on_count;
        let must_wait = |items: &Items<T>| -> (wait: bool)
            ensures
                call_ensures(*predicate, (items.count() as usize,), !wait),
            { !predicate(items.alive_count()) };
        let woken = wait_while(&self.inner.condvar, guard, must_wait);
        let items = peek(&woken);
        let _accepted = items.alive_count();
        proof {
            assert(self.locks_in(woken, *items));
            assert(call_ensures(must_wait, (items,), false));
            assert(self.protects(*items) && call_ensures(
                predicate_on_count,
                (items.count() as usize,),
                true,
            ));
        }
    }

    /// Blocks until `predicate_on_count` accepts the number of objects that
    /// are counted as alive, but for no longer than `timeout`. Returns the
    /// number that the predicate accepted, or `None` if the time ran out
    /// first: then the predicate has rejected the number that it was asked
    /// last. A predicate that rejects no number is never kept waiting. Either
    /// way the number is the count of a ledger of this registry.
    ///
    /// The predicate runs with the lock held: it must not touch the registry.
    pub fn wait_until_predicate_timeout<F: Fn(usize) -> bool>(
        &self,
        predicate_on_count: F,
        timeout: Duration,
    ) -> (accepted: Option<usize>)
        requires
            forall|count: usize| call_requires(predicate_on_count, (count,)),
        ensures
            exists|items: Items<T>| #[trigger]
                self.protects(items) && match accepted {
                    Some(count) => count == items.count() && call_ensures(
                        predicate_on_count,
                        (count,),
                        true,
                    ),
                    None => call_ensures(predicate_on_count, (items.count() as usize,), false),
                },
    {
        let guard = self.lock_items();
        let predicate = &predicate_on_count;
        let must_wait = |items: &Items<T>| -> (wait: bool)
            ensures
                call_ensures(*predicate, (items.count() as usize,), !wait),
            { !predicate(items.alive_count()) };
        let (woken, timed_out) = wait_timeout_while(&self.inner.condvar, guard, timeout, must_wait);
        let items = peek(&woken);
        let count = items.alive_count();
        proof {
            assert(self.locks_in(woken, *items));
            assert(call_ensures(must_wait, (items,), timed_out));
            assert(self.protects(*items) && call_ensures(
                predicate_on_count,
                (items.count() as usize,),
                !timed_out,
            ));
        }
        if timed_out {
            None
        } else {
            Some(count)
        }
    }

    /// Registers `item` as a new object and returns the first handle to it.
    /// The object is entered in the ledger and counted as alive, and the
    /// threads that wait for a change are woken.
    pub fn track(&self, item: T) -> (object: TrackedObject<T>)
        ensures
            object@ == item,
            object.census() == *self,
            self.registered(object),
    {
        let object = TrackedObject::new(self.clone(), item);
        let entry = object.downgrade();
        let mut guard = self.lock_items();
        let ghost taken = guard;
        let items = guarded(&mut guard);
        let ghost before = *items;
        items.register(entry);
        let ghost after = *items;
        notify_all(&self.inner.condvar);
        proof {
            assert(self.locks_in(taken, before));
            assert(self.locks_in(guard, after));
            assert(before.registers_to(entry, after));
        }
        object
    }

    /// Strikes one object off the count and wakes the threads that wait for
    /// a change. This is what the destructor of an object does. It must not
    /// unwind, so it leaves a registry alone whose lock is poisoned, and it
    /// leaves the sweeping to the next call that takes the lock.
    pub(crate) fn record_death(&self)
        ensures
            self.found_poisoned() || self.struck(),
        opens_invariants none
        no_unwind
    {
        match lock_unless_poisoned(&self.inner.items) {
            Some(mut guard) => {
                let ghost taken = guard;
                let items = guarded(&mut guard);
                let ghost before = *items;
                items.strike();
                let ghost after = *items;
                notify_all(&self.inner.condvar);
                proof {
                    assert(self.locks_in(taken, before));
                    assert(self.locks_in(guard, after));
                    assert(before.strikes_to(after));
                }
            },
            None => {},
        }
    }
}

} // verus!
