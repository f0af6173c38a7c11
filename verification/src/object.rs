//! The handle to a registered object.

use crate::inventory::Inventory;
use crate::sync::share;
use crate::weak::WeakRef;
use std::ops::Deref;
use std::sync::Arc;
use vstd::prelude::*;

verus! {

/// A registered value together with the registry that it belongs to. It is
/// shared by all handles to the object and dropped with the last of them.
#[verifier::reject_recursive_types(T)]
pub(crate) struct InnerTrackedObject<T> {
    census: Inventory<T>,
    item: T,
}

impl<T> InnerTrackedObject<T> {
    /// The registry that the object is registered in.
    pub closed spec fn census(&self) -> Inventory<T> {
        self.census
    }
}

/// A handle to a registered object.
///
/// Cloning a handle does not clone the value: all clones share it. The value
/// cannot be changed through a handle, only read.
#[verifier::reject_recursive_types(T)]
pub struct TrackedObject<T> {
    inner: Arc<InnerTrackedObject<T>>,
}

impl<T> View for TrackedObject<T> {
    type V = T;

    /// The value that the handle gives access to.
    closed spec fn view(&self) -> T {
        self.inner.item
    }
}

impl<T> TrackedObject<T> {
    /// The registry that the object is registered in.
    pub closed spec fn census(&self) -> Inventory<T> {
        self.inner.census
    }

    /// A handle to a new object of `census` that holds `item`. The object is
    /// not in the ledger of `census` yet.
    pub(crate) fn new(census: Inventory<T>, item: T) -> (object: TrackedObject<T>)
        ensures
            object@ == item,
            object.census() == census,
    {
        TrackedObject { inner: Arc::new(InnerTrackedObject { census, item }) }
    }

    /// Registers the value that `f` makes of the value of this object, as an
    /// object of its own in the same registry. This object stays as it is.
    ///
    /// `f` runs before the lock of the registry is taken.
    pub fn map<F>(&self, f: F) -> (object: TrackedObject<T>) where F: FnOnce(&T) -> T
        requires
            call_requires(f, (&self@,)),
        ensures
            call_ensures(f, (&self@,), object@),
            object.census() == self.census(),
            self.census().registered(object),
    {
        let t = f(&self.inner.item);
        self.inner.census.track(t)
    }

    /// Whether `entry` is a weak reference to the object of this handle.
    pub closed spec fn is_behind(&self, entry: WeakRef<T>) -> bool {
        entry.points_to(self.inner)
    }

    /// Whether `revived` is a possible outcome of reviving `entry`: nothing,
    /// or a handle that equals every handle whose object is behind `entry`.
    pub open spec fn revives(entry: WeakRef<T>, revived: Option<TrackedObject<T>>) -> bool {
        revived matches Some(object) ==> forall|holder: TrackedObject<T>|
            #[trigger] holder.is_behind(entry) ==> object == holder
    }

    /// Whether `revived` is what std gives for `entry`, as a handle: a handle
    /// around the strong reference that upgrading `entry` may return, or
    /// nothing where upgrading it may return nothing.
    pub closed spec fn upgrades(entry: WeakRef<T>, revived: Option<TrackedObject<T>>) -> bool {
        exists|upgraded: Option<Arc<InnerTrackedObject<T>>>|
            entry.upgrades_to(upgraded) && revived == match upgraded {
                Some(inner) => Some(TrackedObject { inner }),
                None => None,
            }
    }

    /// A weak reference to the object: it does not keep the object alive.
    pub fn downgrade(&self) -> (entry: WeakRef<T>)
        ensures
            self.is_behind(entry),
    {
        WeakRef::downgrade(&self.inner)
    }

    /// A new handle to the object behind `entry`, or `None` once the object
    /// is gone. Which of the two it is lies with std: the call upgrades
    /// `entry`, and returns what that gives, as a handle.
    pub fn revive(entry: &WeakRef<T>) -> (revived: Option<TrackedObject<T>>)
        ensures
            Self::upgrades(*entry, revived),
            Self::revives(*entry, revived),
    {
        let upgraded = entry.upgrade();
        assert(entry.upgrades_to(upgraded));
        match upgraded {
            Some(inner) => Some(TrackedObject { inner }),
            None => None,
        }
    }
}

impl<T> Clone for TrackedObject<T> {
    /// Another handle to the same object. The value is not cloned.
    fn clone(&self) -> (object: Self)
        ensures
            object == *self,
    {
        TrackedObject { inner: share(&self.inner) }
    }
}

impl<T> Deref for TrackedObject<T> {
    type Target = T;

    fn deref(&self) -> (item: &T)
        ensures
            *item == self@,
    {
        &self.inner.item
    }
}

impl<T> AsRef<T> for TrackedObject<T> {
    fn as_ref(&self) -> (item: &T)
        ensures
            *item == self@,
    {
        &self.inner.item
    }
}

impl<T> std::borrow::Borrow<T> for TrackedObject<T> {
    fn borrow(&self) -> &T
        returns
            &self@,
    {
        &self.inner.item
    }
}

impl<T> Drop for InnerTrackedObject<T> {
    /// Runs when the last handle to the object is dropped: the object is
    /// struck off its registry, unless the lock of the registry is found
    /// poisoned. The value and the registry are left as they are.
    fn drop(&mut self)
        ensures
            *final(self) == *old(self),
            old(self).census().found_poisoned() || old(self).census().struck(),
        opens_invariants none
        no_unwind
    {
        self.census.record_death();
    }
}

} // verus!
