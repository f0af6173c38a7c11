//! The weak reference to a registered object, taken from `std::sync` on
//! trust.
//!
//! Nothing in this file is proved. Each item names the function of the
//! standard library that it stands for and says what is claimed of it.
//!
//! std does not say of a weak reference whether its object is still alive:
//! that changes while the reference stays the same. What it does say is which
//! object a weak reference belongs to, the one that it was downgraded from,
//! and that is all that is claimed here.

use crate::object::InnerTrackedObject;
use std::sync::Arc;
use std::sync::Weak;
use vstd::prelude::*;

verus! {

/// A `std::sync::Weak` to the allocation of a registered object, as a value
/// that nothing is known of.
#[verifier::external_body]
#[verifier::reject_recursive_types(T)]
pub struct WeakRef<T> {
    weak: Weak<InnerTrackedObject<T>>,
}

impl<T> WeakRef<T> {
    /// Whether this weak reference is one that `downgrade` may return for
    /// `object`.
    pub(crate) open spec fn points_to(&self, object: Arc<InnerTrackedObject<T>>) -> bool {
        call_ensures(WeakRef::<T>::downgrade, (&object,), *self)
    }

    /// Whether `upgrade` may return `object` for this weak reference.
    pub(crate) open spec fn upgrades_to(&self, object: Option<Arc<InnerTrackedObject<T>>>) -> bool {
        call_ensures(WeakRef::<T>::upgrade, (self,), object)
    }

    /// Whether `strong_count` may return `count` for this weak reference.
    pub(crate) open spec fn counts(&self, count: usize) -> bool {
        call_ensures(WeakRef::<T>::strong_count, (self,), count)
    }

    /// `Arc::downgrade`: a weak reference to the allocation of `object`.
    /// Nothing is claimed of the result. A caller knows of it that this call
    /// has returned it for `object`, and that is what `points_to` says.
    #[verifier::external_body]
    pub(crate) fn downgrade(object: &Arc<InnerTrackedObject<T>>) -> (entry: WeakRef<T>) {
        WeakRef { weak: Arc::downgrade(object) }
    }

    /// `Weak::upgrade`: a strong reference to the allocation that the weak
    /// reference points to, or `None` once the object in it has been dropped.
    /// Which of the two comes back lies with the holders of the object.
    ///
    /// A strong reference that does come back is to the one allocation that
    /// the weak reference was downgraded from, whose value never changes. So
    /// it equals every `Arc` for which `downgrade` may have returned this
    /// weak reference.
    #[verifier::external_body]
    pub(crate) fn upgrade(&self) -> (object: Option<Arc<InnerTrackedObject<T>>>)
        ensures
            object matches Some(found) ==> forall|from: Arc<InnerTrackedObject<T>>|
                self.points_to(from) ==> found == from,
    {
        self.weak.upgrade()
    }

    /// `Weak::strong_count`: the number of strong references to the
    /// allocation at the moment of the call, 0 once the object has been
    /// dropped. Nothing is claimed of the number.
    #[verifier::external_body]
    pub(crate) fn strong_count(&self) -> (count: usize) {
        self.weak.strong_count()
    }
}

} // verus!
