//! The ledger that a registry keeps behind its lock.
//!
//! The ledger counts the objects that are alive and holds one weak reference
//! for every object that was registered and has not been swept out yet. A
//! weak reference whose object is gone is dead weight: once at least half of
//! the references may be dead, the next registration, listing or wait sweeps
//! them out.
//!
//! A sweep and a listing go through the entries one by one and ask std about
//! each of them. `sweep_step` and `list_step` are what they do with an answer,
//! and `sweep` and `listed` are what that adds up to.

use crate::laws::lemma_listed_push;
use crate::object::TrackedObject;
use crate::weak::WeakRef;
use vstd::prelude::*;

verus! {

/// `entries` without the entry at `at`: the last entry takes its place.
pub open spec fn without<E>(entries: Seq<E>, at: int) -> Seq<E> {
    entries.update(at, entries.last()).drop_last()
}

/// One step of a sweep, at position `at`, for an entry that was found
/// `expired` or not: an expired entry is removed and the sweep stays where it
/// is, any other entry is kept and the sweep moves on. Returns the position of
/// the next step.
pub fn sweep_step<E>(entries: &mut Vec<E>, at: usize, expired: bool) -> (next: usize)
    requires
        at < old(entries)@.len(),
    ensures
        expired ==> final(entries)@ == without(old(entries)@, at as int) && next == at,
        !expired ==> final(entries)@ == old(entries)@ && next == at + 1,
{
    if expired {
        let _ = entries.swap_remove(at);
        at
    } else {
        assert(entries@.len() == entries.len());
        at + 1
    }
}

/// How far a sweep of `entries` has come once it has taken a step for each of
/// `verdicts`, the first of them at position 0: the entries that are left, and
/// the position of the next step. A verdict says whether the entry at the
/// step's position was found expired. Verdicts that come after the sweep has
/// reached the end change nothing.
pub open spec fn sweep<E>(entries: Seq<E>, verdicts: Seq<bool>) -> (Seq<E>, int)
    decreases verdicts.len(),
{
    if verdicts.len() == 0 {
        (entries, 0)
    } else {
        let (left, at) = sweep(entries, verdicts.drop_last());
        if at >= left.len() {
            (left, at)
        } else if verdicts.last() {
            (without(left, at), at)
        } else {
            (left, at + 1)
        }
    }
}

/// The entries that a sweep of `entries` leaves when its steps meet
/// `verdicts`.
pub open spec fn swept<E>(entries: Seq<E>, verdicts: Seq<bool>) -> Seq<E> {
    sweep(entries, verdicts).0
}

/// The entry that a sweep of `entries` looks at in step `k`, the steps before
/// it having met the first `k` of `verdicts`.
pub open spec fn looked_at<E>(entries: Seq<E>, verdicts: Seq<bool>, k: int) -> E {
    let (left, at) = sweep(entries, verdicts.take(k));
    left[at]
}

/// The entries that a sweep of `entries` discards when its steps meet
/// `verdicts`, in the order in which they go: for every step that finds its
/// entry expired, that entry.
pub open spec fn discarded<E>(entries: Seq<E>, verdicts: Seq<bool>) -> Seq<E>
    decreases verdicts.len(),
{
    if verdicts.len() == 0 {
        Seq::empty()
    } else {
        let (left, at) = sweep(entries, verdicts.drop_last());
        let gone = discarded(entries, verdicts.drop_last());
        if at < left.len() && verdicts.last() {
            gone.push(left[at])
        } else {
            gone
        }
    }
}

/// What a listing keeps of `found`, the outcomes of looking up its entries:
/// the objects that were found, in order.
pub open spec fn listed<A>(found: Seq<Option<A>>) -> Seq<A> {
    found.filter(|outcome: Option<A>| outcome is Some).map_values(|outcome: Option<A>| outcome->0)
}

/// One step of a listing: an object that was found joins the listing, and an
/// entry whose object is gone adds nothing.
pub fn list_step<A>(listing: &mut Vec<A>, found: Option<A>)
    ensures
        final(listing)@ == match found {
            Some(object) => old(listing)@.push(object),
            None => old(listing)@,
        },
{
    match found {
        Some(object) => listing.push(object),
        None => {},
    }
}

/// The ledger of a registry.
#[verifier::reject_recursive_types(T)]
pub struct Items<T> {
    alive_count: usize,
    items: Vec<WeakRef<T>>,
}

impl<T> Items<T> {
    /// The number of objects that are counted as alive.
    pub closed spec fn count(&self) -> nat {
        self.alive_count as nat
    }

    /// The weak references that the ledger holds, in the order in which it
    /// holds them.
    pub closed spec fn entries(&self) -> Seq<WeakRef<T>> {
        self.items@
    }

    /// Whether the ledger is due for a sweep: the objects that are counted as
    /// alive account for at most half of its entries.
    pub open spec fn due_for_gc(&self) -> bool {
        2 * self.count() <= self.entries().len()
    }

    /// Whether `listing` is a listing of this ledger: what is `listed` when the
    /// entries are revived one by one, in order. For each entry, what is found
    /// is what std gives when the entry is upgraded, so a ledger has as many
    /// listings as std has answers. A handle that is found is a handle to the
    /// object behind its entry.
    pub open spec fn lists(&self, listing: Seq<TrackedObject<T>>) -> bool {
        exists|found: Seq<Option<TrackedObject<T>>>|
            {
                &&& found.len() == self.entries().len()
                &&& forall|k: int|
                    0 <= k < found.len() ==> TrackedObject::upgrades(
                        #[trigger] self.entries()[k],
                        found[k],
                    )
                &&& forall|k: int|
                    0 <= k < found.len() ==> TrackedObject::revives(
                        #[trigger] self.entries()[k],
                        found[k],
                    )
                &&& listing == listed(found)
            }
    }

    /// Whether a look at `entry` may find it `expired` or not: it is expired
    /// where std counts no strong reference to its object, and there only.
    pub closed spec fn finds(entry: WeakRef<T>, expired: bool) -> bool {
        exists|count: usize| entry.counts(count) && expired == (count == 0)
    }

    /// Whether `verdicts` are verdicts that a sweep of this ledger may meet:
    /// one for each entry, each of them what a look at the entry of its step
    /// may find.
    pub open spec fn meets(&self, verdicts: Seq<bool>) -> bool {
        &&& verdicts.len() == self.entries().len()
        &&& forall|k: int|
            0 <= k < verdicts.len() ==> Self::finds(
                #[trigger] looked_at(self.entries(), verdicts, k),
                verdicts[k],
            )
    }

    /// Whether `after` is what `gc_if_needed` may leave of this ledger. A
    /// ledger that is not due for a sweep stays as it is. Of one that is due,
    /// the entries that are left are `swept` of verdicts that the sweep may
    /// meet. The count is not touched.
    pub open spec fn sweeps_to(&self, after: Self) -> bool {
        &&& after.count() == self.count()
        &&& if self.due_for_gc() {
            exists|verdicts: Seq<bool>|
                self.meets(verdicts) && after.entries() == swept(self.entries(), verdicts)
        } else {
            after.entries() == self.entries()
        }
    }

    /// Whether `after` is this ledger with `entry` registered: the entry is
    /// added behind the others, and one more object is counted as alive,
    /// unless the count stands at the largest number that it can hold.
    pub open spec fn registers_to(&self, entry: WeakRef<T>, after: Self) -> bool {
        &&& after.entries() == self.entries().push(entry)
        &&& after.count() == if self.count() < usize::MAX {
            self.count() + 1
        } else {
            self.count()
        }
    }

    /// Whether `after` is this ledger with one object struck off: one object
    /// less is counted as alive, unless none is, and the entries stay.
    pub open spec fn strikes_to(&self, after: Self) -> bool {
        &&& after.entries() == self.entries()
        &&& after.count() == if self.count() > 0 {
            self.count() - 1
        } else {
            0
        }
    }

    /// The count is a number that a `usize` holds.
    pub proof fn lemma_count_fits(&self)
        ensures
            self.count() <= usize::MAX,
    {
    }

    /// Counts one more object as alive.
    pub fn record_birth(&mut self)
        requires
            old(self).count() < usize::MAX,
        ensures
            final(self).count() == old(self).count() + 1,
            final(self).entries() == old(self).entries(),
    {
        self.alive_count += 1;
    }

    /// Counts one object less as alive.
    pub fn record_death(&mut self)
        requires
            old(self).count() > 0,
        ensures
            final(self).count() == old(self).count() - 1,
            final(self).entries() == old(self).entries(),
        opens_invariants none
        no_unwind
    {
        self.alive_count -= 1;
    }

    /// Adds the weak reference to a newly registered object.
    pub fn enter(&mut self, entry: WeakRef<T>)
        ensures
            final(self).count() == old(self).count(),
            final(self).entries() == old(self).entries().push(entry),
    {
        self.items.push(entry);
    }

    /// Registers an object: enters `entry`, the weak reference to it, and
    /// counts the object as alive. A count that stands at the largest number
    /// that it can hold stays there.
    pub fn register(&mut self, entry: WeakRef<T>)
        ensures
            old(self).registers_to(entry, *final(self)),
    {
        self.enter(entry);
        if self.alive_count() < usize::MAX {
            self.record_birth();
        }
    }

    /// Strikes one object off the count, as its destructor does. Where
    /// nothing is counted as alive, nothing changes.
    pub fn strike(&mut self)
        ensures
            old(self).strikes_to(*final(self)),
        opens_invariants none
        no_unwind
    {
        if self.alive_count() > 0 {
            self.record_death();
        }
    }

    /// A handle to every object that is still alive when the listing comes to
    /// its entry.
    pub fn list_arc(&self) -> (listing: Vec<TrackedObject<T>>)
        ensures
            self.lists(listing@),
    {
        let mut listing: Vec<TrackedObject<T>> = Vec::new();
        let ghost mut found: Seq<Option<TrackedObject<T>>> = Seq::empty();
        let mut i: usize = 0;
        while i < self.items.len()
            invariant
                i <= self.items@.len(),
                found.len() == i,
                forall|k: int|
                    0 <= k < found.len() ==> TrackedObject::upgrades(
                        #[trigger] self.items@[k],
                        found[k],
                    ),
                forall|k: int|
                    0 <= k < found.len() ==> TrackedObject::revives(
                        #[trigger] self.items@[k],
                        found[k],
                    ),
                listing@ == listed(found),
            decreases self.items@.len() - i,
        {
            let revived = TrackedObject::revive(&self.items[i]);
            proof {
                lemma_listed_push(found, revived);
                found = found.push(revived);
            }
            list_step(&mut listing, revived);
            i += 1;
        }
        listing
    }

    /// Sweeps the ledger if it is due for it: every entry is looked at once,
    /// and goes if std counts no strong reference to its object at that
    /// moment.
    pub fn gc_if_needed(&mut self)
        ensures
            old(self).sweeps_to(*final(self)),
    {
        if !self.should_gc() {
            return ;
        }
        let ghost mut verdicts: Seq<bool> = Seq::empty();
        let mut i: usize = 0;
        while i < self.items.len()
            invariant
                old(self).due_for_gc(),
                self.alive_count == old(self).alive_count,
                i <= self.items@.len(),
                verdicts.len() == i + old(self).items@.len() - self.items@.len(),
                sweep(old(self).items@, verdicts) == (self.items@, i as int),
                forall|k: int|
                    0 <= k < verdicts.len() ==> Self::finds(
                        #[trigger] looked_at(old(self).items@, verdicts, k),
                        verdicts[k],
                    ),
            decreases self.items@.len() - i,
        {
            let count = self.items[i].strong_count();
            let expired = count == 0;
            proof {
                let earlier = verdicts;
                verdicts = verdicts.push(expired);
                assert(verdicts.drop_last() == earlier);
                assert(self.items@[i as int].counts(count));
                assert forall|k: int| 0 <= k < verdicts.len() implies Self::finds(
                    #[trigger] looked_at(old(self).items@, verdicts, k),
                    verdicts[k],
                ) by {
                    if k < earlier.len() {
                        assert(verdicts.take(k) == earlier.take(k));
                        assert(looked_at(old(self).items@, verdicts, k) == looked_at(
                            old(self).items@,
                            earlier,
                            k,
                        ));
                    } else {
                        assert(verdicts.take(k) == earlier);
                    }
                }
            }
            i = sweep_step(&mut self.items, i, expired);
        }
        assert(old(self).meets(verdicts));
    }

    /// The number of objects that are counted as alive.
    pub fn alive_count(&self) -> (count: usize)
        ensures
            count == self.count(),
        opens_invariants none
        no_unwind
    {
        self.alive_count
    }

    /// Whether the ledger is due for a sweep.
    pub fn should_gc(&self) -> (due: bool)
        ensures
            due == self.due_for_gc(),
    {
        self.alive_count <= self.items.len() / 2
    }
}

impl<T> Default for Items<T> {
    /// A ledger without entries, in which nothing is counted as alive.
    fn default() -> (items: Self)
        ensures
            items.count() == 0,
            items.entries() == Seq::<WeakRef<T>>::empty(),
    {
        Items { alive_count: 0, items: Vec::new() }
    }
}

} // verus!
