//! What holds of every listing and of every sweep of a ledger.
//!
//! Whether an object is still alive when a listing or a sweep comes to its
//! entry lies with the holders of its handles. The laws speak of every
//! outcome: of `found`, what the entries of a listing are found to have, and
//! of `verdicts`, what the steps of a sweep find. `Items::lists` and
//! `Items::meets` say which outcomes a ledger can have: those that std
//! answers with when it is asked about the entries.

use crate::ledger::discarded;
use crate::ledger::listed;
use crate::ledger::sweep;
use crate::ledger::swept;
use crate::ledger::without;
use crate::object::TrackedObject;
use crate::weak::WeakRef;
use vstd::multiset::Multiset;
use vstd::prelude::*;

verus! {

/// Dead entries list nothing and sweep clean: a listing that finds none of
/// its objects is empty, and a sweep that finds every entry expired leaves no
/// entry.
///
/// This is where a ledger stands once the last handle to every object is
/// gone, a snapshot being a handle like any other: std lets no weak
/// reference be upgraded then, and counts no strong reference.
pub proof fn lemma_dead_entries_list_nothing_and_sweep_clean<A, E>(
    entries: Seq<E>,
    found: Seq<Option<A>>,
    verdicts: Seq<bool>,
)
    requires
        forall|k: int| 0 <= k < found.len() ==> found[k] is None,
        verdicts.len() == entries.len(),
        forall|k: int| 0 <= k < verdicts.len() ==> verdicts[k],
    ensures
        listed(found) == Seq::<A>::empty(),
        swept(entries, verdicts) == Seq::<E>::empty(),
{
    found.lemma_all_neg_filter_empty(|outcome: Option<A>| outcome is Some);
    assert(listed(found) =~= Seq::<A>::empty());
    lemma_sweep_all_expired(entries, verdicts);
    assert(swept(entries, verdicts) =~= Seq::<E>::empty());
}

/// A listing holds what was entered. Where the entries of a ledger are weak
/// references to `objects`, one for each and in the same order, every handle
/// that a listing finds is the handle of the object at its entry. So the
/// listing holds handles of `objects` only, and a listing that is as long as
/// the ledger holds all of `objects`, in the order of the entries.
pub proof fn lemma_listing_holds_what_was_entered<T>(
    entries: Seq<WeakRef<T>>,
    objects: Seq<TrackedObject<T>>,
    found: Seq<Option<TrackedObject<T>>>,
)
    requires
        objects.len() == entries.len(),
        found.len() == entries.len(),
        forall|k: int| 0 <= k < entries.len() ==> objects[k].is_behind(#[trigger] entries[k]),
        forall|k: int|
            0 <= k < entries.len() ==> TrackedObject::revives(#[trigger] entries[k], found[k]),
    ensures
        forall|k: int| 0 <= k < found.len() && found[k] is Some ==> found[k] == Some(objects[k]),
        forall|j: int|
            0 <= j < listed(found).len() ==> objects.contains(#[trigger] listed(found)[j]),
        listed(found).len() <= objects.len(),
        listed(found).len() == objects.len() ==> listed(found) == objects,
{
    assert forall|k: int| 0 <= k < found.len() && found[k] is Some implies found[k] == Some(
        objects[k],
    ) by {
        assert(objects[k].is_behind(entries[k]));
        assert(TrackedObject::revives(entries[k], found[k]));
    }
    lemma_listed_is_part_of_found(found);
    assert forall|j: int| 0 <= j < listed(found).len() implies objects.contains(
        #[trigger] listed(found)[j],
    ) by {
        let k = choose|k: int| 0 <= k < found.len() && found[k] == Some(listed(found)[j]);
        assert(objects[k] == listed(found)[j]);
    }
    if listed(found).len() == objects.len() {
        lemma_listed_all_found(found);
        assert(listed(found) =~= objects);
    }
}

/// A listing holds nothing but what was found, and no more than one object
/// for each entry. A listing with one object for each entry has found them
/// all.
pub proof fn lemma_listed_is_part_of_found<A>(found: Seq<Option<A>>)
    ensures
        listed(found).len() <= found.len(),
        forall|j: int|
            0 <= j < listed(found).len() ==> exists|k: int|
                0 <= k < found.len() && found[k] == Some(#[trigger] listed(found)[j]),
        listed(found).len() == found.len() ==> forall|k: int|
            0 <= k < found.len() ==> found[k] is Some,
    decreases found.len(),
{
    if found.len() > 0 {
        let earlier = found.drop_last();
        lemma_listed_is_part_of_found(earlier);
        lemma_listed_push(earlier, found.last());
        assert(earlier.push(found.last()) == found);
        assert forall|j: int| 0 <= j < listed(found).len() implies exists|k: int|
            0 <= k < found.len() && found[k] == Some(#[trigger] listed(found)[j]) by {
            if j < listed(earlier).len() {
                let k = choose|k: int|
                    0 <= k < earlier.len() && earlier[k] == Some(listed(earlier)[j]);
                assert(found[k] == Some(listed(found)[j]));
            } else {
                assert(found[found.len() - 1] == Some(listed(found)[j]));
            }
        }
    }
}

/// Where every entry was found to have its object, the listing holds one
/// object for each entry, in order.
pub proof fn lemma_listed_all_found<A>(found: Seq<Option<A>>)
    requires
        listed(found).len() == found.len(),
    ensures
        forall|k: int| 0 <= k < found.len() ==> found[k] == Some(#[trigger] listed(found)[k]),
    decreases found.len(),
{
    if found.len() > 0 {
        let earlier = found.drop_last();
        lemma_listed_is_part_of_found(earlier);
        lemma_listed_push(earlier, found.last());
        assert(earlier.push(found.last()) == found);
        lemma_listed_all_found(earlier);
    }
}

/// A listing grows by the object that the next entry is found to have, and
/// stays as it is where the object is gone.
pub proof fn lemma_listed_push<A>(found: Seq<Option<A>>, next: Option<A>)
    ensures
        listed(found.push(next)) == match next {
            Some(object) => listed(found).push(object),
            None => listed(found),
        },
{
    let is_some = |outcome: Option<A>| outcome is Some;
    assert(found.push(next).drop_last() == found);
    reveal(Seq::filter);
    assert(found.push(next).filter(is_some) == if next is Some {
        found.filter(is_some).push(next)
    } else {
        found.filter(is_some)
    });
    assert(listed(found.push(next)) =~= match next {
        Some(object) => listed(found).push(object),
        None => listed(found),
    });
}

/// A sweep that finds nothing expired leaves the entries as they are, and is
/// at the end after one step for each entry.
pub proof fn lemma_sweep_none_expired<E>(entries: Seq<E>, verdicts: Seq<bool>)
    requires
        forall|k: int| 0 <= k < verdicts.len() ==> !verdicts[k],
    ensures
        swept(entries, verdicts) == entries,
        sweep(entries, verdicts).1 == if verdicts.len() <= entries.len() {
            verdicts.len() as int
        } else {
            entries.len() as int
        },
    decreases verdicts.len(),
{
    if verdicts.len() > 0 {
        lemma_sweep_none_expired(entries, verdicts.drop_last());
    }
}

/// A sweep that finds every entry expired never leaves position 0, and drops
/// one entry with every step until none is left.
pub proof fn lemma_sweep_all_expired<E>(entries: Seq<E>, verdicts: Seq<bool>)
    requires
        forall|k: int| 0 <= k < verdicts.len() ==> verdicts[k],
    ensures
        sweep(entries, verdicts).1 == 0,
        swept(entries, verdicts).len() == if verdicts.len() <= entries.len() {
            entries.len() - verdicts.len()
        } else {
            0
        },
    decreases verdicts.len(),
{
    if verdicts.len() > 0 {
        lemma_sweep_all_expired(entries, verdicts.drop_last());
    }
}

/// Taking the entry at `at` out of `entries` takes out that entry and no
/// other: with it put back, the entries are what they were, in some order.
pub proof fn lemma_without_takes_one<E>(entries: Seq<E>, at: int)
    requires
        0 <= at < entries.len(),
    ensures
        without(entries, at).len() == entries.len() - 1,
        without(entries, at).to_multiset().insert(entries[at]) == entries.to_multiset(),
{
    broadcast use vstd::multiset::group_multiset_axioms;

    let moved = entries.update(at, entries.last());
    vstd::seq_lib::to_multiset_update(entries, at, entries.last());
    vstd::seq_lib::to_multiset_remove(moved, moved.len() - 1);
    assert(moved.remove(moved.len() - 1) == moved.drop_last());
    assert(moved[moved.len() - 1] == entries.last());
    assert(entries.to_multiset().count(entries.last()) > 0) by {
        vstd::seq_lib::to_multiset_contains(entries, entries.last());
        assert(entries.contains(entries.last()));
    }
    assert(entries.to_multiset().count(entries[at]) > 0) by {
        vstd::seq_lib::to_multiset_contains(entries, entries[at]);
        assert(entries.contains(entries[at]));
    }
    assert(without(entries, at).to_multiset().insert(entries[at]) =~= entries.to_multiset());
}

/// A sweep parts the entries into those that it keeps and those that it
/// discards: together they are the entries that the sweep began with, in some
/// order. So no entry is lost or made up, and none goes twice. Every step
/// looks at an entry that no step has looked at before, and after one step
/// for each entry the sweep is at the end.
pub proof fn lemma_sweep_parts_the_entries<E>(entries: Seq<E>, verdicts: Seq<bool>)
    ensures
        swept(entries, verdicts).to_multiset().add(discarded(entries, verdicts).to_multiset())
            == entries.to_multiset(),
        swept(entries, verdicts).len() + discarded(entries, verdicts).len() == entries.len(),
        0 <= sweep(entries, verdicts).1 <= swept(entries, verdicts).len(),
        verdicts.len() <= entries.len() ==> sweep(entries, verdicts).1 + discarded(
            entries,
            verdicts,
        ).len() == verdicts.len(),
        verdicts.len() >= entries.len() ==> sweep(entries, verdicts).1 == swept(
            entries,
            verdicts,
        ).len(),
    decreases verdicts.len(),
{
    broadcast use vstd::multiset::group_multiset_axioms;

    if verdicts.len() == 0 {
        assert(discarded(entries, verdicts).to_multiset() =~= Multiset::<E>::empty()) by {
            assert forall|entry: E| discarded(entries, verdicts).to_multiset().count(entry) == 0 by {
                vstd::seq_lib::to_multiset_contains(discarded(entries, verdicts), entry);
            }
        }
        assert(swept(entries, verdicts).to_multiset().add(
            discarded(entries, verdicts).to_multiset(),
        ) =~= entries.to_multiset());
    } else {
        let earlier = verdicts.drop_last();
        lemma_sweep_parts_the_entries(entries, earlier);
        let (left, at) = sweep(entries, earlier);
        if at < left.len() && verdicts.last() {
            lemma_without_takes_one(left, at);
            vstd::seq_lib::to_multiset_build(discarded(entries, earlier), left[at]);
            assert(swept(entries, verdicts).to_multiset().add(
                discarded(entries, verdicts).to_multiset(),
            ) =~= without(left, at).to_multiset().insert(left[at]).add(
                discarded(entries, earlier).to_multiset(),
            ));
        }
    }
}

} // verus!
