use census::Inventory;
use census::TrackedObject;
use std::borrow::Borrow;
use std::time::Duration;

fn values(census: &Inventory<u32>) -> Vec<u32> {
    census.list().into_iter().map(|object| *object).collect()
}

#[test]
fn new_registry_lists_nothing() {
    let census: Inventory<u32> = Inventory::new();
    assert!(census.list().is_empty());
    let other: Inventory<u32> = Inventory::default();
    assert!(other.list().is_empty());
}

#[test]
fn listing_follows_every_registration_and_drop() {
    let census = Inventory::new();
    let one = census.track(1);
    assert_eq!(values(&census), vec![1]);
    let two = census.track(2);
    let three = census.track(3);
    assert_eq!(values(&census), vec![1, 2, 3]);
    drop(two);
    let mut left = values(&census);
    left.sort();
    assert_eq!(left, vec![1, 3]);
    drop(one);
    drop(three);
    assert!(census.list().is_empty());
}

#[test]
fn nothing_is_listed_once_all_handles_and_snapshots_are_gone() {
    let census = Inventory::new();
    let mut handles = Vec::new();
    for value in 0..50u32 {
        let object = census.track(value);
        handles.push(object.clone());
        handles.push(object);
    }
    let snapshot = census.list();
    assert_eq!(snapshot.len(), 50);
    let second = census.list();
    assert_eq!(second.len(), 50);
    drop(handles);
    assert_eq!(census.list().len(), 50);
    drop(snapshot);
    assert_eq!(census.list().len(), 50);
    drop(second);
    assert!(census.list().is_empty());
}

#[test]
fn snapshot_keeps_its_objects_alive() {
    let census = Inventory::new();
    let object = census.track(5);
    let snapshot = census.list();
    drop(object);
    assert_eq!(values(&census), vec![5]);
    assert_eq!(census.list().len(), 1);
    drop(snapshot);
    assert_eq!(census.list().len(), 0);
}

#[test]
fn snapshot_does_not_see_later_registrations() {
    let census = Inventory::new();
    let _one = census.track(1);
    let snapshot = census.list();
    let _two = census.track(2);
    assert_eq!(snapshot.len(), 1);
    assert_eq!(*snapshot[0], 1);
    assert_eq!(census.list().len(), 2);
}

#[test]
fn clone_is_a_handle_of_its_own_to_the_same_object() {
    let census = Inventory::new();
    let object = census.track(9);
    let clone = object.clone();
    assert_eq!(*clone, 9);
    assert_eq!(census.list().len(), 1);
    drop(object);
    assert_eq!(values(&census), vec![9]);
    drop(clone);
    assert_eq!(census.list().len(), 0);
}

#[test]
fn clone_shares_the_value() {
    let census = Inventory::new();
    let object = census.track(String::from("one"));
    let clone = object.clone();
    let first: &String = &object;
    let second: &String = &clone;
    assert!(std::ptr::eq(first, second));
}

#[test]
fn map_registers_a_second_object() {
    let census = Inventory::new();
    let seven = census.track(7);
    let fourteen = seven.map(|value| value * 2);
    assert_eq!(*seven, 7);
    assert_eq!(*fourteen, 14);
    assert_eq!(values(&census), vec![7, 14]);
    drop(seven);
    assert_eq!(values(&census), vec![14]);
    drop(fourteen);
    assert!(census.list().is_empty());
}

#[test]
fn map_result_can_go_first() {
    let census = Inventory::new();
    let seven = census.track(7);
    let fourteen = seven.map(|value| value * 2);
    drop(fourteen);
    assert_eq!(values(&census), vec![7]);
    drop(seven);
    assert!(census.list().is_empty());
}

#[test]
fn map_registers_with_the_registry_of_its_object() {
    let census = Inventory::new();
    let other = Inventory::new();
    let one = census.track(1);
    let _ten = other.track(10);
    let _two = one.map(|value| value + 1);
    assert_eq!(values(&census), vec![1, 2]);
    assert_eq!(values(&other), vec![10]);
}

#[test]
fn clones_of_a_registry_share_its_objects() {
    let census = Inventory::new();
    let clone = census.clone();
    let one = clone.track(1);
    let _two = census.track(2);
    assert_eq!(values(&census), vec![1, 2]);
    assert_eq!(values(&clone), vec![1, 2]);
    drop(one);
    assert_eq!(values(&census), vec![2]);
}

#[test]
fn objects_outlive_the_registry_they_came_from() {
    let object = {
        let census = Inventory::new();
        census.track(3)
    };
    assert_eq!(*object, 3);
    let next = object.map(|value| value + 1);
    assert_eq!(*next, 4);
}

#[test]
fn handle_gives_the_value_to_read() {
    let census = Inventory::new();
    let object: TrackedObject<String> = census.track(String::from("one"));
    assert_eq!(object.len(), 3);
    let by_deref: &String = &object;
    assert_eq!(by_deref, "one");
    let by_as_ref: &String = object.as_ref();
    assert_eq!(by_as_ref, "one");
    let by_borrow: &String = object.borrow();
    assert_eq!(by_borrow, "one");
}

#[test]
fn wait_until_empty_returns_on_an_empty_registry() {
    let census: Inventory<u32> = Inventory::new();
    census.wait_until_empty();
    let object = census.track(1);
    drop(object);
    census.wait_until_empty();
    assert!(census.list().is_empty());
}

#[test]
fn wait_until_predicate_is_asked_the_number_alive() {
    let census = Inventory::new();
    let _one = census.track(1);
    let two = census.track(2);
    let _clone = two.clone();
    census.wait_until_predicate(|count| count == 2);
    drop(two);
    census.wait_until_predicate(|count| count == 2);
    drop(_clone);
    census.wait_until_predicate(|count| count == 1);
    let _snapshot = census.list();
    census.wait_until_predicate(|count| count == 1);
}

#[test]
fn bounded_wait_returns_the_number_that_was_accepted() {
    let census = Inventory::new();
    let _one = census.track(1);
    let _two = census.track(2);
    let accepted = census.wait_until_predicate_timeout(|count| count >= 2, Duration::from_secs(5));
    assert_eq!(accepted, Some(2));
    let accepted = census.wait_until_predicate_timeout(|count| count != 0, Duration::ZERO);
    assert_eq!(accepted, Some(2));
}

#[test]
fn bounded_wait_does_not_wait_for_a_predicate_that_rejects_nothing() {
    let census = Inventory::new();
    assert_eq!(census.wait_until_predicate_timeout(|_| true, Duration::ZERO), Some(0));
    let _one = census.track(1);
    assert_eq!(census.wait_until_predicate_timeout(|_| true, Duration::ZERO), Some(1));
    assert_eq!(census.wait_until_predicate_timeout(|_| false, Duration::ZERO), None);
}

#[test]
fn bounded_wait_gives_up_when_the_time_is_over() {
    let census = Inventory::new();
    let object = census.track(1);
    let accepted = census.wait_until_predicate_timeout(|count| count == 0, Duration::from_millis(20));
    assert_eq!(accepted, None);
    drop(object);
    let accepted = census.wait_until_predicate_timeout(|count| count == 0, Duration::from_millis(20));
    assert_eq!(accepted, Some(0));
    assert!(census.list().is_empty());
}

#[test]
fn object_with_many_handles_is_struck_off_once() {
    let census = Inventory::new();
    let other = census.track(0);
    let object = census.track(1);
    let clones: Vec<TrackedObject<u32>> = (0..100).map(|_| object.clone()).collect();
    drop(object);
    assert_eq!(census.wait_until_predicate_timeout(|count| count == 2, Duration::ZERO), Some(2));
    for clone in clones {
        assert_eq!(values(&census), vec![0, 1]);
        drop(clone);
    }
    assert_eq!(values(&census), vec![0]);
    assert_eq!(census.wait_until_predicate_timeout(|count| count == 1, Duration::ZERO), Some(1));
    drop(other);
    assert_eq!(census.wait_until_predicate_timeout(|count| count == 0, Duration::ZERO), Some(0));
    assert!(census.list().is_empty());
}

#[test]
fn listing_and_dropping_the_listing_changes_nothing() {
    let census = Inventory::new();
    let _one = census.track(1);
    let _two = census.track(2);
    for _ in 0..10 {
        drop(census.list());
        assert_eq!(values(&census), vec![1, 2]);
        assert_eq!(census.wait_until_predicate_timeout(|count| count == 2, Duration::ZERO), Some(2));
    }
}

#[test]
fn many_drops_leave_a_registry_that_still_works() {
    let census = Inventory::new();
    for round in 0..100u32 {
        let keep = census.track(round);
        for value in 0..20u32 {
            let _gone = census.track(1000 + value);
        }
        assert_eq!(values(&census), vec![round]);
        drop(keep);
    }
    assert!(census.list().is_empty());
    census.wait_until_empty();
}

fn is_send_and_sync<X: Send + Sync>() {}

#[test]
fn registry_and_handles_can_cross_threads() {
    is_send_and_sync::<Inventory<u32>>();
    is_send_and_sync::<TrackedObject<u32>>();
    is_send_and_sync::<Vec<TrackedObject<String>>>();
}
