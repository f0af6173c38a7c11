use census::ledger::list_step;
use census::ledger::sweep_step;
use census::Inventory;
use census::Items;
use census::TrackedObject;

#[test]
fn sweep_step_keeps_a_living_entry_and_moves_on() {
    let mut entries = vec![10, 20, 30, 40];
    let next = sweep_step(&mut entries, 1, false);
    assert_eq!(next, 2);
    assert_eq!(entries, vec![10, 20, 30, 40]);
}

#[test]
fn sweep_step_puts_the_last_entry_in_the_place_of_an_expired_one() {
    let mut entries = vec![10, 20, 30, 40];
    let next = sweep_step(&mut entries, 1, true);
    assert_eq!(next, 1);
    assert_eq!(entries, vec![10, 40, 30]);
}

#[test]
fn sweep_step_drops_an_expired_last_entry() {
    let mut entries = vec![10, 20, 30];
    let next = sweep_step(&mut entries, 2, true);
    assert_eq!(next, 2);
    assert_eq!(entries, vec![10, 20]);
    let mut single = vec![7];
    let next = sweep_step(&mut single, 0, true);
    assert_eq!(next, 0);
    assert!(single.is_empty());
}

#[test]
fn sweep_steps_make_a_whole_sweep() {
    let mut entries = vec![1, 2, 3, 4, 5, 6];
    let expired = |entry: &i32| entry % 2 == 0;
    let mut at = 0;
    let mut steps = 0;
    while at < entries.len() {
        let verdict = expired(&entries[at]);
        at = sweep_step(&mut entries, at, verdict);
        steps += 1;
    }
    assert_eq!(steps, 6);
    assert_eq!(entries, vec![1, 5, 3]);
}

#[test]
fn list_step_adds_what_was_found() {
    let mut listing = vec![1, 2];
    list_step(&mut listing, Some(3));
    assert_eq!(listing, vec![1, 2, 3]);
    list_step(&mut listing, None);
    assert_eq!(listing, vec![1, 2, 3]);
}

#[test]
fn empty_ledger_counts_nothing() {
    let items: Items<u32> = Items::default();
    assert_eq!(items.alive_count(), 0);
    assert!(items.list_arc().is_empty());
    assert!(items.should_gc());
}

#[test]
fn births_and_deaths_are_counted() {
    let mut items: Items<u32> = Items::default();
    items.record_birth();
    items.record_birth();
    items.record_birth();
    assert_eq!(items.alive_count(), 3);
    items.record_death();
    assert_eq!(items.alive_count(), 2);
    items.record_death();
    items.record_death();
    assert_eq!(items.alive_count(), 0);
}

#[test]
fn register_enters_and_counts() {
    let census = Inventory::new();
    let one = census.track(1);
    let two = census.track(2);
    let mut items: Items<u32> = Items::default();
    items.register(one.downgrade());
    assert_eq!(items.alive_count(), 1);
    items.register(two.downgrade());
    assert_eq!(items.alive_count(), 2);
    let listing: Vec<u32> = items.list_arc().into_iter().map(|object| *object).collect();
    assert_eq!(listing, vec![1, 2]);
}

#[test]
fn strike_counts_down_and_stops_at_nothing() {
    let census = Inventory::new();
    let one = census.track(1);
    let mut items: Items<u32> = Items::default();
    items.register(one.downgrade());
    items.record_birth();
    assert_eq!(items.alive_count(), 2);
    items.strike();
    assert_eq!(items.alive_count(), 1);
    items.strike();
    assert_eq!(items.alive_count(), 0);
    items.strike();
    assert_eq!(items.alive_count(), 0);
    assert_eq!(items.list_arc().len(), 1);
}

#[test]
fn sweep_is_due_when_half_of_the_entries_may_be_dead() {
    let census = Inventory::new();
    let objects: Vec<TrackedObject<u32>> = (0..4).map(|value| census.track(value)).collect();
    let mut items: Items<u32> = Items::default();
    // alive 0, entries 0
    assert!(items.should_gc());
    items.record_birth();
    // alive 1, entries 0
    assert!(!items.should_gc());
    items.enter(objects[0].downgrade());
    // alive 1, entries 1
    assert!(!items.should_gc());
    items.enter(objects[1].downgrade());
    // alive 1, entries 2
    assert!(items.should_gc());
    items.record_birth();
    // alive 2, entries 2
    assert!(!items.should_gc());
    items.enter(objects[2].downgrade());
    // alive 2, entries 3
    assert!(!items.should_gc());
    items.enter(objects[3].downgrade());
    // alive 2, entries 4
    assert!(items.should_gc());
}

#[test]
fn entries_are_listed_in_order_while_their_objects_live() {
    let census = Inventory::new();
    let one = census.track(1);
    let two = census.track(2);
    let three = census.track(3);
    let mut items: Items<u32> = Items::default();
    items.enter(three.downgrade());
    items.enter(one.downgrade());
    items.enter(two.downgrade());
    let listing: Vec<u32> = items.list_arc().into_iter().map(|object| *object).collect();
    assert_eq!(listing, vec![3, 1, 2]);
    drop(one);
    let listing: Vec<u32> = items.list_arc().into_iter().map(|object| *object).collect();
    assert_eq!(listing, vec![3, 2]);
    assert_eq!(items.alive_count(), 0);
}

#[test]
fn sweep_discards_the_entries_of_dead_objects_only() {
    let census = Inventory::new();
    let objects: Vec<TrackedObject<u32>> = (0..6).map(|value| census.track(value)).collect();
    let mut items: Items<u32> = Items::default();
    for object in &objects {
        items.enter(object.downgrade());
    }
    items.record_birth();
    items.record_birth();
    items.record_birth();
    let mut kept = Vec::new();
    for (at, object) in objects.into_iter().enumerate() {
        if at % 2 == 0 {
            kept.push(object);
        }
    }
    // entries 0..6 of which 1, 3 and 5 are dead; alive 3
    assert!(items.should_gc());
    items.gc_if_needed();
    // entries 0, 4, 2 are left
    assert!(!items.should_gc());
    assert_eq!(items.alive_count(), 3);
    let listing: Vec<u32> = items.list_arc().into_iter().map(|object| *object).collect();
    assert_eq!(listing, vec![0, 4, 2]);
    items.record_death();
    // alive 2, entries 3: not due
    assert!(!items.should_gc());
    items.record_death();
    // alive 1, entries 3: due
    assert!(items.should_gc());
    drop(kept);
}

#[test]
fn sweep_waits_until_it_is_due() {
    let census = Inventory::new();
    let one = census.track(1);
    let two = census.track(2);
    let three = census.track(3);
    let mut items: Items<u32> = Items::default();
    items.enter(one.downgrade());
    items.enter(two.downgrade());
    items.enter(three.downgrade());
    items.record_birth();
    items.record_birth();
    drop(one);
    drop(two);
    drop(three);
    // alive 2, entries 3, all of them dead: not due, so the sweep leaves them
    assert!(!items.should_gc());
    items.gc_if_needed();
    assert!(!items.should_gc());
    items.record_death();
    // alive 1, entries 3: due, and the sweep finds every entry dead
    assert!(items.should_gc());
    items.gc_if_needed();
    // alive 1, entries 0
    assert!(!items.should_gc());
    assert!(items.list_arc().is_empty());
    assert_eq!(items.alive_count(), 1);
}

#[test]
fn weak_reference_does_not_keep_its_object_alive() {
    let census = Inventory::new();
    let object = census.track(5);
    let entry = object.downgrade();
    assert_eq!(census.list().len(), 1);
    let revived = TrackedObject::revive(&entry);
    assert!(revived.is_some());
    assert_eq!(*revived.unwrap(), 5);
    drop(object);
    assert!(census.list().is_empty());
    assert!(TrackedObject::revive(&entry).is_none());
}

#[test]
fn revived_handle_keeps_its_object_alive() {
    let census = Inventory::new();
    let object = census.track(5);
    let entry = object.downgrade();
    let revived = TrackedObject::revive(&entry).unwrap();
    drop(object);
    assert_eq!(census.list().len(), 1);
    assert_eq!(*revived, 5);
    drop(revived);
    assert!(census.list().is_empty());
}
