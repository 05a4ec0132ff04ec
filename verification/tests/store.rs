use todo_store::item::{Item, NotFound};
use todo_store::store::TodoStore;

fn seeded_store() -> TodoStore {
    // Same contents as the canonical startup state: three items, the second
    // already done.
    let mut s = TodoStore::new();
    s.create(String::from("Faire une soupe à l'oignon"));
    s.create(String::from("Payer facture electricité"));
    s.create(String::from("Faire les courses"));
    s.toggle(2).unwrap();
    s
}

#[test]
fn create_on_empty_store_assigns_id_one() {
    let mut s = TodoStore::new();
    let it = s.create(String::from("first"));
    assert_eq!(it.id, 1);
    assert_eq!(it.description, "first");
    assert!(!it.done);
}

#[test]
fn create_assigns_max_plus_one() {
    let mut s = TodoStore::new();
    s.create(String::from("a"));
    s.create(String::from("b"));
    s.create(String::from("c"));
    let it = s.create(String::from("d"));
    assert_eq!(it.id, 4);
}

#[test]
fn create_after_gap_still_uses_max_plus_one() {
    let items = vec![
        Item { id: 1, description: String::from("low"), done: false },
        Item { id: 5, description: String::from("high"), done: true },
    ];
    let mut s = TodoStore::from_items(items).unwrap();
    let it = s.create(String::from("next"));
    assert_eq!(it.id, 6);
}

#[test]
fn created_ids_are_pairwise_distinct() {
    let mut s = TodoStore::new();
    let mut ids = Vec::new();
    for k in 0..10 {
        ids.push(s.create(format!("task {k}")).id);
    }
    for i in 0..ids.len() {
        for j in 0..ids.len() {
            if i != j {
                assert_ne!(ids[i], ids[j]);
            }
        }
    }
}

#[test]
fn toggle_twice_restores_done_value() {
    let mut s = seeded_store();
    let before = s.get(1).unwrap().done;
    s.toggle(1).unwrap();
    s.toggle(1).unwrap();
    assert_eq!(s.get(1).unwrap().done, before);
}

#[test]
fn toggle_keeps_id_and_description() {
    let mut s = seeded_store();
    let before = s.get(3).unwrap();
    let after = s.toggle(3).unwrap();
    assert_eq!(after.id, before.id);
    assert_eq!(after.description, before.description);
    assert_eq!(after.done, !before.done);
}

#[test]
fn get_missing_id_reports_that_id() {
    let s = seeded_store();
    let err = s.get(999).unwrap_err();
    assert_eq!(err, NotFound { id: 999 });
    assert_eq!(err.message(), "todo not found");
}

#[test]
fn toggle_missing_id_reports_that_id() {
    let mut s = seeded_store();
    let err = s.toggle(999).unwrap_err();
    assert_eq!(err.id, 999);
    // The failed toggle must leave the store untouched.
    assert_eq!(s.len(), 3);
    assert!(!s.get(1).unwrap().done);
}

#[test]
fn list_is_a_consistent_snapshot_across_creates() {
    let mut s = TodoStore::new();
    for k in 0..5 {
        assert_eq!(s.list().len(), k);
        assert_eq!(s.len(), k);
        s.create(format!("task {k}"));
        assert_eq!(s.list().len(), k + 1);
    }
}

#[test]
fn from_items_rejects_duplicate_ids() {
    let items = vec![
        Item { id: 7, description: String::from("one"), done: false },
        Item { id: 7, description: String::from("two"), done: false },
    ];
    assert!(TodoStore::from_items(items).is_none());
}

#[test]
fn from_items_keeps_order_of_distinct_ids() {
    let items = vec![
        Item { id: 2, description: String::from("b"), done: true },
        Item { id: 1, description: String::from("a"), done: false },
    ];
    let s = TodoStore::from_items(items).unwrap();
    assert_eq!(s.list()[0].id, 2);
    assert_eq!(s.list()[1].id, 1);
}

#[test]
fn end_to_end_scenario() {
    let mut s = seeded_store();

    // Listing returns all three items in insertion order.
    let listed = s.list();
    assert_eq!(listed.len(), 3);
    assert_eq!(
        listed[0],
        Item { id: 1, description: String::from("Faire une soupe à l'oignon"), done: false }
    );
    assert_eq!(
        listed[1],
        Item { id: 2, description: String::from("Payer facture electricité"), done: true }
    );
    assert_eq!(
        listed[2],
        Item { id: 3, description: String::from("Faire les courses"), done: false }
    );

    // Toggling item 2 flips it back to not done and returns the update.
    let toggled = s.toggle(2).unwrap();
    assert_eq!(
        toggled,
        Item { id: 2, description: String::from("Payer facture electricité"), done: false }
    );

    // Creating appends a fourth item with the next identifier.
    let created = s.create(String::from("Nouvelle tâche"));
    assert_eq!(
        created,
        Item { id: 4, description: String::from("Nouvelle tâche"), done: false }
    );
    assert_eq!(s.len(), 4);
    assert_eq!(s.list()[3], created);

    // Asking for an absent identifier fails with exactly that identifier.
    let err = s.get(99).unwrap_err();
    assert_eq!(err.id, 99);
    assert_eq!(err.message(), "todo not found");
}

#[test]
fn can_allocate_on_ordinary_stores() {
    let s = TodoStore::new();
    assert!(s.can_allocate());
    let full = TodoStore::from_items(vec![Item {
        id: u32::MAX,
        description: String::from("last possible"),
        done: false,
    }])
    .unwrap();
    assert!(!full.can_allocate());
}
