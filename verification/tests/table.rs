use hash_table::entry::Entry;
use hash_table::keys::Keys;
use hash_table::memory::MemTable;
use hash_table::status::{CrudStatus, LINK_NAME, STATUS_NAME};
use hash_table::table::HashTable;

fn test_table() -> MemTable {
    MemTable::new()
}

fn test_entry() -> Entry {
    Entry::new("testEntryType", "test entry content")
}

fn test_keys() -> Keys {
    Keys::new("test node id")
}

#[test]
fn new() {
    test_table();
}

#[test]
fn test_standard_suite() {
    let mut table = test_table();
    let e1 = test_entry();
    let keys = test_keys();

    // Round trip a put and get.
    table.put_entry(&e1).expect("put must succeed");
    assert_eq!(
        Some(e1.clone()),
        table.get_entry(e1.key().as_str()).expect("get must succeed")
    );

    // A never-stored key reads back as None.
    assert_eq!(None, table.get_entry("never stored").expect("get must succeed"));

    // Modify: the old entry stays, the new one appears, and the old
    // entry's records carry the status and the successor link.
    let e2 = Entry::new("testEntryType", "fresh content");
    table.modify_entry(&keys, &e1, &e2).expect("modify must succeed");
    assert_eq!(
        Some(e1.clone()),
        table.get_entry(e1.key().as_str()).expect("get must succeed")
    );
    assert_eq!(
        Some(e2.clone()),
        table.get_entry(e2.key().as_str()).expect("get must succeed")
    );
    let metas = table.metas_for_entry(&e1).expect("query must succeed");
    assert_eq!(2, metas.len());
    assert_eq!(STATUS_NAME, metas[0].attribute());
    assert_eq!(CrudStatus::Modified.as_meta_value().as_str(), metas[0].value());
    assert_eq!(LINK_NAME, metas[1].attribute());
    assert_eq!(e2.key().as_str(), metas[1].value());

    // Retract: a tombstone record, not a delete.
    table.retract_entry(&keys, &e2).expect("retract must succeed");
    assert_eq!(
        Some(e2.clone()),
        table.get_entry(e2.key().as_str()).expect("get must succeed")
    );
    let e2_metas = table.metas_for_entry(&e2).expect("query must succeed");
    assert_eq!(1, e2_metas.len());
    assert_eq!(STATUS_NAME, e2_metas[0].attribute());
    assert_eq!(CrudStatus::Deleted.as_meta_value().as_str(), e2_metas[0].value());
}

#[test]
fn idempotent_put() {
    let mut once = test_table();
    let mut twice = test_table();
    let e = test_entry();
    once.put_entry(&e).expect("put must succeed");
    twice.put_entry(&e).expect("put must succeed");
    twice.put_entry(&e).expect("put must succeed");
    let key = e.key();
    assert_eq!(
        Some(e.clone()),
        once.get_entry(key.as_str()).expect("get must succeed")
    );
    assert_eq!(
        once.get_entry(key.as_str()).expect("get must succeed"),
        twice.get_entry(key.as_str()).expect("get must succeed")
    );
    assert_eq!(
        once.metas_for_entry(&e).expect("query must succeed"),
        twice.metas_for_entry(&e).expect("query must succeed")
    );
}

#[test]
fn absent_lookup_is_none_not_error() {
    let table = test_table();
    let r = table.get_entry("no such key");
    assert_eq!(Ok(None), r);
}

#[test]
fn meta_accumulation() {
    let mut table = test_table();
    let e = test_entry();
    let keys = test_keys();
    let m1 = hash_table::meta::EntryMeta::new(&keys, &e, "attribute-one", "value one");
    let m2 = hash_table::meta::EntryMeta::new(&keys, &e, "attribute-two", "value two");
    table.assert_entry_meta(&m1).expect("assert must succeed");
    table.assert_entry_meta(&m2).expect("assert must succeed");
    let metas = table.metas_for_entry(&e).expect("query must succeed");
    assert_eq!(2, metas.len());
    assert!(metas.contains(&m1));
    assert!(metas.contains(&m2));
    // Re-asserting an identical record does not duplicate it.
    table.assert_entry_meta(&m1).expect("assert must succeed");
    let after = table.metas_for_entry(&e).expect("query must succeed");
    assert_eq!(2, after.len());
}

#[test]
fn deterministic_ordering() {
    let e = test_entry();
    let keys = test_keys();
    let m1 = hash_table::meta::EntryMeta::new(&keys, &e, "attribute-one", "value one");
    let m2 = hash_table::meta::EntryMeta::new(&keys, &e, "attribute-two", "value two");
    let m3 = hash_table::meta::EntryMeta::new(&keys, &e, "attribute-three", "value three");

    let mut forward = test_table();
    forward.assert_entry_meta(&m1).expect("assert must succeed");
    forward.assert_entry_meta(&m2).expect("assert must succeed");
    forward.assert_entry_meta(&m3).expect("assert must succeed");

    let mut backward = test_table();
    backward.assert_entry_meta(&m3).expect("assert must succeed");
    backward.assert_entry_meta(&m2).expect("assert must succeed");
    backward.assert_entry_meta(&m1).expect("assert must succeed");

    let f = forward.metas_for_entry(&e).expect("query must succeed");
    let b = backward.metas_for_entry(&e).expect("query must succeed");
    assert_eq!(f, b);
    assert_eq!(3, f.len());
    // Repeated queries against the same state agree as well.
    assert_eq!(f, forward.metas_for_entry(&e).expect("query must succeed"));
}

#[test]
fn modify_preserves_history() {
    let mut table = test_table();
    let keys = test_keys();
    let old_entry = test_entry();
    let new_entry = Entry::new("testEntryType", "successor content");
    table.put_entry(&old_entry).expect("put must succeed");
    table.modify_entry(&keys, &old_entry, &new_entry).expect("modify must succeed");
    assert_eq!(
        Some(old_entry.clone()),
        table.get_entry(old_entry.key().as_str()).expect("get must succeed")
    );
    assert_eq!(
        Some(new_entry.clone()),
        table.get_entry(new_entry.key().as_str()).expect("get must succeed")
    );
    let metas = table.metas_for_entry(&old_entry).expect("query must succeed");
    assert_eq!(2, metas.len());
    assert_eq!(STATUS_NAME, metas[0].attribute());
    assert_eq!(CrudStatus::Modified.as_meta_value().as_str(), metas[0].value());
    assert_eq!("test node id", metas[0].source());
    assert_eq!(LINK_NAME, metas[1].attribute());
    assert_eq!(new_entry.key().as_str(), metas[1].value());
}

#[test]
fn retract_is_tombstone_not_delete() {
    let mut table = test_table();
    let keys = test_keys();
    let e = test_entry();
    table.put_entry(&e).expect("put must succeed");
    table.retract_entry(&keys, &e).expect("retract must succeed");
    assert_eq!(
        Some(e.clone()),
        table.get_entry(e.key().as_str()).expect("get must succeed")
    );
    let metas = table.metas_for_entry(&e).expect("query must succeed");
    assert_eq!(1, metas.len());
    assert_eq!(STATUS_NAME, metas[0].attribute());
    assert_eq!(CrudStatus::Deleted.as_meta_value().as_str(), metas[0].value());
}

#[test]
fn end_to_end_scenario() {
    let mut table = test_table();
    let k = Keys::new("K");
    let a = Entry::new("testEntryType", "x");
    let b = Entry::new("testEntryType", "y");

    // Store A, assert no metadata: the query returns the empty sequence.
    table.put_entry(&a).expect("put must succeed");
    assert_eq!(
        Vec::<hash_table::meta::EntryMeta>::new(),
        table.metas_for_entry(&a).expect("query must succeed")
    );

    // Modify A into B under identity K.
    table.modify_entry(&k, &a, &b).expect("modify must succeed");
    assert_eq!(
        Some(a.clone()),
        table.get_entry(a.key().as_str()).expect("get must succeed")
    );
    assert_eq!(
        Some(b.clone()),
        table.get_entry(b.key().as_str()).expect("get must succeed")
    );
    let a_metas = table.metas_for_entry(&a).expect("query must succeed");
    assert_eq!(2, a_metas.len());
    assert_eq!(STATUS_NAME, a_metas[0].attribute());
    assert_eq!(CrudStatus::Modified.as_meta_value().as_str(), a_metas[0].value());
    assert_eq!("K", a_metas[0].source());
    assert_eq!(LINK_NAME, a_metas[1].attribute());
    assert_eq!(b.key().as_str(), a_metas[1].value());

    // Retract B: tombstone only.
    table.retract_entry(&k, &b).expect("retract must succeed");
    let b_metas = table.metas_for_entry(&b).expect("query must succeed");
    assert_eq!(1, b_metas.len());
    assert_eq!(STATUS_NAME, b_metas[0].attribute());
    assert_eq!(CrudStatus::Deleted.as_meta_value().as_str(), b_metas[0].value());
    assert_eq!(
        Some(b.clone()),
        table.get_entry(b.key().as_str()).expect("get must succeed")
    );
}

#[test]
fn entry_meta_lookup_by_record_key() {
    let mut table = test_table();
    let e = test_entry();
    let keys = test_keys();
    let m = hash_table::meta::EntryMeta::new(&keys, &e, "some-attribute", "some value");
    table.assert_entry_meta(&m).expect("assert must succeed");
    assert_eq!(
        Some(m.clone()),
        table.entry_meta(m.key().as_str()).expect("lookup must succeed")
    );
    assert_eq!(None, table.entry_meta("missing").expect("lookup must succeed"));
}

#[test]
fn setup_and_teardown_are_noops() {
    let mut table = test_table();
    assert_eq!(Ok(()), table.setup());
    assert_eq!(Ok(()), table.teardown());
}

#[test]
fn derived_keys_follow_content() {
    let e1 = Entry::new("testEntryType", "same content");
    let e2 = Entry::new("testEntryType", "same content");
    let e3 = Entry::new("testEntryType", "other content");
    assert_eq!(e1.key(), e2.key());
    assert_ne!(e1.key(), e3.key());
    assert_eq!("testEntryType", e1.entry_type());
    assert_eq!("same content", e1.content());
}
