use hash_table::actor::{dispatch, Protocol};
use hash_table::entry::Entry;
use hash_table::keys::Keys;
use hash_table::memory::MemTable;
use hash_table::status::{CrudStatus, STATUS_NAME};

#[test]
fn dispatch_put_then_get() {
    let mut table = MemTable::new();
    let e = Entry::new("testEntryType", "dispatched content");
    let put_response = dispatch(&mut table, Protocol::PutEntry(e.clone()));
    assert_eq!(Some(Protocol::PutEntryResult(Ok(()))), put_response);
    let get_response = dispatch(&mut table, Protocol::GetEntry(e.key()));
    assert_eq!(Some(Protocol::GetEntryResult(Ok(Some(e)))), get_response);
}

#[test]
fn dispatch_get_absent() {
    let mut table = MemTable::new();
    let response = dispatch(&mut table, Protocol::GetEntry(String::from("missing")));
    assert_eq!(Some(Protocol::GetEntryResult(Ok(None))), response);
}

#[test]
fn dispatch_serialized_disjoint_writes_both_land() {
    let mut table = MemTable::new();
    let e1 = Entry::new("testEntryType", "first");
    let e2 = Entry::new("testEntryType", "second");
    dispatch(&mut table, Protocol::PutEntry(e1.clone()));
    dispatch(&mut table, Protocol::PutEntry(e2.clone()));
    assert_eq!(
        Some(Protocol::GetEntryResult(Ok(Some(e1.clone())))),
        dispatch(&mut table, Protocol::GetEntry(e1.key()))
    );
    assert_eq!(
        Some(Protocol::GetEntryResult(Ok(Some(e2.clone())))),
        dispatch(&mut table, Protocol::GetEntry(e2.key()))
    );
}

#[test]
fn dispatch_same_key_converges_to_last_write() {
    let mut table = MemTable::new();
    let e = Entry::new("testEntryType", "same content");
    let twin = Entry::new("testEntryType", "same content");
    dispatch(&mut table, Protocol::PutEntry(e.clone()));
    dispatch(&mut table, Protocol::PutEntry(twin.clone()));
    assert_eq!(
        Some(Protocol::GetEntryResult(Ok(Some(twin)))),
        dispatch(&mut table, Protocol::GetEntry(e.key()))
    );
}

#[test]
fn dispatch_full_protocol() {
    let mut table = MemTable::new();
    let keys = Keys::new("dispatch node");
    let old_entry = Entry::new("testEntryType", "old");
    let new_entry = Entry::new("testEntryType", "new");

    assert_eq!(Some(Protocol::SetupResult(Ok(()))), dispatch(&mut table, Protocol::Setup));
    dispatch(&mut table, Protocol::PutEntry(old_entry.clone()));
    assert_eq!(
        Some(Protocol::ModifyEntryResult(Ok(()))),
        dispatch(
            &mut table,
            Protocol::ModifyEntry {
                keys: Keys::new("dispatch node"),
                old_entry: old_entry.clone(),
                new_entry: new_entry.clone(),
            }
        )
    );
    assert_eq!(
        Some(Protocol::RetractEntryResult(Ok(()))),
        dispatch(
            &mut table,
            Protocol::RetractEntry { keys: Keys::new("dispatch node"), entry: new_entry.clone() }
        )
    );
    let meta = hash_table::meta::EntryMeta::new(&keys, &old_entry, "extra", "value");
    assert_eq!(
        Some(Protocol::AssertEntryMetaResult(Ok(()))),
        dispatch(&mut table, Protocol::AssertEntryMeta(meta.clone()))
    );
    assert_eq!(
        Some(Protocol::GetEntryMetaResult(Ok(Some(meta.clone())))),
        dispatch(&mut table, Protocol::GetEntryMeta(meta.key()))
    );
    match dispatch(&mut table, Protocol::GetMetasForEntry(new_entry.clone())) {
        Some(Protocol::GetMetasForEntryResult(Ok(metas))) => {
            assert_eq!(1, metas.len());
            assert_eq!(STATUS_NAME, metas[0].attribute());
            assert_eq!(CrudStatus::Deleted.as_meta_value().as_str(), metas[0].value());
        }
        other => panic!("unexpected response: {:?}", other),
    }
    assert_eq!(
        Some(Protocol::TeardownResult(Ok(()))),
        dispatch(&mut table, Protocol::Teardown)
    );
}

#[test]
fn dispatch_ignores_stray_responses() {
    let mut table = MemTable::new();
    let response = dispatch(&mut table, Protocol::PutEntryResult(Ok(())));
    assert_eq!(None, response);
}
