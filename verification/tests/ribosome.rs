use hash_table::call::CallArgs;
use hash_table::entry::Entry;
use hash_table::error::HolochainError;
use hash_table::ribosome::{
    remove_entry_start, remove_entry_step, RemoveEntryAction, RemoveEntryEvent, RemoveEntryState,
    RibosomeErrorCode,
};
use hash_table::status::CrudStatus;

#[test]
fn remove_entry_rejects_unparsable_address() {
    let (state, action) = remove_entry_start(None);
    assert_eq!(
        RemoveEntryState::Done(Err(RibosomeErrorCode::ArgumentDeserializationFailed)),
        state
    );
    assert_eq!(
        RemoveEntryAction::Respond(Err(RibosomeErrorCode::ArgumentDeserializationFailed)),
        action
    );
}

#[test]
fn remove_entry_happy_path() {
    let (state, action) = remove_entry_start(Some(String::from("some address")));
    assert_eq!(RemoveEntryState::AwaitingHistory, state);
    assert_eq!(RemoveEntryAction::FetchHistory(String::from("some address")), action);

    let current = Entry::new("testEntryType", "current content");
    let (state, action) = remove_entry_step(
        state,
        RemoveEntryEvent::HistoryFetched(Ok(vec![current.clone()])),
    );
    let deletion = Entry::new("%deletion", current.key().as_str());
    assert_eq!(RemoveEntryState::AwaitingValidation(deletion.clone()), state);
    assert_eq!(RemoveEntryAction::Validate(deletion.clone()), action);

    let (state, action) = remove_entry_step(state, RemoveEntryEvent::Validated(Ok(())));
    assert_eq!(RemoveEntryState::AwaitingCommit(deletion.clone()), state);
    assert_eq!(RemoveEntryAction::Commit(deletion.clone()), action);

    let (state, action) = remove_entry_step(state, RemoveEntryEvent::Committed(Ok(())));
    assert_eq!(RemoveEntryState::AwaitingMetaUpdate(deletion.clone()), state);
    assert_eq!(RemoveEntryAction::UpdateMeta(deletion), action);

    let (state, action) = remove_entry_step(state, RemoveEntryEvent::MetaUpdated(Ok(())));
    assert_eq!(RemoveEntryState::Done(Ok(())), state);
    assert_eq!(RemoveEntryAction::Respond(Ok(())), action);
}

#[test]
fn remove_entry_empty_history_fails() {
    let (state, _) = remove_entry_start(Some(String::from("addr")));
    let (state, action) = remove_entry_step(state, RemoveEntryEvent::HistoryFetched(Ok(vec![])));
    assert_eq!(RemoveEntryState::Done(Err(RibosomeErrorCode::Unspecified)), state);
    assert_eq!(RemoveEntryAction::Respond(Err(RibosomeErrorCode::Unspecified)), action);
}

#[test]
fn remove_entry_failed_step_stops_workflow() {
    let (state, _) = remove_entry_start(Some(String::from("addr")));
    let (state, _) = remove_entry_step(
        state,
        RemoveEntryEvent::HistoryFetched(Ok(vec![Entry::new("testEntryType", "c")])),
    );
    let (state, action) = remove_entry_step(
        state,
        RemoveEntryEvent::Validated(Err(HolochainError::StorageError(String::from("boom")))),
    );
    assert_eq!(RemoveEntryState::Done(Err(RibosomeErrorCode::Unspecified)), state);
    assert_eq!(RemoveEntryAction::Respond(Err(RibosomeErrorCode::Unspecified)), action);
}

#[test]
fn remove_entry_protocol_violation_fails() {
    let (state, _) = remove_entry_start(Some(String::from("addr")));
    let (state, action) = remove_entry_step(state, RemoveEntryEvent::Committed(Ok(())));
    assert_eq!(RemoveEntryState::Done(Err(RibosomeErrorCode::Unspecified)), state);
    assert_eq!(RemoveEntryAction::Respond(Err(RibosomeErrorCode::Unspecified)), action);
}

#[test]
fn crud_status_bits_and_values() {
    assert_eq!(1, CrudStatus::Live.bits());
    assert_eq!(2, CrudStatus::Rejected.bits());
    assert_eq!(4, CrudStatus::Deleted.bits());
    assert_eq!(8, CrudStatus::Modified.bits());
    assert_eq!(16, CrudStatus::Locked.bits());
    assert_eq!("8", CrudStatus::Modified.as_meta_value().as_str());
    assert_eq!("4", CrudStatus::Deleted.as_meta_value().as_str());
    for status in [
        CrudStatus::Live,
        CrudStatus::Rejected,
        CrudStatus::Deleted,
        CrudStatus::Modified,
        CrudStatus::Locked,
    ] {
        assert_eq!(
            Some(status),
            CrudStatus::from_meta_value(status.as_meta_value().as_str())
        );
    }
    assert_eq!(None, CrudStatus::from_meta_value("7"));
    assert_eq!(None, CrudStatus::from_meta_value(""));
}

#[test]
fn call_args_carry_their_fields() {
    let args = CallArgs {
        zome_name: String::from("zome"),
        cap_name: String::from("cap"),
        fn_name: String::from("function"),
        fn_args: String::from("{\"x\":1}"),
    };
    let copy = args.clone();
    assert_eq!(args, copy);
    assert_eq!("zome", copy.zome_name.as_str());
    assert_eq!("{\"x\":1}", copy.fn_args.as_str());
}
