//! The storage-facing side of the host-function layer: the interface a host
//! function definition satisfies, and the decision core of the remove-entry
//! workflow. The WASM sandbox, validation pipeline and commit machinery are
//! external collaborators; the embedding application performs their work
//! and feeds the outcomes back in as events.

use vstd::prelude::*;

use crate::entry::Entry;
use crate::error::HolochainError;

verus! {

/// The reserved capability groups a host function can belong to.
#[derive(Clone, Copy, Debug, PartialEq, Eq, Structural)]
pub enum ReservedCapabilityNames {
    LifeCycle,
    Communication,
}

/// A host function definition: its canonical name, its index, and the
/// capability it belongs to. Interface only — the implementations live
/// with the WASM sandbox.
pub trait Defn: Sized {
    /// The canonical name of this function definition.
    fn as_str(&self) -> &'static str;

    /// The index a canonical name maps to.
    fn str_to_index(s: &str) -> usize;

    /// The function definition an index maps to.
    fn from_index(i: usize) -> Self;

    /// The capability this function belongs to.
    fn capability(&self) -> ReservedCapabilityNames;
}

/// Failure codes the host hands back to application code.
#[derive(Clone, Copy, Debug, PartialEq, Eq, Structural)]
pub enum RibosomeErrorCode {
    Unspecified,
    ArgumentDeserializationFailed,
}

/// Where the remove-entry workflow stands. The payload of the middle
/// states is the deletion (tombstone) entry being carried to commit.
#[derive(Debug, PartialEq, Eq)]
pub enum RemoveEntryState {
    AwaitingHistory,
    AwaitingValidation(Entry),
    AwaitingCommit(Entry),
    AwaitingMetaUpdate(Entry),
    Done(Result<(), RibosomeErrorCode>),
}

/// What the embedding runtime reports back after performing the previous
/// action: the outcome of the collaborator it drove.
#[derive(Debug, PartialEq, Eq)]
pub enum RemoveEntryEvent {
    HistoryFetched(Result<Vec<Entry>, HolochainError>),
    Validated(Result<(), HolochainError>),
    Committed(Result<(), HolochainError>),
    MetaUpdated(Result<(), HolochainError>),
}

/// The next outside job the runtime must perform, or the final answer.
#[derive(Debug, PartialEq, Eq)]
pub enum RemoveEntryAction {
    FetchHistory(String),
    Validate(Entry),
    Commit(Entry),
    UpdateMeta(Entry),
    Respond(Result<(), RibosomeErrorCode>),
}

/// Starts the remove-entry workflow from the deserialized argument: no
/// parsable address fails fast with `ArgumentDeserializationFailed`; an
/// address asks the runtime for the entry's current history.
pub fn remove_entry_start(try_address: Option<String>) -> (r: (
    RemoveEntryState,
    RemoveEntryAction,
))
    ensures
        try_address is None ==> r.0 == RemoveEntryState::Done(
            Err(RibosomeErrorCode::ArgumentDeserializationFailed),
        ) && r.1 == RemoveEntryAction::Respond(
            Err(RibosomeErrorCode::ArgumentDeserializationFailed),
        ),
        try_address matches Some(addr) ==> (r.1 matches RemoveEntryAction::FetchHistory(a) && a
            == addr && r.0 is AwaitingHistory),
{
    match try_address {
        None => (
            RemoveEntryState::Done(Err(RibosomeErrorCode::ArgumentDeserializationFailed)),
            RemoveEntryAction::Respond(Err(RibosomeErrorCode::ArgumentDeserializationFailed)),
        ),
        Some(addr) => (RemoveEntryState::AwaitingHistory, RemoveEntryAction::FetchHistory(addr)),
    }
}

/// One decision step of the remove-entry workflow: get the current version
/// of the entry, build the tombstone, validate it, commit it, update the
/// metadata — and stop with a reported failure the moment any step fails.
/// An event that does not answer the pending state ends the workflow as
/// `Unspecified` (a protocol violation by the runtime).
pub fn remove_entry_step(state: RemoveEntryState, event: RemoveEntryEvent) -> (r: (
    RemoveEntryState,
    RemoveEntryAction,
))
    ensures
        state is AwaitingHistory ==> (event matches RemoveEntryEvent::HistoryFetched(h) ==> (match h {
            Err(_) => r.0 == RemoveEntryState::Done(Err(RibosomeErrorCode::Unspecified)) && r.1
                == RemoveEntryAction::Respond(Err(RibosomeErrorCode::Unspecified)),
            Ok(history) => {
                if history@.len() == 0 {
                    r.0 == RemoveEntryState::Done(Err(RibosomeErrorCode::Unspecified)) && r.1
                        == RemoveEntryAction::Respond(Err(RibosomeErrorCode::Unspecified))
                } else {
                    &&& r.0 matches RemoveEntryState::AwaitingValidation(d)
                    &&& r.1 == RemoveEntryAction::Validate(d)
                    &&& d@.entry_type == "%deletion"@
                    &&& d@.content == crate::entry::entry_key_of(history@[0]@)
                }
            },
        })),
        state matches RemoveEntryState::AwaitingValidation(d) ==> (event matches
            RemoveEntryEvent::Validated(v) ==> (match v {
            Err(_) => r.0 == RemoveEntryState::Done(Err(RibosomeErrorCode::Unspecified)) && r.1
                == RemoveEntryAction::Respond(Err(RibosomeErrorCode::Unspecified)),
            Ok(_) => r.0 == RemoveEntryState::AwaitingCommit(d) && r.1
                == RemoveEntryAction::Commit(d),
        })),
        state matches RemoveEntryState::AwaitingCommit(d) ==> (event matches
            RemoveEntryEvent::Committed(c) ==> (match c {
            Err(_) => r.0 == RemoveEntryState::Done(Err(RibosomeErrorCode::Unspecified)) && r.1
                == RemoveEntryAction::Respond(Err(RibosomeErrorCode::Unspecified)),
            Ok(_) => r.0 == RemoveEntryState::AwaitingMetaUpdate(d) && r.1
                == RemoveEntryAction::UpdateMeta(d),
        })),
        state matches RemoveEntryState::AwaitingMetaUpdate(d) ==> (event matches
            RemoveEntryEvent::MetaUpdated(u) ==> (match u {
            Err(_) => r.0 == RemoveEntryState::Done(Err(RibosomeErrorCode::Unspecified)) && r.1
                == RemoveEntryAction::Respond(Err(RibosomeErrorCode::Unspecified)),
            Ok(_) => r.0 == RemoveEntryState::Done(Ok(())) && r.1 == RemoveEntryAction::Respond(
                Ok(()),
            ),
        })),
        !(state is AwaitingHistory && event is HistoryFetched) && !(state is AwaitingValidation
            && event is Validated) && !(state is AwaitingCommit && event is Committed) && !(
        state is AwaitingMetaUpdate && event is MetaUpdated) ==> r.0 == RemoveEntryState::Done(
            Err(RibosomeErrorCode::Unspecified),
        ) && r.1 == RemoveEntryAction::Respond(Err(RibosomeErrorCode::Unspecified)),
{
    match (state, event) {
        (RemoveEntryState::AwaitingHistory, RemoveEntryEvent::HistoryFetched(h)) => match h {
            Err(_) => (
                RemoveEntryState::Done(Err(RibosomeErrorCode::Unspecified)),
                RemoveEntryAction::Respond(Err(RibosomeErrorCode::Unspecified)),
            ),
            Ok(history) => {
                if history.len() == 0 {
                    (
                        RemoveEntryState::Done(Err(RibosomeErrorCode::Unspecified)),
                        RemoveEntryAction::Respond(Err(RibosomeErrorCode::Unspecified)),
                    )
                } else {
                    let target_key = history[0].key();
                    let deletion = Entry::new("%deletion", target_key.as_str());
                    (
                        RemoveEntryState::AwaitingValidation(deletion.clone()),
                        RemoveEntryAction::Validate(deletion),
                    )
                }
            },
        },
        (RemoveEntryState::AwaitingValidation(d), RemoveEntryEvent::Validated(v)) => match v {
            Err(_) => (
                RemoveEntryState::Done(Err(RibosomeErrorCode::Unspecified)),
                RemoveEntryAction::Respond(Err(RibosomeErrorCode::Unspecified)),
            ),
            Ok(_) => (RemoveEntryState::AwaitingCommit(d.clone()), RemoveEntryAction::Commit(d)),
        },
        (RemoveEntryState::AwaitingCommit(d), RemoveEntryEvent::Committed(c)) => match c {
            Err(_) => (
                RemoveEntryState::Done(Err(RibosomeErrorCode::Unspecified)),
                RemoveEntryAction::Respond(Err(RibosomeErrorCode::Unspecified)),
            ),
            Ok(_) => (
                RemoveEntryState::AwaitingMetaUpdate(d.clone()),
                RemoveEntryAction::UpdateMeta(d),
            ),
        },
        (RemoveEntryState::AwaitingMetaUpdate(d), RemoveEntryEvent::MetaUpdated(u)) => match u {
            Err(_) => (
                RemoveEntryState::Done(Err(RibosomeErrorCode::Unspecified)),
                RemoveEntryAction::Respond(Err(RibosomeErrorCode::Unspecified)),
            ),
            Ok(_) => (RemoveEntryState::Done(Ok(())), RemoveEntryAction::Respond(Ok(()))),
        },
        (_, _) => (
            RemoveEntryState::Done(Err(RibosomeErrorCode::Unspecified)),
            RemoveEntryAction::Respond(Err(RibosomeErrorCode::Unspecified)),
        ),
    }
}

} // verus!
