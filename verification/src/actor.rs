//! The message protocol that serializes access to one table instance.
//!
//! Every capability operation is mirrored one-to-one as a request/response
//! message pair. Each table instance is owned by exactly one dispatcher;
//! `dispatch` is the dispatcher's whole step, and the only code path that
//! touches the backend, so operations are strictly serialized in receipt
//! order — mutual exclusion is structural, not lock-based. The blocking
//! adapter around it (enqueue, suspend, resolve) is plumbing that lives
//! with the embedding application.

use vstd::prelude::*;

use crate::entry::{entry_key_of, Entry, EntryModel};
use crate::error::HolochainError;
use crate::keys::Keys;
use crate::meta::{meta_insert, meta_key_of, metas_for, EntryMeta};
use crate::status::CrudStatus;
use crate::table::{link_meta_of, status_meta_of, HashTable};

verus! {

/// One message variant per capability operation: a request carrying the
/// operation's inputs, a response carrying its result.
#[derive(Debug, PartialEq, Eq)]
pub enum Protocol {
    Setup,
    SetupResult(Result<(), HolochainError>),
    Teardown,
    TeardownResult(Result<(), HolochainError>),
    GetEntry(String),
    GetEntryResult(Result<Option<Entry>, HolochainError>),
    PutEntry(Entry),
    PutEntryResult(Result<(), HolochainError>),
    ModifyEntry { keys: Keys, old_entry: Entry, new_entry: Entry },
    ModifyEntryResult(Result<(), HolochainError>),
    RetractEntry { keys: Keys, entry: Entry },
    RetractEntryResult(Result<(), HolochainError>),
    AssertEntryMeta(EntryMeta),
    AssertEntryMetaResult(Result<(), HolochainError>),
    GetEntryMeta(String),
    GetEntryMetaResult(Result<Option<EntryMeta>, HolochainError>),
    GetMetasForEntry(Entry),
    GetMetasForEntryResult(Result<Vec<EntryMeta>, HolochainError>),
}

impl Protocol {
    /// Whether this message asks the dispatcher for an operation (rather
    /// than answering one).
    pub open spec fn is_request(&self) -> bool {
        match self {
            Protocol::Setup => true,
            Protocol::Teardown => true,
            Protocol::GetEntry(_) => true,
            Protocol::PutEntry(_) => true,
            Protocol::ModifyEntry { .. } => true,
            Protocol::RetractEntry { .. } => true,
            Protocol::AssertEntryMeta(_) => true,
            Protocol::GetEntryMeta(_) => true,
            Protocol::GetMetasForEntry(_) => true,
            _ => false,
        }
    }
}

/// What a lifecycle hook (setup, teardown) leaves behind.
pub open spec fn lifecycle_outcome<T: HashTable>(
    pre: T,
    post: T,
    res: Result<(), HolochainError>,
) -> bool {
    res matches Err(e) ==> e is StorageError && post == pre
}

/// What a put leaves behind.
pub open spec fn put_outcome<T: HashTable>(
    pre: T,
    post: T,
    e: EntryModel,
    res: Result<(), HolochainError>,
) -> bool {
    &&& res is Ok ==> post.entries() == pre.entries().insert(entry_key_of(e), e) && post.metas()
        == pre.metas()
    &&& res matches Err(err) ==> err is StorageError && post == pre
}

/// What a lookup returned, relative to the table it read.
pub open spec fn get_outcome<T: HashTable>(
    t: T,
    key: Seq<char>,
    res: Result<Option<Entry>, HolochainError>,
) -> bool {
    &&& res matches Ok(Some(e)) ==> t.entries().contains_key(key) && e@ == t.entries()[key]
    &&& res matches Ok(None) ==> !t.entries().contains_key(key)
    &&& res matches Err(err) ==> err is StorageError
}

/// What a modify leaves behind: both metadata assertions on success, and on
/// a partial failure exactly the steps that did succeed, reported as such.
pub open spec fn modify_outcome<T: HashTable>(
    pre: T,
    post: T,
    source: Seq<char>,
    old_e: EntryModel,
    new_e: EntryModel,
    res: Result<(), HolochainError>,
) -> bool {
    &&& res is Ok ==> post.entries() == pre.entries().insert(entry_key_of(new_e), new_e)
        && post.metas() == meta_insert(
        meta_insert(pre.metas(), status_meta_of(old_e, CrudStatus::Modified, source)),
        link_meta_of(old_e, entry_key_of(new_e), source),
    )
    &&& res matches Err(e) ==> (e is StorageError && post == pre) || (e is PartialCommitError
        && post.entries() == pre.entries().insert(entry_key_of(new_e), new_e) && (post.metas()
        == pre.metas() || post.metas() == meta_insert(
        pre.metas(),
        status_meta_of(old_e, CrudStatus::Modified, source),
    )))
}

/// What a retract leaves behind: the tombstone record, nothing else.
pub open spec fn retract_outcome<T: HashTable>(
    pre: T,
    post: T,
    source: Seq<char>,
    e: EntryModel,
    res: Result<(), HolochainError>,
) -> bool {
    &&& res is Ok ==> post.metas() == meta_insert(
        pre.metas(),
        status_meta_of(e, CrudStatus::Deleted, source),
    ) && post.entries() == pre.entries()
    &&& res matches Err(err) ==> err is StorageError && post == pre
}

/// What a metadata assertion leaves behind.
pub open spec fn assert_meta_outcome<T: HashTable>(
    pre: T,
    post: T,
    m: crate::meta::MetaModel,
    res: Result<(), HolochainError>,
) -> bool {
    &&& res is Ok ==> post.metas() == meta_insert(pre.metas(), m) && post.entries()
        == pre.entries()
    &&& res matches Err(err) ==> err is StorageError && post == pre
}

/// What a record lookup returned, relative to the table it read.
pub open spec fn entry_meta_outcome<T: HashTable>(
    t: T,
    key: Seq<char>,
    res: Result<Option<EntryMeta>, HolochainError>,
) -> bool {
    &&& res matches Ok(Some(m)) ==> t.metas().contains(m@) && meta_key_of(m@) == key
    &&& res matches Ok(None) ==> forall|i: int|
        0 <= i < t.metas().len() ==> meta_key_of(t.metas()[i]) != key
    &&& res matches Err(err) ==> err is StorageError
}

/// What a records-for-entry query returned.
pub open spec fn metas_for_outcome<T: HashTable>(
    t: T,
    e: EntryModel,
    res: Result<Vec<EntryMeta>, HolochainError>,
) -> bool {
    &&& res matches Ok(v) ==> v.deep_view() == metas_for(t.metas(), entry_key_of(e))
    &&& res matches Err(err) ==> err is StorageError
}

/// The dispatcher's whole step: applies one request to the table it
/// exclusively owns and produces the matching response message. A message
/// that is no request (a stray response) changes nothing and is answered
/// with `None`.
pub fn dispatch<T: HashTable>(table: &mut T, message: Protocol) -> (r: Option<Protocol>)
    requires
        old(table).wf(),
    ensures
        final(table).wf(),
        message.is_request() <==> r is Some,
        !message.is_request() ==> *final(table) == *old(table),
        message is Setup ==> (r matches Some(p) && p matches Protocol::SetupResult(res)
            && lifecycle_outcome(*old(table), *final(table), res)),
        message is Teardown ==> (r matches Some(p) && p matches Protocol::TeardownResult(res)
            && lifecycle_outcome(*old(table), *final(table), res)),
        message matches Protocol::PutEntry(e) ==> (r matches Some(p) && p matches
            Protocol::PutEntryResult(res) && put_outcome(*old(table), *final(table), e@, res)),
        message matches Protocol::GetEntry(key) ==> (r matches Some(p) && p matches
            Protocol::GetEntryResult(res) && get_outcome(*old(table), key@, res) && *final(table)
            == *old(table)),
        message matches Protocol::ModifyEntry { keys, old_entry, new_entry } ==> (r matches Some(p)
            && p matches Protocol::ModifyEntryResult(res) && modify_outcome(
            *old(table),
            *final(table),
            keys@.node_id,
            old_entry@,
            new_entry@,
            res,
        )),
        message matches Protocol::RetractEntry { keys, entry } ==> (r matches Some(p) && p matches
            Protocol::RetractEntryResult(res) && retract_outcome(
            *old(table),
            *final(table),
            keys@.node_id,
            entry@,
            res,
        )),
        message matches Protocol::AssertEntryMeta(m) ==> (r matches Some(p) && p matches
            Protocol::AssertEntryMetaResult(res) && assert_meta_outcome(
            *old(table),
            *final(table),
            m@,
            res,
        )),
        message matches Protocol::GetEntryMeta(key) ==> (r matches Some(p) && p matches
            Protocol::GetEntryMetaResult(res) && entry_meta_outcome(*old(table), key@, res)
            && *final(table) == *old(table)),
        message matches Protocol::GetMetasForEntry(e) ==> (r matches Some(p) && p matches
            Protocol::GetMetasForEntryResult(res) && metas_for_outcome(*old(table), e@, res)
            && *final(table) == *old(table)),
{
    match message {
        Protocol::Setup => Some(Protocol::SetupResult(table.setup())),
        Protocol::Teardown => Some(Protocol::TeardownResult(table.teardown())),
        Protocol::GetEntry(key) => Some(Protocol::GetEntryResult(table.get_entry(key.as_str()))),
        Protocol::PutEntry(entry) => Some(Protocol::PutEntryResult(table.put_entry(&entry))),
        Protocol::ModifyEntry { keys, old_entry, new_entry } => Some(
            Protocol::ModifyEntryResult(table.modify_entry(&keys, &old_entry, &new_entry)),
        ),
        Protocol::RetractEntry { keys, entry } => Some(
            Protocol::RetractEntryResult(table.retract_entry(&keys, &entry)),
        ),
        Protocol::AssertEntryMeta(meta) => Some(
            Protocol::AssertEntryMetaResult(table.assert_entry_meta(&meta)),
        ),
        Protocol::GetEntryMeta(key) => Some(
            Protocol::GetEntryMetaResult(table.entry_meta(key.as_str())),
        ),
        Protocol::GetMetasForEntry(entry) => Some(
            Protocol::GetMetasForEntryResult(table.metas_for_entry(&entry)),
        ),
        _ => None,
    }
}

} // verus!
