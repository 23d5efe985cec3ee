//! The storage capability: the contract every backend must satisfy.
//!
//! `modify_entry` and `retract_entry` have a default, backend-independent
//! algorithm built only from the primitive operations; neither ever touches
//! stored content. A failure after the first step of `modify_entry` is
//! surfaced as a distinguishable `PartialCommitError` — the recovery
//! strategy (retry, compensate) belongs to the calling workflow, this core
//! only promises never to report success it did not earn.

use vstd::prelude::*;

use crate::entry::{entry_key_of, lemma_entry_key_injective, Entry, EntryModel};
use crate::error::HolochainError;
use crate::keys::Keys;
use crate::meta::{
    lemma_meta_accumulation, lemma_meta_insert_sorted, lemma_metas_for_member, meta_insert,
    meta_key_of, metas_for, metas_sorted, EntryMeta, MetaModel,
};
use crate::status::{CrudStatus, LINK_NAME, STATUS_NAME};

verus! {

/// The record that marks entry `e` with lifecycle status `status`, asserted
/// by the identity whose node id is `source`.
pub open spec fn status_meta_of(e: EntryModel, status: CrudStatus, source: Seq<char>) -> MetaModel {
    MetaModel {
        entry_hash: entry_key_of(e),
        attribute: STATUS_NAME@,
        value: status.value_spec(),
        source: source,
    }
}

/// The record that links entry `e` to the key of its successor revision.
pub open spec fn link_meta_of(e: EntryModel, new_key: Seq<char>, source: Seq<char>) -> MetaModel {
    MetaModel {
        entry_hash: entry_key_of(e),
        attribute: LINK_NAME@,
        value: new_key,
        source: source,
    }
}

/// The capability set every storage backend must satisfy. A backend is
/// described by two abstractions: the key-to-entry mapping and the ordered
/// metadata record sequence it holds. Operations fail only with
/// `StorageError` (backend I/O), and a failed primitive leaves the
/// observable state unchanged.
pub trait HashTable: Sized {
    /// The key-to-entry mapping this table holds.
    spec fn entries(&self) -> Map<Seq<char>, EntryModel>;

    /// The metadata records this table holds, in the deterministic total
    /// order the capability requires.
    spec fn metas(&self) -> Seq<MetaModel>;

    /// The backend's internal invariant.
    spec fn wf(&self) -> bool;

    /// Every well-formed backend keeps its records in the deterministic
    /// order, so two replicas holding the same record set agree on the
    /// sequence `metas_for_entry` returns.
    proof fn wf_implies_metas_sorted(&self)
        requires
            self.wf(),
        ensures
            metas_sorted(self.metas()),
    ;

    /// Backend lifecycle hook; a no-op unless a backend has resources to
    /// open.
    fn setup(&mut self) -> (r: Result<(), HolochainError>)
        requires
            old(self).wf(),
        ensures
            final(self).wf(),
            r matches Err(e) ==> e is StorageError && *final(self) == *old(self),
        default_ensures
            *final(self) == *old(self),
            r is Ok,
    {
        Ok(())
    }

    /// Backend lifecycle hook; a no-op unless a backend has resources to
    /// close.
    fn teardown(&mut self) -> (r: Result<(), HolochainError>)
        requires
            old(self).wf(),
        ensures
            final(self).wf(),
            r matches Err(e) ==> e is StorageError && *final(self) == *old(self),
        default_ensures
            *final(self) == *old(self),
            r is Ok,
    {
        Ok(())
    }

    /// Stores `entry` under its derived key. Storing identical content
    /// twice lands on the same key, so the write is observably idempotent.
    fn put_entry(&mut self, entry: &Entry) -> (r: Result<(), HolochainError>)
        requires
            old(self).wf(),
        ensures
            final(self).wf(),
            r is Ok ==> final(self).entries() == old(self).entries().insert(
                entry_key_of(entry@),
                entry@,
            ) && final(self).metas() == old(self).metas(),
            r matches Err(e) ==> e is StorageError && *final(self) == *old(self),
    ;

    /// Looks an entry up by key: the stored entry if the key is present,
    /// `None` if it never was — absence is not an error.
    fn get_entry(&self, key: &str) -> (r: Result<Option<Entry>, HolochainError>)
        requires
            self.wf(),
        ensures
            r matches Ok(Some(e)) ==> self.entries().contains_key(key@) && e@
                == self.entries()[key@],
            r matches Ok(None) ==> !self.entries().contains_key(key@),
            r matches Err(e) ==> e is StorageError,
    ;

    /// Records a new revision without touching the old one: stores
    /// `new_entry`, then asserts a MODIFIED status and a successor link on
    /// `old_entry`. If a metadata step fails after the first step
    /// succeeded, reports `PartialCommitError` and leaves exactly the steps
    /// that did succeed.
    fn modify_entry(&mut self, keys: &Keys, old_entry: &Entry, new_entry: &Entry) -> (r: Result<
        (),
        HolochainError,
    >)
        requires
            old(self).wf(),
        ensures
            final(self).wf(),
            r is Ok ==> final(self).entries() == old(self).entries().insert(
                entry_key_of(new_entry@),
                new_entry@,
            ) && final(self).metas() == meta_insert(
                meta_insert(
                    old(self).metas(),
                    status_meta_of(old_entry@, CrudStatus::Modified, keys@.node_id),
                ),
                link_meta_of(old_entry@, entry_key_of(new_entry@), keys@.node_id),
            ),
            r matches Err(e) ==> (e is StorageError && *final(self) == *old(self)) || (
            e is PartialCommitError && final(self).entries() == old(self).entries().insert(
                entry_key_of(new_entry@),
                new_entry@,
            ) && (final(self).metas() == old(self).metas() || final(self).metas() == meta_insert(
                old(self).metas(),
                status_meta_of(old_entry@, CrudStatus::Modified, keys@.node_id),
            ))),
    {
        self.put_entry(new_entry)?;
        let status_value = CrudStatus::Modified.as_meta_value();
        let status_meta = EntryMeta::new(keys, old_entry, STATUS_NAME, status_value.as_str());
        match self.assert_entry_meta(&status_meta) {
            Ok(()) => {},
            Err(_) => {
                return Err(HolochainError::PartialCommitError);
            },
        }
        let new_key = new_entry.key();
        let link_meta = EntryMeta::new(keys, old_entry, LINK_NAME, new_key.as_str());
        match self.assert_entry_meta(&link_meta) {
            Ok(()) => Ok(()),
            Err(_) => Err(HolochainError::PartialCommitError),
        }
    }

    /// Marks `entry` DELETED by asserting a tombstone record; the stored
    /// entry itself stays untouched and readable.
    fn retract_entry(&mut self, keys: &Keys, entry: &Entry) -> (r: Result<(), HolochainError>)
        requires
            old(self).wf(),
        ensures
            final(self).wf(),
            r is Ok ==> final(self).metas() == meta_insert(
                old(self).metas(),
                status_meta_of(entry@, CrudStatus::Deleted, keys@.node_id),
            ) && final(self).entries() == old(self).entries(),
            r matches Err(e) ==> e is StorageError && *final(self) == *old(self),
    {
        let status_value = CrudStatus::Deleted.as_meta_value();
        let meta = EntryMeta::new(keys, entry, STATUS_NAME, status_value.as_str());
        self.assert_entry_meta(&meta)
    }

    /// Stores or merges a metadata record; asserting an identical record
    /// again is idempotent, distinct records accumulate.
    fn assert_entry_meta(&mut self, meta: &EntryMeta) -> (r: Result<(), HolochainError>)
        requires
            old(self).wf(),
        ensures
            final(self).wf(),
            r is Ok ==> final(self).metas() == meta_insert(old(self).metas(), meta@)
                && final(self).entries() == old(self).entries(),
            r matches Err(e) ==> e is StorageError && *final(self) == *old(self),
    ;

    /// Looks a metadata record up by the record's own key.
    fn entry_meta(&mut self, key: &str) -> (r: Result<Option<EntryMeta>, HolochainError>)
        requires
            old(self).wf(),
        ensures
            *final(self) == *old(self),
            r matches Ok(Some(m)) ==> old(self).metas().contains(m@) && meta_key_of(m@) == key@,
            r matches Ok(None) ==> forall|i: int|
                0 <= i < old(self).metas().len() ==> meta_key_of(old(self).metas()[i]) != key@,
            r matches Err(e) ==> e is StorageError,
    ;

    /// All records asserted about `entry`, in the deterministic order.
    fn metas_for_entry(&mut self, entry: &Entry) -> (r: Result<Vec<EntryMeta>, HolochainError>)
        requires
            old(self).wf(),
        ensures
            *final(self) == *old(self),
            r matches Ok(v) ==> v.deep_view() == metas_for(
                old(self).metas(),
                entry_key_of(entry@),
            ),
            r matches Err(e) ==> e is StorageError,
    ;
}

/// Putting an entry twice leaves exactly the state one put leaves, and the
/// entry reads back under its derived key after either.
pub proof fn lemma_put_entry_idempotent(entries: Map<Seq<char>, EntryModel>, e: EntryModel)
    ensures
        entries.insert(entry_key_of(e), e).insert(entry_key_of(e), e) == entries.insert(
            entry_key_of(e),
            e,
        ),
        entries.insert(entry_key_of(e), e).contains_key(entry_key_of(e)),
        entries.insert(entry_key_of(e), e)[entry_key_of(e)] == e,
{
    assert(entries.insert(entry_key_of(e), e).insert(entry_key_of(e), e) =~= entries.insert(
        entry_key_of(e),
        e,
    ));
}

/// Serialized writes against one table are isolated. Puts for distinct
/// content land under distinct keys, are both visible afterwards, and
/// commute; puts racing on one key converge to the write the dispatcher
/// applied last — one of the two values, never a mixture.
pub proof fn lemma_put_entry_isolation(
    entries: Map<Seq<char>, EntryModel>,
    e1: EntryModel,
    e2: EntryModel,
)
    ensures
        e1 != e2 ==> entry_key_of(e1) != entry_key_of(e2),
        e1 != e2 ==> entries.insert(entry_key_of(e1), e1).insert(entry_key_of(e2), e2)
            == entries.insert(entry_key_of(e2), e2).insert(entry_key_of(e1), e1),
        e1 != e2 ==> entries.insert(entry_key_of(e1), e1).insert(
            entry_key_of(e2),
            e2,
        )[entry_key_of(e1)] == e1 && entries.insert(entry_key_of(e1), e1).insert(
            entry_key_of(e2),
            e2,
        )[entry_key_of(e2)] == e2,
        entry_key_of(e1) == entry_key_of(e2) ==> entries.insert(entry_key_of(e1), e1).insert(
            entry_key_of(e2),
            e2,
        ) == entries.insert(entry_key_of(e2), e2),
{
    if entry_key_of(e1) == entry_key_of(e2) {
        lemma_entry_key_injective(e1, e2);
        assert(entries.insert(entry_key_of(e1), e1).insert(entry_key_of(e2), e2) =~= entries.insert(
            entry_key_of(e2),
            e2,
        ));
    } else {
        assert(entries.insert(entry_key_of(e1), e1).insert(entry_key_of(e2), e2) =~= entries.insert(
            entry_key_of(e2),
            e2,
        ).insert(entry_key_of(e1), e1));
    }
}

/// The two attribute names are distinct, so a status record never collides
/// with a link record.
proof fn lemma_attribute_names_distinct()
    ensures
        STATUS_NAME@ != LINK_NAME@,
{
    reveal_strlit("crud-status");
    reveal_strlit("crud-link");
    assert(STATUS_NAME@.len() != LINK_NAME@.len());
}

/// Modifying preserves history. After a modify records `new_e` as the
/// successor of `old_e`: the old entry still reads back unchanged under its
/// key, the new entry reads back under its own key, and the old entry's
/// records include both the MODIFIED status and the link carrying the new
/// entry's key.
pub proof fn lemma_modify_preserves_history(
    entries: Map<Seq<char>, EntryModel>,
    metas: Seq<MetaModel>,
    old_e: EntryModel,
    new_e: EntryModel,
    source: Seq<char>,
)
    requires
        metas_sorted(metas),
        entries.contains_key(entry_key_of(old_e)),
        entries[entry_key_of(old_e)] == old_e,
        old_e != new_e,
    ensures
        entries.insert(entry_key_of(new_e), new_e).contains_key(entry_key_of(old_e)),
        entries.insert(entry_key_of(new_e), new_e)[entry_key_of(old_e)] == old_e,
        entries.insert(entry_key_of(new_e), new_e)[entry_key_of(new_e)] == new_e,
        metas_for(
            meta_insert(
                meta_insert(metas, status_meta_of(old_e, CrudStatus::Modified, source)),
                link_meta_of(old_e, entry_key_of(new_e), source),
            ),
            entry_key_of(old_e),
        ).contains(status_meta_of(old_e, CrudStatus::Modified, source)),
        metas_for(
            meta_insert(
                meta_insert(metas, status_meta_of(old_e, CrudStatus::Modified, source)),
                link_meta_of(old_e, entry_key_of(new_e), source),
            ),
            entry_key_of(old_e),
        ).contains(link_meta_of(old_e, entry_key_of(new_e), source)),
{
    if entry_key_of(old_e) == entry_key_of(new_e) {
        lemma_entry_key_injective(old_e, new_e);
        assert(false);
    }
    lemma_attribute_names_distinct();
    lemma_meta_accumulation(
        metas,
        status_meta_of(old_e, CrudStatus::Modified, source),
        link_meta_of(old_e, entry_key_of(new_e), source),
    );
}

/// Retracting is a tombstone, not a delete: the entry mapping is untouched
/// (the entry still reads back), and the entry's records now include the
/// DELETED status assertion.
pub proof fn lemma_retract_is_tombstone(
    entries: Map<Seq<char>, EntryModel>,
    metas: Seq<MetaModel>,
    e: EntryModel,
    source: Seq<char>,
)
    requires
        metas_sorted(metas),
        entries.contains_key(entry_key_of(e)),
        entries[entry_key_of(e)] == e,
    ensures
        metas_for(
            meta_insert(metas, status_meta_of(e, CrudStatus::Deleted, source)),
            entry_key_of(e),
        ).contains(status_meta_of(e, CrudStatus::Deleted, source)),
{
    lemma_meta_insert_sorted(metas, status_meta_of(e, CrudStatus::Deleted, source));
    lemma_metas_for_member(
        meta_insert(metas, status_meta_of(e, CrudStatus::Deleted, source)),
        entry_key_of(e),
        status_meta_of(e, CrudStatus::Deleted, source),
    );
}

} // verus!
