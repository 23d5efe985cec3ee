//! The in-memory reference backend: two independent keyed mappings, one for
//! entries and one for metadata records. All operations are synchronous and
//! in-process; none can hit backend I/O, so none ever fails.

use vstd::prelude::*;

use crate::entry::{entry_key_of, Entry, EntryModel};
use crate::error::HolochainError;
use crate::meta::{
    lemma_meta_insert_at, lemma_meta_insert_sorted, lemma_metas_for_take_step, meta_insert,
    meta_key_of, metas_for, metas_sorted, EntryMeta, MetaModel,
};
use crate::order::{lex_lt, str_eq, str_lex_lt};
use crate::table::HashTable;

verus! {

/// The key-to-entry mapping a sequence of stored entries represents: later
/// writes win, though under unique keys nothing is ever shadowed.
pub open spec fn entries_as_map(s: Seq<EntryModel>) -> Map<Seq<char>, EntryModel>
    decreases s.len(),
{
    if s.len() == 0 {
        Map::empty()
    } else {
        entries_as_map(s.drop_last()).insert(entry_key_of(s.last()), s.last())
    }
}

/// No two stored entries share a key.
pub open spec fn entry_keys_unique(s: Seq<EntryModel>) -> bool {
    forall|i: int, j: int|
        0 <= i < j < s.len() ==> entry_key_of(#[trigger] s[i]) != entry_key_of(#[trigger] s[j])
}

/// A key is in the mapping exactly when some stored entry carries it.
pub proof fn lemma_entries_map_contains(s: Seq<EntryModel>, k: Seq<char>)
    ensures
        entries_as_map(s).contains_key(k) <==> exists|i: int|
            0 <= i < s.len() && entry_key_of(#[trigger] s[i]) == k,
    decreases s.len(),
{
    if s.len() == 0 {
    } else {
        let dl = s.drop_last();
        lemma_entries_map_contains(dl, k);
        if entries_as_map(s).contains_key(k) {
            if k == entry_key_of(s.last()) {
                assert(entry_key_of(s[s.len() - 1]) == k);
            } else {
                let i = choose|i: int| 0 <= i < dl.len() && entry_key_of(#[trigger] dl[i]) == k;
                assert(dl[i] == s[i]);
                assert(entry_key_of(s[i]) == k);
            }
        }
        if exists|i: int| 0 <= i < s.len() && entry_key_of(#[trigger] s[i]) == k {
            let i = choose|i: int| 0 <= i < s.len() && entry_key_of(#[trigger] s[i]) == k;
            if i == s.len() - 1 {
                assert(entries_as_map(s).contains_key(k));
            } else {
                assert(dl[i] == s[i]);
                assert(entries_as_map(dl).contains_key(k));
            }
        }
    }
}

/// Under unique keys, each stored entry is what its key maps to.
pub proof fn lemma_entries_map_index(s: Seq<EntryModel>, i: int)
    requires
        entry_keys_unique(s),
        0 <= i < s.len(),
    ensures
        entries_as_map(s).contains_key(entry_key_of(s[i])),
        entries_as_map(s)[entry_key_of(s[i])] == s[i],
    decreases s.len(),
{
    let dl = s.drop_last();
    if i == s.len() - 1 {
    } else {
        assert(entry_keys_unique(dl)) by {
            assert forall|a: int, b: int| 0 <= a < b < dl.len() implies entry_key_of(
                #[trigger] dl[a],
            ) != entry_key_of(#[trigger] dl[b]) by {
                assert(dl[a] == s[a]);
                assert(dl[b] == s[b]);
            }
        }
        assert(dl[i] == s[i]);
        lemma_entries_map_index(dl, i);
        assert(entry_key_of(s[i]) != entry_key_of(s[s.len() - 1]));
    }
}

/// Overwriting the one entry that carries a key is, at the mapping level,
/// inserting under that key.
pub proof fn lemma_entries_map_update(s: Seq<EntryModel>, i: int, e: EntryModel)
    requires
        entry_keys_unique(s),
        0 <= i < s.len(),
        entry_key_of(e) == entry_key_of(s[i]),
    ensures
        entries_as_map(s.update(i, e)) == entries_as_map(s).insert(entry_key_of(e), e),
        entry_keys_unique(s.update(i, e)),
    decreases s.len(),
{
    let u = s.update(i, e);
    assert(entry_keys_unique(u)) by {
        assert forall|a: int, b: int| 0 <= a < b < u.len() implies entry_key_of(#[trigger] u[a])
            != entry_key_of(#[trigger] u[b]) by {
            assert(entry_key_of(u[a]) == entry_key_of(s[a]));
            assert(entry_key_of(u[b]) == entry_key_of(s[b]));
        }
    }
    let dl = s.drop_last();
    if i == s.len() - 1 {
        assert(u.drop_last() =~= dl);
        assert(u.last() == e);
        assert(entries_as_map(u) == entries_as_map(dl).insert(entry_key_of(e), e));
        assert(entries_as_map(dl).insert(entry_key_of(s.last()), s.last()).insert(
            entry_key_of(e),
            e,
        ) =~= entries_as_map(dl).insert(entry_key_of(e), e));
    } else {
        assert(entry_keys_unique(dl)) by {
            assert forall|a: int, b: int| 0 <= a < b < dl.len() implies entry_key_of(
                #[trigger] dl[a],
            ) != entry_key_of(#[trigger] dl[b]) by {
                assert(dl[a] == s[a]);
                assert(dl[b] == s[b]);
            }
        }
        assert(dl[i] == s[i]);
        lemma_entries_map_update(dl, i, e);
        assert(u.drop_last() =~= dl.update(i, e));
        assert(u.last() == s.last());
        assert(entries_as_map(u) == entries_as_map(dl.update(i, e)).insert(
            entry_key_of(s.last()),
            s.last(),
        ));
        // The updated key differs from the last entry's key, so the two
        // inserts commute.
        assert(entry_key_of(e) != entry_key_of(s.last()));
        assert(entries_as_map(dl).insert(entry_key_of(e), e).insert(
            entry_key_of(s.last()),
            s.last(),
        ) =~= entries_as_map(dl).insert(entry_key_of(s.last()), s.last()).insert(
            entry_key_of(e),
            e,
        ));
    }
}

/// The in-memory table: entries and metadata records, each keyed by their
/// derived keys; records kept in the deterministic order.
pub struct MemTable {
    entries: Vec<Entry>,
    metas: Vec<EntryMeta>,
}

impl MemTable {
    /// An empty table.
    pub fn new() -> (r: MemTable)
        ensures
            r.wf(),
            r.entries() == Map::<Seq<char>, EntryModel>::empty(),
            r.metas() == Seq::<MetaModel>::empty(),
    {
        let r = MemTable { entries: Vec::new(), metas: Vec::new() };
        proof {
            assert(r.entries.deep_view() =~= Seq::<EntryModel>::empty());
            assert(r.metas.deep_view() =~= Seq::<MetaModel>::empty());
        }
        r
    }
}

impl HashTable for MemTable {
    closed spec fn entries(&self) -> Map<Seq<char>, EntryModel> {
        entries_as_map(self.entries.deep_view())
    }

    closed spec fn metas(&self) -> Seq<MetaModel> {
        self.metas.deep_view()
    }

    closed spec fn wf(&self) -> bool {
        entry_keys_unique(self.entries.deep_view()) && metas_sorted(self.metas.deep_view())
    }

    proof fn wf_implies_metas_sorted(&self) {
    }

    fn put_entry(&mut self, entry: &Entry) -> (r: Result<(), HolochainError>)
        ensures
            r is Ok,
    {
        let key = entry.key();
        let ghost dv = self.entries.deep_view();
        let n = self.entries.len();
        let mut i: usize = 0;
        while i < n
            invariant
                0 <= i <= n,
                n == self.entries.len(),
                *self == *old(self),
                dv == self.entries.deep_view(),
                old(self).wf(),
                key@ == entry_key_of(entry@),
                forall|j: int| 0 <= j < i ==> entry_key_of(#[trigger] dv[j]) != key@,
            decreases n - i,
        {
            let stored_key = self.entries[i].key();
            if str_eq(stored_key.as_str(), key.as_str()) {
                self.entries.set(i, entry.clone());
                proof {
                    assert(self.entries.deep_view() =~= dv.update(i as int, entry@));
                    lemma_entries_map_update(dv, i as int, entry@);
                }
                return Ok(());
            }
            i = i + 1;
        }
        self.entries.push(entry.clone());
        proof {
            assert(self.entries.deep_view() =~= dv.push(entry@));
            assert(dv.push(entry@).drop_last() =~= dv);
            assert(entries_as_map(dv.push(entry@)) == entries_as_map(dv).insert(
                entry_key_of(entry@),
                entry@,
            ));
            assert(entry_keys_unique(dv.push(entry@))) by {
                assert forall|a: int, b: int| 0 <= a < b < dv.push(entry@).len()
                    implies entry_key_of(#[trigger] dv.push(entry@)[a]) != entry_key_of(
                    #[trigger] dv.push(entry@)[b],
                ) by {
                    assert(dv.push(entry@)[a] == dv[a]);
                    if b < dv.len() {
                        assert(dv.push(entry@)[b] == dv[b]);
                    } else {
                        assert(dv.push(entry@)[b] == entry@);
                    }
                }
            }
        }
        Ok(())
    }

    fn get_entry(&self, key: &str) -> (r: Result<Option<Entry>, HolochainError>)
        ensures
            r is Ok,
    {
        let ghost dv = self.entries.deep_view();
        let n = self.entries.len();
        let mut i: usize = 0;
        while i < n
            invariant
                0 <= i <= n,
                n == self.entries.len(),
                dv == self.entries.deep_view(),
                self.wf(),
                forall|j: int| 0 <= j < i ==> entry_key_of(#[trigger] dv[j]) != key@,
            decreases n - i,
        {
            let stored_key = self.entries[i].key();
            if str_eq(stored_key.as_str(), key) {
                let found = self.entries[i].clone();
                proof {
                    lemma_entries_map_index(dv, i as int);
                }
                return Ok(Some(found));
            }
            i = i + 1;
        }
        proof {
            lemma_entries_map_contains(dv, key@);
        }
        Ok(None)
    }

    fn assert_entry_meta(&mut self, meta: &EntryMeta) -> (r: Result<(), HolochainError>)
        ensures
            r is Ok,
    {
        let mkey = meta.key();
        let ghost mdv = self.metas.deep_view();
        let n = self.metas.len();
        let mut i: usize = 0;
        while i < n
            invariant
                0 <= i <= n,
                n == self.metas.len(),
                *self == *old(self),
                mdv == self.metas.deep_view(),
                old(self).wf(),
                mkey@ == meta_key_of(meta@),
                forall|j: int| 0 <= j < i ==> lex_lt(meta_key_of(#[trigger] mdv[j]), meta_key_of(meta@)),
            decreases n - i,
        {
            let stored_key = self.metas[i].key();
            if str_eq(stored_key.as_str(), mkey.as_str()) {
                self.metas.set(i, meta.clone());
                proof {
                    assert(self.metas.deep_view() =~= mdv.update(i as int, meta@));
                    lemma_meta_insert_at(mdv, meta@, i as int);
                    lemma_meta_insert_sorted(mdv, meta@);
                }
                return Ok(());
            }
            if str_lex_lt(mkey.as_str(), stored_key.as_str()) {
                self.metas.insert(i, meta.clone());
                proof {
                    assert(self.metas.deep_view() =~= mdv.insert(i as int, meta@));
                    lemma_meta_insert_at(mdv, meta@, i as int);
                    lemma_meta_insert_sorted(mdv, meta@);
                }
                return Ok(());
            }
            proof {
                crate::order::lemma_lex_lt_trichotomy(meta_key_of(meta@), meta_key_of(mdv[i as int]));
            }
            i = i + 1;
        }
        self.metas.push(meta.clone());
        proof {
            assert(self.metas.deep_view() =~= mdv.push(meta@));
            lemma_meta_insert_at(mdv, meta@, n as int);
            lemma_meta_insert_sorted(mdv, meta@);
        }
        Ok(())
    }

    fn entry_meta(&mut self, key: &str) -> (r: Result<Option<EntryMeta>, HolochainError>)
        ensures
            r is Ok,
    {
        let ghost mdv = self.metas.deep_view();
        let n = self.metas.len();
        let mut i: usize = 0;
        while i < n
            invariant
                0 <= i <= n,
                n == self.metas.len(),
                *self == *old(self),
                mdv == self.metas.deep_view(),
                forall|j: int| 0 <= j < i ==> meta_key_of(#[trigger] mdv[j]) != key@,
            decreases n - i,
        {
            let stored_key = self.metas[i].key();
            if str_eq(stored_key.as_str(), key) {
                let found = self.metas[i].clone();
                proof {
                    assert(mdv[i as int] == found@);
                    assert(mdv.contains(found@));
                }
                return Ok(Some(found));
            }
            i = i + 1;
        }
        Ok(None)
    }

    fn metas_for_entry(&mut self, entry: &Entry) -> (r: Result<Vec<EntryMeta>, HolochainError>)
        ensures
            r is Ok,
    {
        let ekey = entry.key();
        let ghost mdv = self.metas.deep_view();
        let mut out: Vec<EntryMeta> = Vec::new();
        let n = self.metas.len();
        let mut i: usize = 0;
        proof {
            assert(mdv.subrange(0, 0) =~= Seq::<MetaModel>::empty());
            assert(out.deep_view() =~= metas_for(mdv.subrange(0, 0), entry_key_of(entry@))) by {
                reveal(Seq::filter);
            }
        }
        while i < n
            invariant
                0 <= i <= n,
                n == self.metas.len(),
                *self == *old(self),
                mdv == self.metas.deep_view(),
                ekey@ == entry_key_of(entry@),
                out.deep_view() == metas_for(mdv.subrange(0, i as int), entry_key_of(entry@)),
            decreases n - i,
        {
            let ghost out_pre = out.deep_view();
            if str_eq(self.metas[i].entry_hash(), ekey.as_str()) {
                let found = self.metas[i].clone();
                out.push(found);
                proof {
                    assert(out.deep_view() =~= out_pre.push(mdv[i as int]));
                }
            }
            proof {
                lemma_metas_for_take_step(mdv, entry_key_of(entry@), i as int);
            }
            i = i + 1;
        }
        proof {
            assert(mdv.subrange(0, n as int) =~= mdv);
        }
        Ok(out)
    }
}

} // verus!
