//! Metadata assertions: attributed records that overlay status and links on
//! stored entries without ever touching the entries themselves.
//!
//! Records are keyed deterministically by all their fields, so re-asserting
//! an identical record is idempotent, while distinct records for the same
//! entry accumulate. The backend keeps records in the strict key order of
//! `crate::order`, so every reader sees the same deterministic sequence.

use vstd::prelude::*;

use crate::entry::{entry_key_of, Entry};
use crate::key::{frame, frame_str, lemma_frame_injective, lemma_frame_prefix_injective};
use crate::keys::Keys;
use crate::order::{lemma_lex_lt_trichotomy, lex_lt};

verus! {

/// What a metadata record spells.
pub ghost struct MetaModel {
    pub entry_hash: Seq<char>,
    pub attribute: Seq<char>,
    pub value: Seq<char>,
    pub source: Seq<char>,
}

/// A metadata assertion attached to an entry: which entry, which attribute,
/// what value, and which signing identity asserted it.
#[derive(Debug, PartialEq, Eq)]
pub struct EntryMeta {
    pub entry_hash: String,
    pub attribute: String,
    pub value: String,
    pub source: String,
}

impl View for EntryMeta {
    type V = MetaModel;

    open spec fn view(&self) -> MetaModel {
        MetaModel {
            entry_hash: self.entry_hash@,
            attribute: self.attribute@,
            value: self.value@,
            source: self.source@,
        }
    }
}

impl DeepView for EntryMeta {
    type V = MetaModel;

    open spec fn deep_view(&self) -> MetaModel {
        self.view()
    }
}

/// The derived key of a metadata record: all four fields, framed.
pub open spec fn meta_key_of(m: MetaModel) -> Seq<char> {
    frame(m.entry_hash) + frame(m.attribute) + frame(m.value) + frame(m.source)
}

/// Record keys are exact: records with equal keys are equal records.
pub proof fn lemma_meta_key_injective(m1: MetaModel, m2: MetaModel)
    requires
        meta_key_of(m1) == meta_key_of(m2),
    ensures
        m1 == m2,
{
    let rest1 = frame(m1.attribute) + frame(m1.value) + frame(m1.source);
    let rest2 = frame(m2.attribute) + frame(m2.value) + frame(m2.source);
    assert(frame(m1.entry_hash) + rest1 =~= meta_key_of(m1));
    assert(frame(m2.entry_hash) + rest2 =~= meta_key_of(m2));
    lemma_frame_prefix_injective(m1.entry_hash, rest1, m2.entry_hash, rest2);
    let tail1 = frame(m1.value) + frame(m1.source);
    let tail2 = frame(m2.value) + frame(m2.source);
    assert(frame(m1.attribute) + tail1 =~= rest1);
    assert(frame(m2.attribute) + tail2 =~= rest2);
    lemma_frame_prefix_injective(m1.attribute, tail1, m2.attribute, tail2);
    lemma_frame_prefix_injective(m1.value, frame(m1.source), m2.value, frame(m2.source));
    lemma_frame_injective(m1.source, m2.source);
}

impl EntryMeta {
    /// A metadata assertion on `entry`, made under the identity in `keys`.
    pub fn new(keys: &Keys, entry: &Entry, attribute: &str, value: &str) -> (r: EntryMeta)
        ensures
            r@ == (MetaModel {
                entry_hash: entry_key_of(entry@),
                attribute: attribute@,
                value: value@,
                source: keys@.node_id,
            }),
    {
        EntryMeta {
            entry_hash: entry.key(),
            attribute: attribute.to_owned(),
            value: value.to_owned(),
            source: keys.node_id().to_owned(),
        }
    }

    /// The key of the entry this record is about.
    pub fn entry_hash(&self) -> (r: &str)
        ensures
            r@ == self@.entry_hash,
    {
        self.entry_hash.as_str()
    }

    /// The attribute this record asserts.
    pub fn attribute(&self) -> (r: &str)
        ensures
            r@ == self@.attribute,
    {
        self.attribute.as_str()
    }

    /// The asserted value.
    pub fn value(&self) -> (r: &str)
        ensures
            r@ == self@.value,
    {
        self.value.as_str()
    }

    /// The node id of the identity that asserted this record.
    pub fn source(&self) -> (r: &str)
        ensures
            r@ == self@.source,
    {
        self.source.as_str()
    }

    /// The record's own derived key.
    pub fn key(&self) -> (r: String)
        ensures
            r@ == meta_key_of(self@),
    {
        let mut s = frame_str(self.entry_hash.as_str());
        let a = frame_str(self.attribute.as_str());
        let v = frame_str(self.value.as_str());
        let src = frame_str(self.source.as_str());
        s.append(a.as_str());
        s.append(v.as_str());
        s.append(src.as_str());
        proof {
            assert(s@ =~= meta_key_of(self@));
        }
        s
    }
}

impl Clone for EntryMeta {
    fn clone(&self) -> (r: EntryMeta)
        ensures
            r == *self,
    {
        EntryMeta {
            entry_hash: self.entry_hash.clone(),
            attribute: self.attribute.clone(),
            value: self.value.clone(),
            source: self.source.clone(),
        }
    }
}

/// The records are in strictly ascending key order: the deterministic total
/// order every backend must impose, and (keys being injective) free of
/// duplicates.
pub open spec fn metas_sorted(s: Seq<MetaModel>) -> bool {
    forall|i: int, j: int|
        0 <= i < j < s.len() ==> lex_lt(meta_key_of(s[i]), meta_key_of(s[j]))
}

/// Merging one record into an ordered record sequence: an identical key is
/// replaced in place (assertion is idempotent), anything else lands at its
/// ordered position.
pub open spec fn meta_insert(s: Seq<MetaModel>, m: MetaModel) -> Seq<MetaModel>
    decreases s.len(),
{
    if s.len() == 0 {
        seq![m]
    } else if meta_key_of(m) == meta_key_of(s[0]) {
        s.update(0, m)
    } else if lex_lt(meta_key_of(m), meta_key_of(s[0])) {
        seq![m] + s
    } else {
        seq![s[0]] + meta_insert(s.skip(1), m)
    }
}

/// All records asserted about one entry, in stored order.
pub open spec fn metas_for(s: Seq<MetaModel>, entry_key: Seq<char>) -> Seq<MetaModel> {
    s.filter(|m: MetaModel| m.entry_hash == entry_key)
}


/// What `meta_insert` holds afterwards: the new record, and every old
/// record whose key it did not replace — nothing else — still in order.
pub proof fn lemma_meta_insert_sorted(s: Seq<MetaModel>, m: MetaModel)
    requires
        metas_sorted(s),
    ensures
        metas_sorted(meta_insert(s, m)),
        meta_insert(s, m).contains(m),
        forall|x: MetaModel|
            #[trigger] meta_insert(s, m).contains(x) ==> x == m || (s.contains(x) && meta_key_of(x)
                != meta_key_of(m)),
        forall|x: MetaModel|
            #[trigger] s.contains(x) ==> meta_key_of(x) == meta_key_of(m) || meta_insert(
                s,
                m,
            ).contains(x),
    decreases s.len(),
{
    let out = meta_insert(s, m);
    if s.len() == 0 {
        assert(out =~= seq![m]);
        assert(out[0] == m);
        assert forall|x: MetaModel| #[trigger] out.contains(x) implies x == m || (s.contains(x)
            && meta_key_of(x) != meta_key_of(m)) by {
            let i = choose|i: int| 0 <= i < out.len() && out[i] == x;
            assert(x == m);
        }
    } else if meta_key_of(m) == meta_key_of(s[0]) {
        assert(out == s.update(0, m));
        assert(out[0] == m);
        assert(out.contains(m));
        assert forall|i: int, j: int| 0 <= i < j < out.len() implies lex_lt(
            meta_key_of(out[i]),
            meta_key_of(out[j]),
        ) by {
            assert(lex_lt(meta_key_of(s[i]), meta_key_of(s[j])));
            if i == 0 {
                assert(out[i] == m);
            } else {
                assert(out[i] == s[i]);
            }
            assert(out[j] == s[j]);
        }
        assert forall|x: MetaModel| #[trigger] out.contains(x) implies x == m || (s.contains(x)
            && meta_key_of(x) != meta_key_of(m)) by {
            let i = choose|i: int| 0 <= i < out.len() && out[i] == x;
            if i > 0 {
                assert(x == s[i]);
                assert(s.contains(x));
                assert(lex_lt(meta_key_of(s[0]), meta_key_of(s[i])));
                lemma_lex_lt_trichotomy(meta_key_of(s[0]), meta_key_of(s[i]));
            }
        }
        assert forall|x: MetaModel| #[trigger] s.contains(x) implies meta_key_of(x) == meta_key_of(
            m,
        ) || out.contains(x) by {
            let i = choose|i: int| 0 <= i < s.len() && s[i] == x;
            if i > 0 {
                assert(out[i] == x);
                assert(out.contains(x));
            }
        }
    } else if lex_lt(meta_key_of(m), meta_key_of(s[0])) {
        assert(out == seq![m] + s);
        assert(out[0] == m);
        assert(out.contains(m));
        // m's key is below every stored key.
        assert forall|j: int| 0 <= j < s.len() implies lex_lt(
            meta_key_of(m),
            meta_key_of(s[j]),
        ) by {
            if j > 0 {
                assert(lex_lt(meta_key_of(s[0]), meta_key_of(s[j])));
                crate::order::lemma_lex_lt_transitive(
                    meta_key_of(m),
                    meta_key_of(s[0]),
                    meta_key_of(s[j]),
                );
            }
        }
        assert forall|i: int, j: int| 0 <= i < j < out.len() implies lex_lt(
            meta_key_of(out[i]),
            meta_key_of(out[j]),
        ) by {
            assert(out[j] == s[j - 1]);
            if i > 0 {
                assert(out[i] == s[i - 1]);
            }
        }
        assert forall|x: MetaModel| #[trigger] out.contains(x) implies x == m || (s.contains(x)
            && meta_key_of(x) != meta_key_of(m)) by {
            let i = choose|i: int| 0 <= i < out.len() && out[i] == x;
            if i > 0 {
                assert(x == s[i - 1]);
                assert(s.contains(x));
                assert(lex_lt(meta_key_of(m), meta_key_of(s[i - 1])));
                lemma_lex_lt_trichotomy(meta_key_of(m), meta_key_of(x));
            }
        }
        assert forall|x: MetaModel| #[trigger] s.contains(x) implies meta_key_of(x) == meta_key_of(
            m,
        ) || out.contains(x) by {
            let i = choose|i: int| 0 <= i < s.len() && s[i] == x;
            assert(out[i + 1] == x);
            assert(out.contains(x));
        }
    } else {
        let tail = s.skip(1);
        lemma_lex_lt_trichotomy(meta_key_of(m), meta_key_of(s[0]));
        assert(lex_lt(meta_key_of(s[0]), meta_key_of(m)));
        assert(metas_sorted(tail)) by {
            assert forall|i: int, j: int| 0 <= i < j < tail.len() implies lex_lt(
                meta_key_of(tail[i]),
                meta_key_of(tail[j]),
            ) by {
                assert(tail[i] == s[i + 1]);
                assert(tail[j] == s[j + 1]);
            }
        }
        lemma_meta_insert_sorted(tail, m);
        let rec = meta_insert(tail, m);
        assert(out == seq![s[0]] + rec);
        // s[0]'s key is below m's and below every tail key, hence below
        // every key in the recursive result.
        assert forall|x: MetaModel| #[trigger] rec.contains(x) implies lex_lt(
            meta_key_of(s[0]),
            meta_key_of(x),
        ) by {
            if x == m {
            } else {
                assert(tail.contains(x));
                let i = choose|i: int| 0 <= i < tail.len() && tail[i] == x;
                assert(tail[i] == s[i + 1]);
                assert(lex_lt(meta_key_of(s[0]), meta_key_of(s[i + 1])));
            }
        }
        assert forall|i: int, j: int| 0 <= i < j < out.len() implies lex_lt(
            meta_key_of(out[i]),
            meta_key_of(out[j]),
        ) by {
            assert(out[j] == rec[j - 1]);
            assert(rec.contains(rec[j - 1]));
            if i > 0 {
                assert(out[i] == rec[i - 1]);
                assert(rec.contains(rec[i - 1]));
            }
        }
        assert(rec.contains(m));
        assert forall|x: MetaModel| #[trigger] rec.contains(x) implies out.contains(x) by {
            let i = choose|i: int| 0 <= i < rec.len() && rec[i] == x;
            assert(out[i + 1] == x);
        }
        assert(out.contains(m));
        assert forall|x: MetaModel| #[trigger] out.contains(x) implies x == m || (s.contains(x)
            && meta_key_of(x) != meta_key_of(m)) by {
            let i = choose|i: int| 0 <= i < out.len() && out[i] == x;
            if i == 0 {
                assert(x == s[0]);
                assert(s.contains(x));
                assert(lex_lt(meta_key_of(x), meta_key_of(m)));
            } else {
                assert(rec[i - 1] == x);
                assert(rec.contains(x));
                if x != m {
                    assert(tail.contains(x));
                    let j = choose|j: int| 0 <= j < tail.len() && tail[j] == x;
                    assert(s[j + 1] == x);
                    assert(s.contains(x));
                }
            }
        }
        assert forall|x: MetaModel| #[trigger] s.contains(x) implies meta_key_of(x) == meta_key_of(
            m,
        ) || out.contains(x) by {
            let i = choose|i: int| 0 <= i < s.len() && s[i] == x;
            if i == 0 {
                assert(out[0] == x);
                assert(out.contains(x));
            } else {
                assert(tail[i - 1] == x);
                assert(tail.contains(x));
                if meta_key_of(x) != meta_key_of(m) {
                    assert(rec.contains(x));
                }
            }
        }
    }
}

/// Re-asserting an identical record changes nothing: assertion is
/// idempotent.
pub proof fn lemma_meta_insert_idempotent(s: Seq<MetaModel>, m: MetaModel)
    ensures
        meta_insert(meta_insert(s, m), m) == meta_insert(s, m),
    decreases s.len(),
{
    let once = meta_insert(s, m);
    if s.len() == 0 {
        assert(once =~= seq![m]);
        assert(once[0] == m);
        assert(meta_insert(once, m) =~= once.update(0, m));
        assert(once.update(0, m) =~= once);
    } else if meta_key_of(m) == meta_key_of(s[0]) {
        assert(once == s.update(0, m));
        assert(once[0] == m);
        assert(meta_insert(once, m) =~= once.update(0, m));
        assert(once.update(0, m) =~= once);
    } else if lex_lt(meta_key_of(m), meta_key_of(s[0])) {
        assert(once == seq![m] + s);
        assert(once[0] == m);
        assert(meta_insert(once, m) =~= once.update(0, m));
        assert(once.update(0, m) =~= once);
    } else {
        let tail = s.skip(1);
        lemma_meta_insert_idempotent(tail, m);
        assert(once == seq![s[0]] + meta_insert(tail, m));
        assert(once[0] == s[0]);
        assert(once.len() > 0);
        assert(once.skip(1) =~= meta_insert(tail, m));
        assert(meta_insert(once, m) == seq![once[0]] + meta_insert(once.skip(1), m));
        assert(meta_insert(once, m) =~= once);
    }
}

/// Strictly ordered sequences are canonical: two of them holding the same
/// records are the same sequence.
pub proof fn lemma_sorted_metas_unique(s1: Seq<MetaModel>, s2: Seq<MetaModel>)
    requires
        metas_sorted(s1),
        metas_sorted(s2),
        forall|x: MetaModel| #[trigger] s1.contains(x) ==> s2.contains(x),
        forall|x: MetaModel| #[trigger] s2.contains(x) ==> s1.contains(x),
    ensures
        s1 == s2,
    decreases s1.len(),
{
    if s1.len() == 0 {
        if s2.len() > 0 {
            assert(s2.contains(s2[0]));
            assert(s1.contains(s2[0]));
            assert(false);
        }
        assert(s1 =~= s2);
    } else {
        assert(s1.contains(s1[0]));
        assert(s2.contains(s1[0]));
        assert(s2.len() > 0);
        assert(s2.contains(s2[0]));
        assert(s1.contains(s2[0]));
        // The heads are equal: each head is its sequence's unique minimum.
        let i = choose|i: int| 0 <= i < s2.len() && s2[i] == s1[0];
        let j = choose|j: int| 0 <= j < s1.len() && s1[j] == s2[0];
        if i > 0 && j > 0 {
            assert(lex_lt(meta_key_of(s2[0]), meta_key_of(s2[i])));
            assert(lex_lt(meta_key_of(s1[0]), meta_key_of(s1[j])));
            crate::order::lemma_lex_lt_transitive(
                meta_key_of(s1[0]),
                meta_key_of(s2[0]),
                meta_key_of(s1[0]),
            );
            lemma_lex_lt_trichotomy(meta_key_of(s1[0]), meta_key_of(s1[0]));
            assert(false);
        }
        assert(s1[0] == s2[0]);
        let t1 = s1.skip(1);
        let t2 = s2.skip(1);
        assert(metas_sorted(t1)) by {
            assert forall|a: int, b: int| 0 <= a < b < t1.len() implies lex_lt(
                meta_key_of(t1[a]),
                meta_key_of(t1[b]),
            ) by {
                assert(t1[a] == s1[a + 1]);
                assert(t1[b] == s1[b + 1]);
            }
        }
        assert(metas_sorted(t2)) by {
            assert forall|a: int, b: int| 0 <= a < b < t2.len() implies lex_lt(
                meta_key_of(t2[a]),
                meta_key_of(t2[b]),
            ) by {
                assert(t2[a] == s2[a + 1]);
                assert(t2[b] == s2[b + 1]);
            }
        }
        assert forall|x: MetaModel| #[trigger] t1.contains(x) implies t2.contains(x) by {
            let a = choose|a: int| 0 <= a < t1.len() && t1[a] == x;
            assert(s1[a + 1] == x);
            assert(s1.contains(x));
            assert(s2.contains(x));
            let b = choose|b: int| 0 <= b < s2.len() && s2[b] == x;
            if b == 0 {
                // x would equal both heads yet sit strictly above s1's head.
                assert(lex_lt(meta_key_of(s1[0]), meta_key_of(s1[a + 1])));
                lemma_lex_lt_trichotomy(meta_key_of(s1[0]), meta_key_of(x));
                assert(false);
            }
            assert(t2[b - 1] == x);
            assert(t2.contains(x));
        }
        assert forall|x: MetaModel| #[trigger] t2.contains(x) implies t1.contains(x) by {
            let a = choose|a: int| 0 <= a < t2.len() && t2[a] == x;
            assert(s2[a + 1] == x);
            assert(s2.contains(x));
            assert(s1.contains(x));
            let b = choose|b: int| 0 <= b < s1.len() && s1[b] == x;
            if b == 0 {
                assert(lex_lt(meta_key_of(s2[0]), meta_key_of(s2[a + 1])));
                lemma_lex_lt_trichotomy(meta_key_of(s2[0]), meta_key_of(x));
                assert(false);
            }
            assert(t1[b - 1] == x);
            assert(t1.contains(x));
        }
        lemma_sorted_metas_unique(t1, t2);
        assert(t1.len() == t2.len());
        assert(s1.len() == s2.len());
        assert forall|k: int| 0 <= k < s1.len() implies s1[k] == s2[k] by {
            if k > 0 {
                assert(t1[k - 1] == s1[k]);
                assert(t2[k - 1] == s2[k]);
            }
        }
        assert(s1 =~= s2);
    }
}

/// Assertion order does not matter: merging two records in either order
/// leaves the same record sequence. (Two distinct records never share a
/// key, record keys being injective.)
pub proof fn lemma_meta_insert_commutes(s: Seq<MetaModel>, m1: MetaModel, m2: MetaModel)
    requires
        metas_sorted(s),
    ensures
        meta_insert(meta_insert(s, m1), m2) == meta_insert(meta_insert(s, m2), m1),
{
    if m1 == m2 {
        lemma_meta_insert_idempotent(s, m1);
    } else {
        if meta_key_of(m1) == meta_key_of(m2) {
            lemma_meta_key_injective(m1, m2);
            assert(false);
        }
        lemma_meta_insert_sorted(s, m1);
        lemma_meta_insert_sorted(meta_insert(s, m1), m2);
        lemma_meta_insert_sorted(s, m2);
        lemma_meta_insert_sorted(meta_insert(s, m2), m1);
        let left = meta_insert(meta_insert(s, m1), m2);
        let right = meta_insert(meta_insert(s, m2), m1);
        assert forall|x: MetaModel| #[trigger] left.contains(x) implies right.contains(x) by {
            if x == m2 {
                assert(meta_insert(s, m2).contains(m2));
                assert(right.contains(x));
            } else if x == m1 {
                assert(right.contains(m1));
            } else {
                assert(meta_insert(s, m1).contains(x));
                assert(s.contains(x));
                assert(meta_key_of(x) != meta_key_of(m1));
                assert(meta_key_of(x) != meta_key_of(m2));
                assert(meta_insert(s, m2).contains(x));
                assert(right.contains(x));
            }
        }
        assert forall|x: MetaModel| #[trigger] right.contains(x) implies left.contains(x) by {
            if x == m1 {
                assert(meta_insert(s, m1).contains(m1));
                assert(left.contains(x));
            } else if x == m2 {
                assert(left.contains(m2));
            } else {
                assert(meta_insert(s, m2).contains(x));
                assert(s.contains(x));
                assert(meta_key_of(x) != meta_key_of(m2));
                assert(meta_key_of(x) != meta_key_of(m1));
                assert(meta_insert(s, m1).contains(x));
                assert(left.contains(x));
            }
        }
        lemma_sorted_metas_unique(left, right);
    }
}

/// A record about `entry_key` that the table holds shows up in the
/// records-for-that-entry query.
pub proof fn lemma_metas_for_member(s: Seq<MetaModel>, entry_key: Seq<char>, m: MetaModel)
    requires
        s.contains(m),
        m.entry_hash == entry_key,
    ensures
        metas_for(s, entry_key).contains(m),
{
    let i = choose|i: int| 0 <= i < s.len() && s[i] == m;
    s.lemma_filter_contains(|x: MetaModel| x.entry_hash == entry_key, i);
}

/// Distinct records for one entry under different attributes accumulate:
/// after asserting both, the records-for-that-entry query returns both.
pub proof fn lemma_meta_accumulation(s: Seq<MetaModel>, m1: MetaModel, m2: MetaModel)
    requires
        metas_sorted(s),
        m1.entry_hash == m2.entry_hash,
        m1.attribute != m2.attribute,
    ensures
        metas_for(meta_insert(meta_insert(s, m1), m2), m1.entry_hash).contains(m1),
        metas_for(meta_insert(meta_insert(s, m1), m2), m1.entry_hash).contains(m2),
{
    if meta_key_of(m1) == meta_key_of(m2) {
        lemma_meta_key_injective(m1, m2);
        assert(false);
    }
    lemma_meta_insert_sorted(s, m1);
    lemma_meta_insert_sorted(meta_insert(s, m1), m2);
    let t = meta_insert(meta_insert(s, m1), m2);
    assert(t.contains(m2));
    assert(meta_insert(s, m1).contains(m1));
    assert(t.contains(m1));
    lemma_metas_for_member(t, m1.entry_hash, m1);
    lemma_metas_for_member(t, m1.entry_hash, m2);
}


/// Where the merge lands: if every record before position `i` sits strictly
/// below `m`, the merge is the in-place replace, the insertion, or the push
/// that position `i` calls for.
pub proof fn lemma_meta_insert_at(s: Seq<MetaModel>, m: MetaModel, i: int)
    requires
        0 <= i <= s.len(),
        forall|j: int| 0 <= j < i ==> lex_lt(meta_key_of(#[trigger] s[j]), meta_key_of(m)),
    ensures
        i < s.len() && meta_key_of(s[i]) == meta_key_of(m) ==> meta_insert(s, m) == s.update(i, m),
        i < s.len() && lex_lt(meta_key_of(m), meta_key_of(s[i])) ==> meta_insert(s, m) == s.insert(
            i,
            m,
        ),
        i == s.len() ==> meta_insert(s, m) == s.push(m),
    decreases i,
{
    if i == 0 {
        if s.len() == 0 {
            assert(meta_insert(s, m) =~= s.push(m));
        } else {
            if meta_key_of(s[0]) == meta_key_of(m) {
                lemma_lex_lt_trichotomy(meta_key_of(m), meta_key_of(s[0]));
                assert(meta_insert(s, m) == s.update(0, m));
            } else if lex_lt(meta_key_of(m), meta_key_of(s[0])) {
                assert(meta_insert(s, m) == seq![m] + s);
                assert(seq![m] + s =~= s.insert(0, m));
            }
        }
    } else {
        lemma_lex_lt_trichotomy(meta_key_of(m), meta_key_of(s[0]));
        assert(lex_lt(meta_key_of(s[0]), meta_key_of(m)));
        assert(meta_key_of(m) != meta_key_of(s[0]));
        assert(!lex_lt(meta_key_of(m), meta_key_of(s[0])));
        let tail = s.skip(1);
        assert forall|j: int| 0 <= j < i - 1 implies lex_lt(
            meta_key_of(#[trigger] tail[j]),
            meta_key_of(m),
        ) by {
            assert(tail[j] == s[j + 1]);
        }
        lemma_meta_insert_at(tail, m, i - 1);
        assert(meta_insert(s, m) == seq![s[0]] + meta_insert(tail, m));
        if i < s.len() && meta_key_of(s[i]) == meta_key_of(m) {
            lemma_lex_lt_trichotomy(meta_key_of(m), meta_key_of(s[i]));
            assert(tail[i - 1] == s[i]);
            assert(meta_insert(tail, m) == tail.update(i - 1, m));
            assert(seq![s[0]] + tail.update(i - 1, m) =~= s.update(i, m));
        } else if i < s.len() && lex_lt(meta_key_of(m), meta_key_of(s[i])) {
            assert(tail[i - 1] == s[i]);
            assert(meta_insert(tail, m) == tail.insert(i - 1, m));
            assert(seq![s[0]] + tail.insert(i - 1, m) =~= s.insert(i, m));
        } else if i == s.len() {
            assert(meta_insert(tail, m) == tail.push(m));
            assert(seq![s[0]] + tail.push(m) =~= s.push(m));
        }
    }
}

/// One step of walking the records while collecting those about one entry.
pub proof fn lemma_metas_for_take_step(s: Seq<MetaModel>, entry_key: Seq<char>, i: int)
    requires
        0 <= i < s.len(),
    ensures
        s[i].entry_hash == entry_key ==> metas_for(s.subrange(0, i + 1), entry_key) == metas_for(
            s.subrange(0, i),
            entry_key,
        ).push(s[i]),
        s[i].entry_hash != entry_key ==> metas_for(s.subrange(0, i + 1), entry_key) == metas_for(
            s.subrange(0, i),
            entry_key,
        ),
{
    reveal(Seq::filter);
    let pre = s.subrange(0, i + 1);
    assert(pre.drop_last() =~= s.subrange(0, i));
    assert(pre.last() == s[i]);
    assert(pre.len() == i + 1 > 0);
}


/// The records-for-entry query is deterministic: what it returns depends
/// only on which records were asserted, never on the order they arrived in.
pub proof fn lemma_metas_for_order_independent(
    s: Seq<MetaModel>,
    m1: MetaModel,
    m2: MetaModel,
    entry_key: Seq<char>,
)
    requires
        metas_sorted(s),
    ensures
        metas_for(meta_insert(meta_insert(s, m1), m2), entry_key) == metas_for(
            meta_insert(meta_insert(s, m2), m1),
            entry_key,
        ),
{
    lemma_meta_insert_commutes(s, m1, m2);
}

} // verus!
