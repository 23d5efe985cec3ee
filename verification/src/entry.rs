//! The content-addressed entry: an immutable unit of stored data whose key
//! is derived from what it holds, never assigned.

use vstd::prelude::*;

use crate::key::{frame, frame_str, lemma_frame_injective, lemma_frame_prefix_injective};

verus! {

/// What an entry spells: the mathematical content of its two fields.
pub ghost struct EntryModel {
    pub entry_type: Seq<char>,
    pub content: Seq<char>,
}

/// An immutable, content-addressed unit of data. Two entries with identical
/// content have identical keys (structural, not nominal, identity); entries
/// are never mutated or physically removed once stored.
#[derive(Debug, PartialEq, Eq)]
pub struct Entry {
    pub entry_type: String,
    pub content: String,
}

impl View for Entry {
    type V = EntryModel;

    open spec fn view(&self) -> EntryModel {
        EntryModel { entry_type: self.entry_type@, content: self.content@ }
    }
}

impl DeepView for Entry {
    type V = EntryModel;

    open spec fn deep_view(&self) -> EntryModel {
        self.view()
    }
}

/// The derived key of an entry: both fields, framed.
pub open spec fn entry_key_of(e: EntryModel) -> Seq<char> {
    frame(e.entry_type) + frame(e.content)
}

/// Content addressing is exact: entries with equal keys hold equal content.
pub proof fn lemma_entry_key_injective(e1: EntryModel, e2: EntryModel)
    requires
        entry_key_of(e1) == entry_key_of(e2),
    ensures
        e1 == e2,
{
    lemma_frame_prefix_injective(e1.entry_type, frame(e1.content), e2.entry_type, frame(e2.content));
    lemma_frame_injective(e1.content, e2.content);
}

impl Entry {
    /// Builds an entry from its classification and content.
    pub fn new(entry_type: &str, content: &str) -> (r: Entry)
        ensures
            r@ == (EntryModel { entry_type: entry_type@, content: content@ }),
    {
        Entry { entry_type: entry_type.to_owned(), content: content.to_owned() }
    }

    /// The entry's classification.
    pub fn entry_type(&self) -> (r: &str)
        ensures
            r@ == self@.entry_type,
    {
        self.entry_type.as_str()
    }

    /// The entry's content.
    pub fn content(&self) -> (r: &str)
        ensures
            r@ == self@.content,
    {
        self.content.as_str()
    }

    /// The entry's key: a deterministic function of its serialized content,
    /// so storing the same content twice addresses the same slot.
    pub fn key(&self) -> (r: String)
        ensures
            r@ == entry_key_of(self@),
    {
        let mut s = frame_str(self.entry_type.as_str());
        let c = frame_str(self.content.as_str());
        s.append(c.as_str());
        s
    }
}

impl Clone for Entry {
    fn clone(&self) -> (r: Entry)
        ensures
            r == *self,
    {
        Entry { entry_type: self.entry_type.clone(), content: self.content.clone() }
    }
}

} // verus!
