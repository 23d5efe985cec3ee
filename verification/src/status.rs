//! Lifecycle status flags, recorded as metadata and never by mutating an
//! entry. Status history is reconstructed by reading all status records for
//! an entry in order, not by transitioning anything in place.

use vstd::prelude::*;

use crate::order::str_eq;

verus! {

/// Attribute name under which an entry's lifecycle status is asserted.
pub const STATUS_NAME: &'static str = "crud-status";

/// Attribute name under which a modified entry points at its successor.
pub const LINK_NAME: &'static str = "crud-link";

/// The lifecycle stance of an entry. Each status owns one bit of a flag
/// set; `Rejected` and `Locked` are reserved for future lifecycle states.
#[derive(Clone, Copy, Debug, PartialEq, Eq, Structural)]
pub enum CrudStatus {
    Live,
    Rejected,
    Deleted,
    Modified,
    Locked,
}

impl CrudStatus {
    /// The bit this status owns inside the flag set.
    pub open spec fn bits_spec(self) -> u8 {
        match self {
            CrudStatus::Live => 1u8,
            CrudStatus::Rejected => 2u8,
            CrudStatus::Deleted => 4u8,
            CrudStatus::Modified => 8u8,
            CrudStatus::Locked => 16u8,
        }
    }

    /// The bit this status owns inside the flag set.
    pub fn bits(self) -> (r: u8)
        ensures
            r == self.bits_spec(),
    {
        match self {
            CrudStatus::Live => 1,
            CrudStatus::Rejected => 2,
            CrudStatus::Deleted => 4,
            CrudStatus::Modified => 8,
            CrudStatus::Locked => 16,
        }
    }

    /// What a status metadata record's value spells for this status: the
    /// status bit, written in decimal.
    pub open spec fn value_spec(self) -> Seq<char> {
        match self {
            CrudStatus::Live => "1"@,
            CrudStatus::Rejected => "2"@,
            CrudStatus::Deleted => "4"@,
            CrudStatus::Modified => "8"@,
            CrudStatus::Locked => "16"@,
        }
    }

    /// Encodes the status for storage in a status metadata record.
    pub fn as_meta_value(self) -> (r: String)
        ensures
            r@ == self.value_spec(),
    {
        match self {
            CrudStatus::Live => "1".to_owned(),
            CrudStatus::Rejected => "2".to_owned(),
            CrudStatus::Deleted => "4".to_owned(),
            CrudStatus::Modified => "8".to_owned(),
            CrudStatus::Locked => "16".to_owned(),
        }
    }

    /// Decodes a stored status value once, at the metadata-model boundary.
    /// Returns `None` exactly on values that encode no status.
    pub fn from_meta_value(value: &str) -> (r: Option<CrudStatus>)
        ensures
            r matches Some(s) ==> value@ == s.value_spec(),
            r is None ==> forall|s: CrudStatus| value@ != s.value_spec(),
    {
        if str_eq(value, "1") {
            Some(CrudStatus::Live)
        } else if str_eq(value, "2") {
            Some(CrudStatus::Rejected)
        } else if str_eq(value, "4") {
            Some(CrudStatus::Deleted)
        } else if str_eq(value, "8") {
            Some(CrudStatus::Modified)
        } else if str_eq(value, "16") {
            Some(CrudStatus::Locked)
        } else {
            None
        }
    }
}

} // verus!
