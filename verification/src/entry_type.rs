//! The classification attached to entries: a fixed set of system types plus
//! application-defined types. Used by the core only as an opaque label; the
//! taxonomy's meaning belongs to the collaborators around it.

use vstd::prelude::*;

use crate::error::HolochainError;
use crate::order::str_eq;
use std::str::FromStr;

verus! {

/// An application-chosen entry type name.
#[derive(Debug, PartialEq, Eq, Hash)]
pub struct AppEntryType(pub String);

impl View for AppEntryType {
    type V = Seq<char>;

    open spec fn view(&self) -> Seq<char> {
        self.0@
    }
}

impl AppEntryType {
    /// Wraps an application type name.
    pub fn new(name: &str) -> (r: AppEntryType)
        ensures
            r@ == name@,
    {
        AppEntryType(name.to_owned())
    }

    /// The wrapped name.
    pub fn name(&self) -> (r: &str)
        ensures
            r@ == self@,
    {
        self.0.as_str()
    }
}

impl Clone for AppEntryType {
    fn clone(&self) -> (r: AppEntryType)
        ensures
            r == *self,
    {
        AppEntryType(self.0.clone())
    }
}

/// The entry classifications: every system type, and `App` for
/// application-defined types.
#[derive(Debug, PartialEq, Eq, Hash)]
pub enum EntryType {
    App(AppEntryType),
    AgentId,
    Deletion,
    Dna,
    ChainHeader,
    Key,
    Link,
    LinkAdd,
    LinkRemove,
    LinkList,
    Migration,
}

impl Clone for EntryType {
    fn clone(&self) -> (r: EntryType)
        ensures
            r == *self,
    {
        match self {
            EntryType::App(a) => EntryType::App(a.clone()),
            EntryType::AgentId => EntryType::AgentId,
            EntryType::Deletion => EntryType::Deletion,
            EntryType::Dna => EntryType::Dna,
            EntryType::ChainHeader => EntryType::ChainHeader,
            EntryType::Key => EntryType::Key,
            EntryType::Link => EntryType::Link,
            EntryType::LinkAdd => EntryType::LinkAdd,
            EntryType::LinkRemove => EntryType::LinkRemove,
            EntryType::LinkList => EntryType::LinkList,
            EntryType::Migration => EntryType::Migration,
        }
    }
}

/// A valid application type name: nonempty, and free of the `'%'` that
/// prefixes every system type name.
pub open spec fn valid_app_name(s: Seq<char>) -> bool {
    s.len() > 0 && forall|i: int| 0 <= i < s.len() ==> s[i] != '%'
}

impl EntryType {
    /// Whether entries of this type may be published to other peers: all
    /// but the application's genome itself.
    pub fn can_publish(&self) -> (r: bool)
        ensures
            r == !(self is Dna),
    {
        match self {
            EntryType::Dna => false,
            _ => true,
        }
    }

    /// Whether this is a system type.
    pub fn is_sys(&self) -> (r: bool)
        ensures
            r == !(self is App),
    {
        match self {
            EntryType::App(_) => false,
            _ => true,
        }
    }

    /// Whether this is an application-defined type.
    pub fn is_app(&self) -> (r: bool)
        ensures
            r == (self is App),
    {
        !self.is_sys()
    }

    /// Whether `name` can name an application type.
    pub fn has_valid_app_name(name: &str) -> (r: bool)
        ensures
            r == valid_app_name(name@),
    {
        let n = name.unicode_len();
        if n == 0 {
            return false;
        }
        let mut i: usize = 0;
        while i < n
            invariant
                0 <= i <= n,
                n == name@.len(),
                forall|j: int| 0 <= j < i ==> name@[j] != '%',
            decreases n - i,
        {
            if name.get_char(i) == '%' {
                return false;
            }
            i = i + 1;
        }
        true
    }

    /// What this type spells as a string: its system name, or the
    /// application name itself.
    pub open spec fn type_name_spec(&self) -> Seq<char> {
        match self {
            EntryType::App(a) => a@,
            EntryType::AgentId => "%agent_id"@,
            EntryType::Deletion => "%deletion"@,
            EntryType::Dna => "%dna"@,
            EntryType::ChainHeader => "%chain_header"@,
            EntryType::Key => "%key"@,
            EntryType::Link => "%link"@,
            EntryType::LinkAdd => "%link_add"@,
            EntryType::LinkRemove => "%link_remove"@,
            EntryType::LinkList => "%link_list"@,
            EntryType::Migration => "%migration"@,
        }
    }

    /// The type's canonical string form.
    pub fn as_type_name(&self) -> (r: String)
        ensures
            r@ == self.type_name_spec(),
    {
        match self {
            EntryType::App(a) => a.0.clone(),
            EntryType::AgentId => "%agent_id".to_owned(),
            EntryType::Deletion => "%deletion".to_owned(),
            EntryType::Dna => "%dna".to_owned(),
            EntryType::ChainHeader => "%chain_header".to_owned(),
            EntryType::Key => "%key".to_owned(),
            EntryType::Link => "%link".to_owned(),
            EntryType::LinkAdd => "%link_add".to_owned(),
            EntryType::LinkRemove => "%link_remove".to_owned(),
            EntryType::LinkList => "%link_list".to_owned(),
            EntryType::Migration => "%migration".to_owned(),
        }
    }

    /// Parses a canonical type name: each system name maps to its type, a
    /// valid application name maps to `App`, anything else (empty, or a
    /// stray `'%'`-form) is an `ArgumentError` — exactly those.
    pub fn from_type_name(s: &str) -> (r: Result<EntryType, HolochainError>)
        ensures
            r matches Ok(t) ==> t.type_name_spec() == s@,
            r matches Ok(t) ==> (t is App <==> valid_app_name(s@)),
            r matches Ok(EntryType::App(a)) ==> a@ == s@,
            r is Err <==> !valid_app_name(s@) && s@ != "%agent_id"@
                && s@ != "%deletion"@ && s@ != "%dna"@ && s@ != "%chain_header"@ && s@ != "%key"@
                && s@ != "%link"@ && s@ != "%link_add"@ && s@ != "%link_remove"@ && s@
                != "%link_list"@ && s@ != "%migration"@,
    {
        proof {
            reveal_strlit("%agent_id");
            reveal_strlit("%deletion");
            reveal_strlit("%dna");
            reveal_strlit("%chain_header");
            reveal_strlit("%key");
            reveal_strlit("%link");
            reveal_strlit("%link_add");
            reveal_strlit("%link_remove");
            reveal_strlit("%link_list");
            reveal_strlit("%migration");
            assert("%agent_id"@[0] == '%');
            assert("%deletion"@[0] == '%');
            assert("%dna"@[0] == '%');
            assert("%chain_header"@[0] == '%');
            assert("%key"@[0] == '%');
            assert("%link"@[0] == '%');
            assert("%link_add"@[0] == '%');
            assert("%link_remove"@[0] == '%');
            assert("%link_list"@[0] == '%');
            assert("%migration"@[0] == '%');
        }
        if str_eq(s, "%agent_id") {
            Ok(EntryType::AgentId)
        } else if str_eq(s, "%deletion") {
            Ok(EntryType::Deletion)
        } else if str_eq(s, "%dna") {
            Ok(EntryType::Dna)
        } else if str_eq(s, "%chain_header") {
            Ok(EntryType::ChainHeader)
        } else if str_eq(s, "%key") {
            Ok(EntryType::Key)
        } else if str_eq(s, "%link") {
            Ok(EntryType::Link)
        } else if str_eq(s, "%link_add") {
            Ok(EntryType::LinkAdd)
        } else if str_eq(s, "%link_remove") {
            Ok(EntryType::LinkRemove)
        } else if str_eq(s, "%link_list") {
            Ok(EntryType::LinkList)
        } else if str_eq(s, "%migration") {
            Ok(EntryType::Migration)
        } else if Self::has_valid_app_name(s) {
            Ok(EntryType::App(AppEntryType::new(s)))
        } else {
            Err(HolochainError::ArgumentError(s.to_owned()))
        }
    }
}

impl FromStr for EntryType {
    type Err = HolochainError;

    fn from_str(s: &str) -> Result<EntryType, HolochainError> {
        EntryType::from_type_name(s)
    }
}

/// A dummy application entry type for exercising the core.
pub fn test_entry_type() -> (r: EntryType)
    ensures
        r matches EntryType::App(a) && a@ == "testEntryType"@,
{
    EntryType::App(AppEntryType::new("testEntryType"))
}

/// The same dummy application type as `test_entry_type`.
pub fn test_entry_type_a() -> (r: EntryType)
    ensures
        r matches EntryType::App(a) && a@ == "testEntryType"@,
{
    test_entry_type()
}

/// A dummy application type that differs from `test_entry_type`.
pub fn test_entry_type_b() -> (r: EntryType)
    ensures
        r matches EntryType::App(a) && a@ == "testEntryTypeB"@,
{
    EntryType::App(AppEntryType::new("testEntryTypeB"))
}

/// A dummy system entry type.
pub fn test_sys_entry_type() -> (r: EntryType)
    ensures
        r == EntryType::AgentId,
{
    EntryType::AgentId
}

/// A dummy entry type that may not be published.
pub fn test_unpublishable_entry_type() -> (r: EntryType)
    ensures
        r == EntryType::Dna,
{
    EntryType::Dna
}

} // verus!
