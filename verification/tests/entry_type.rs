use std::str::FromStr;

use hash_table::entry_type::{
    test_entry_type, test_entry_type_a, test_entry_type_b, test_sys_entry_type,
    test_unpublishable_entry_type, AppEntryType, EntryType,
};

fn test_types() -> Vec<EntryType> {
    vec![
        EntryType::AgentId,
        EntryType::Deletion,
        EntryType::App(AppEntryType::new("foo")),
        EntryType::Dna,
        EntryType::ChainHeader,
        EntryType::Key,
        EntryType::Link,
        EntryType::Migration,
        EntryType::LinkList,
    ]
}

#[test]
fn entry_type_kind() {
    assert!(EntryType::App(AppEntryType::new("")).is_app());
    assert!(!EntryType::App(AppEntryType::new("")).is_sys());
    assert!(EntryType::AgentId.is_sys());
    assert!(!EntryType::AgentId.is_app());
}

#[test]
fn entry_type_valid_app_name() {
    assert!(EntryType::has_valid_app_name("agent_id"));
    assert!(!EntryType::has_valid_app_name("%agent_id"));
    assert!(!EntryType::has_valid_app_name(EntryType::AgentId.as_type_name().as_str()));
    assert!(!EntryType::has_valid_app_name(String::new().as_str()));
    assert!(EntryType::has_valid_app_name("toto"));
    assert!(!EntryType::has_valid_app_name("%%"));
}

#[test]
fn entry_type_as_str() {
    for (type_str, variant) in vec![
        ("%agent_id", EntryType::AgentId),
        ("%deletion", EntryType::Deletion),
        ("%dna", EntryType::Dna),
        ("%chain_header", EntryType::ChainHeader),
        ("%key", EntryType::Key),
        ("%link", EntryType::Link),
        ("%migration", EntryType::Migration),
    ] {
        assert_eq!(
            variant,
            EntryType::from_str(type_str).expect("could not convert str to EntryType")
        );
        assert_eq!(type_str, variant.as_type_name().as_str());
    }
}

#[test]
fn can_publish_test() {
    for t in test_types() {
        match t {
            EntryType::Dna => assert!(!t.can_publish()),
            _ => assert!(t.can_publish()),
        }
    }
}

#[test]
fn from_type_name_app_and_errors() {
    let t = EntryType::from_type_name("toto").expect("valid app name must parse");
    assert_eq!(t, EntryType::App(AppEntryType::new("toto")));
    assert!(EntryType::from_type_name("").is_err());
    assert!(EntryType::from_type_name("%no_such_sys_name").is_err());
    assert_eq!(
        EntryType::from_type_name("%link_add").expect("sys name must parse"),
        EntryType::LinkAdd
    );
    assert_eq!(
        EntryType::from_type_name("%link_remove").expect("sys name must parse"),
        EntryType::LinkRemove
    );
    assert_eq!(
        EntryType::from_type_name("%link_list").expect("sys name must parse"),
        EntryType::LinkList
    );
}

#[test]
fn entry_type_test_helpers() {
    assert_eq!(test_entry_type(), test_entry_type_a());
    assert_ne!(test_entry_type(), test_entry_type_b());
    assert_eq!(test_sys_entry_type(), EntryType::AgentId);
    assert_eq!(test_unpublishable_entry_type(), EntryType::Dna);
    assert!(!test_unpublishable_entry_type().can_publish());
    assert!(test_entry_type().is_app());
}
