//! Storage core of a peer-to-peer application runtime: a content-addressed
//! entry store with append-only writes, metadata-based status overlays, and a
//! message protocol that serializes all access to one table instance.
//!
//! Entries are immutable once stored; an entry's address (its key) is a
//! deterministic function of its content, so storing the same content twice
//! is a no-op. "Modify" and "retract" never touch stored content: they are
//! expressed as new metadata assertions, keeping the full history readable.

pub mod actor;
pub mod call;
pub mod entry;
pub mod entry_type;
pub mod error;
pub mod key;
pub mod keys;
pub mod memory;
pub mod meta;
pub mod order;
pub mod ribosome;
pub mod status;
pub mod table;
