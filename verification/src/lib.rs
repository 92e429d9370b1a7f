//! Decisions of a clone manager for Holochain apps: which cloned cells to
//! create, re-enable or disable so that the running clones match the clone
//! requests, how the requests and their providers are read back from links,
//! and the validation rules for clone requests and their links.
pub mod hashes;
pub mod cells;
pub mod reconcile;
pub mod reconcile_laws;
pub mod entry_hash;
pub mod integrity;
pub mod coordinator;
pub mod selection_laws;
pub mod rule_laws;
