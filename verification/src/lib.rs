//! Core engine of a bidirectional folder-synchronization daemon.
//!
//! The library holds the change-propagation pipeline: coalescing raw
//! file-system notifications, optimizing event streams per file lifetime,
//! filtering by source policy, hash-index bookkeeping, reconciliation
//! planning, and the config/auth revalidation rules. All I/O (disk walks,
//! REST calls, the push socket) stays outside; callers hand in plain values
//! (snapshots, timestamps, fetched listings) and carry the returned plans out.

pub mod auth;
pub mod config;
pub mod expand;
pub mod file_event;
pub mod filter;
pub mod hash;
pub mod hash_json;
pub mod helpers;
pub mod laws;
pub mod optimize;
pub mod scheduler;
pub mod server_types;
pub mod smap;
pub mod socket;
pub mod strings;
pub mod watchers;
