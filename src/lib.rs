//! Durable, self-healing storage of three small user-curated lists of
//! entries: a catalog, a most-recently-used list and a favorites set.
//!
//! The library holds the decisions: how a candidate entry is normalized, how
//! each list changes, how temporary and backup files are named, and in what
//! order a durable write and a corruption backup touch the file system. The
//! file system itself is driven by the caller, which reports the outcome of
//! each step back to the library.

pub mod entry;
pub mod policy;
pub mod naming;
pub mod durable;
pub mod recovery;
pub mod store;
