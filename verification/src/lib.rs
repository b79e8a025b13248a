//! Mirrors a conda package channel from a source to a destination.
//!
//! The crate holds the mirroring engine itself: the filter language over
//! package records, per-subdir reconciliation between a source manifest and
//! the destination's current contents, integrity checking of fetched
//! archives, and the rewriting of the destination manifest. The surrounding
//! I/O (HTTP, object stores, the CLI) lives outside and feeds the engine
//! plain values.

pub mod archive;
pub mod config;
pub mod digest;
pub mod error;
pub mod filter;
pub mod laws;
pub mod manifest;
pub mod plan;
pub mod platform;
pub mod record;
pub mod task;
pub mod text;
