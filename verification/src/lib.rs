//! Position bookkeeping and readahead caching for seekable readers that
//! share one underlying byte source.
//!
//! Many workers read one resource, each through a handle with a position of
//! its own. For a local file the handle only has to remember where it is.
//! For a remote resource the reads of all workers are served from a bounded
//! cache of blocks, filled by a single forward-only transfer.

pub mod access;
pub mod cache;
pub mod engine;
pub mod entry;
pub mod laws;
pub mod memory;
pub mod model;
pub mod position;
pub mod stats;
