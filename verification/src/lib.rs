//! Planning and bookkeeping for a concurrent toolchain installer: which
//! archive entries are written where, how fetched chunks are handed to a
//! blocking reader, and how the outcomes of all units of work are combined.

pub mod archive;
pub mod chunks;
pub mod error;
pub mod fetch;
pub mod orchestrator;
pub mod source;
pub mod toolchain;
