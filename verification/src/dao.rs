//! Table-level operations: each submodule owns the reads and writes of
//! one entity, stated against the store's well-formedness invariant.

pub mod comment;
pub mod equipment;
pub mod location;
pub mod memory;
pub mod rank_aggregation;
pub mod upload;
pub mod user;
