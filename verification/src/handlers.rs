//! Request-level operations: each submodule composes the table
//! operations of one entity into the flows a caller sees, inside one
//! transactional store borrow.

pub mod comment;
pub mod location;
pub mod memory;
pub mod user;
