//! A task-tracking repository core: todo and label entities, the folding
//! algorithm that rebuilds nested todos from flat joined rows, a repository
//! capability contract, a verified in-memory backend -- also available
//! behind a reader/writer lock for concurrent callers -- and the verified
//! compute half of the relational backend.

use vstd::prelude::*;

pub mod domain;
pub mod fold;
pub mod memory;
pub mod model;
pub mod relational;
pub mod repository;
pub mod shared;

verus! {

/// The failure modes shared by every repository backend.
#[derive(Debug, PartialEq, Eq)]
pub enum RepositoryError {
    /// The requested entity id does not exist.
    NotFound(i32),
    /// A command payload violates a field constraint.
    Validation(String),
    /// The persistence layer failed; the message is opaque to the core.
    Unexpected(String),
}

impl Clone for RepositoryError {
    fn clone(&self) -> (r: Self)
        ensures
            r == *self,
    {
        match self {
            RepositoryError::NotFound(id) => RepositoryError::NotFound(*id),
            RepositoryError::Validation(m) => RepositoryError::Validation(m.clone()),
            RepositoryError::Unexpected(m) => RepositoryError::Unexpected(m.clone()),
        }
    }
}

} // verus!
