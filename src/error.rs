use vstd::prelude::*;

verus! {

/// Failures surfaced by every repository operation.
#[derive(Debug, Clone, PartialEq, Eq)]
pub enum RepositoryError {
    /// The requested entity is absent.
    NotFound(i32),
    /// A label with the same name already exists; carries its id.
    Duplicate(i32),
    /// Any other backing-store failure, with its description.
    Unexpected(String),
}

/// What a backing store reports when a single-row statement fails.
#[derive(Debug, Clone, PartialEq, Eq)]
pub enum StoreFailure {
    /// The statement matched no row.
    RowNotFound,
    /// Any other fault, with its description.
    Other(String),
}

/// The repository error for a failed statement that addressed the row `id`.
pub open spec fn failure_error(id: i32, f: StoreFailure) -> RepositoryError {
    match f {
        StoreFailure::RowNotFound => RepositoryError::NotFound(id),
        StoreFailure::Other(msg) => RepositoryError::Unexpected(msg),
    }
}

/// Maps a store failure on the row `id` into the repository's error taxonomy:
/// a missing row becomes `NotFound(id)`, anything else is wrapped as `Unexpected`.
pub fn error_for_row(id: i32, f: StoreFailure) -> (r: RepositoryError)
    ensures
        r == failure_error(id, f),
{
    match f {
        StoreFailure::RowNotFound => RepositoryError::NotFound(id),
        StoreFailure::Other(msg) => RepositoryError::Unexpected(msg),
    }
}

/// The outcome of deleting the row `id`, given what the delete statement
/// reported: the number of rows it removed, or its failure. Removing no row
/// means that `id` was absent.
pub fn delete_outcome(id: i32, reply: Result<u64, StoreFailure>) -> (r: Result<(), RepositoryError>)
    ensures
        match reply {
            Ok(n) => if n == 0 {
                r == Err::<(), RepositoryError>(RepositoryError::NotFound(id))
            } else {
                r is Ok
            },
            Err(f) => r == Err::<(), RepositoryError>(failure_error(id, f)),
        },
{
    match reply {
        Ok(n) => if n == 0 {
            Err(RepositoryError::NotFound(id))
        } else {
            Ok(())
        },
        Err(f) => Err(error_for_row(id, f)),
    }
}

} // verus!
