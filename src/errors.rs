use vstd::prelude::*;

verus! {

/// What can go wrong while shortening, resolving or sweeping links.
#[derive(Debug)]
pub enum AppError {
    /// The storage layer failed: connectivity, a timeout or a failed query.
    DatabaseError(String),
    /// An insert was rejected because the alias is already taken.
    DuplicateAlias,
    /// The caller's input is not an acceptable URL.
    UserInputError(String),
    /// No live link has the requested alias.
    NotFoundError,
    /// A startup failure that must stop the process.
    InfraError(String),
    /// No free alias was found within the allowed number of attempts.
    ExhaustedKeyspace,
}

} // verus!
