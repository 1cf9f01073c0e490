use vstd::prelude::*;

verus! {

/// The kinds of failure that a repository operation reports to its caller.
#[derive(Debug, Clone, Copy, PartialEq, Eq, Structural)]
pub enum RepoError {
    /// A malformed identifier, or an update, delete or list that could not be done.
    InvalidArgument,
    /// The post that a read or a page cursor refers to does not exist.
    NotFound,
    /// The store failed, or a stored value broke one of its invariants.
    Internal,
}

} // verus!
