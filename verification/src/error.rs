//! The ways in which deriving a tag or rewriting a batch can fail.

use vstd::prelude::*;

verus! {

/// A failure of the mangling pipeline. Each one leaves a symbol mapping
/// missing or wrong, so none is ever downgraded to a warning.
#[derive(Debug, Clone, Copy, PartialEq, Eq, Structural)]
pub enum Error {
    /// A version field is not a non-negative integer literal.
    MalformedVersionField,
    /// A repository was detected, but the data of its current revision is
    /// unreadable or truncated.
    InvalidRepositoryState,
    /// A declaration of the batch starts as a function or data declaration
    /// and does not go on as one.
    MalformedDeclarationBatch,
}

} // verus!
