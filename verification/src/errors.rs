//! Error taxonomy of the library.
//!
//! Storage failures are fatal to the enclosing request or batch and are
//! surfaced as an error-class response, distinct from a legitimate
//! rejection, so front-ends never conflate "lease denied" with "system
//! malfunction".

use vstd::prelude::*;

verus! {

/// An error surfaced by the lease engine.
#[derive(Debug, Clone)]
pub enum LldError {
    /// An error adopted from a collaborator, tagged with a short context.
    WrappedError(&'static str, String),
    /// A failure reported by the storage layer.
    DatabaseError { code: Option<isize>, message: Option<String> },
}

/// Shorthand for results whose error is [`LldError`].
pub type LldResult<T> = Result<T, LldError>;

} // verus!
