use vstd::prelude::*;

verus! {

/// Why a step of change tracking could not be carried out.
#[derive(Debug, PartialEq, Eq)]
pub enum SnapshotError {
    /// The archive recorded a transaction code with no known meaning.
    UnexpectedClassificationCode { code: String, program: String },
    /// A field that must be numeric held this text.
    MalformedData(String),
    /// A change log that is empty or does not start with a post.
    PreconditionViolation,
}

} // verus!
