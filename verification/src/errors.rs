use vstd::prelude::*;

verus! {

/// The failure taxonomy: every failure surfaces as a machine-readable
/// category plus a human-readable detail string, and none is silently
/// discarded.
#[derive(Debug, Clone, Copy, PartialEq, Eq, Structural)]
pub enum ErrorKind {
    /// A source could not be reached at all.
    FetchError,
    /// A response arrived but could not be decoded as expected.
    ParseError,
    /// A response decoded but lacks the expected container.
    MissingField,
    /// A persistence operation failed.
    StoreError,
    /// The summary artifact could not be written.
    RenderError,
    /// A caller-supplied identifier was blank, or a filter left nothing.
    ValidationError,
    /// A lookup or delete found nothing.
    NotFoundError,
}

/// A structured failure: its category and a human-readable detail.
#[derive(Debug, Clone)]
pub struct ApiError {
    pub kind: ErrorKind,
    pub detail: String,
}

impl ApiError {
    pub fn new(kind: ErrorKind, detail: &str) -> (e: ApiError)
        ensures
            e.kind == kind,
            e.detail@ == detail@,
    {
        ApiError { kind, detail: detail.to_owned() }
    }
}

} // verus!
