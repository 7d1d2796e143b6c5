//! What can stop the extraction.

use vstd::prelude::*;
use crate::error::{Code, ErrorCode};

verus! {

/// An error met while a document is read.
#[derive(Debug)]
pub enum ExtractError {
    /// Every field id is taken and the document names a new field.
    AttributeLimitReached,
    /// A field of the document is no JSON value.
    SerdeJson(serde_json::Error),
    /// The document holds a field that the map of the fields does not name.
    UnknownField,
}

/// The kind of an [`ExtractError`].
#[derive(Debug, Clone, Copy, PartialEq, Eq, Structural)]
pub enum Failure {
    AttributeLimitReached,
    InvalidJson,
    UnknownField,
}

impl ExtractError {
    /// The kind of the error.
    pub open spec fn spec_failure(&self) -> Failure {
        match self {
            ExtractError::AttributeLimitReached => Failure::AttributeLimitReached,
            ExtractError::SerdeJson(_) => Failure::InvalidJson,
            ExtractError::UnknownField => Failure::UnknownField,
        }
    }

    /// The kind of the error.
    pub fn failure(&self) -> (f: Failure)
        ensures
            f == self.spec_failure(),
    {
        match self {
            ExtractError::AttributeLimitReached => Failure::AttributeLimitReached,
            ExtractError::SerdeJson(_) => Failure::InvalidJson,
            ExtractError::UnknownField => Failure::UnknownField,
        }
    }
}

impl ErrorCode for ExtractError {
    /// Too many fields is the caller's error; a stored field that is no JSON
    /// value is an internal one.
    open spec fn spec_error_code(&self) -> Code {
        match self {
            ExtractError::AttributeLimitReached => Code::MaxFieldsLimitExceeded,
            ExtractError::SerdeJson(_) => Code::Internal,
            ExtractError::UnknownField => Code::Internal,
        }
    }

    fn error_code(&self) -> (code: Code) {
        match self {
            ExtractError::AttributeLimitReached => Code::MaxFieldsLimitExceeded,
            ExtractError::SerdeJson(_) => Code::Internal,
            ExtractError::UnknownField => Code::Internal,
        }
    }
}

} // verus!
