//! The error taxonomy of the pipeline: every failure aborts the run, none is
//! silently swallowed, and no partial result is produced.
use vstd::prelude::*;

verus! {

/// A generic error for searches. Each variant carries a human-readable
/// message identifying which phase failed.
#[derive(Clone, Debug, PartialEq)]
pub enum FilterError {
    /// A general error used as a catch-all, e.g. for transport failures.
    General(String),
    /// URL construction related errors.
    Url(String),
    /// JSON decoding related errors: the response body does not match the
    /// expected shape.
    Json(String),
    /// Integer parsing related errors in the configuration.
    Int(String),
}

impl FilterError {
    /// The message carried by the error, whichever phase produced it.
    pub open spec fn text(&self) -> Seq<char> {
        match self {
            FilterError::General(m) => m@,
            FilterError::Url(m) => m@,
            FilterError::Json(m) => m@,
            FilterError::Int(m) => m@,
        }
    }

    /// The message carried by the error, whichever phase produced it.
    pub fn message(&self) -> (m: &str)
        ensures
            m@ == self.text(),
    {
        match self {
            FilterError::General(m) => m.as_str(),
            FilterError::Url(m) => m.as_str(),
            FilterError::Json(m) => m.as_str(),
            FilterError::Int(m) => m.as_str(),
        }
    }
}

} // verus!
