//! The error taxonomy of the pipeline.

use vstd::prelude::*;
use vstd::string::StringExecFns;

verus! {

/// Why a stage of the pipeline failed.
#[derive(Debug, Clone)]
pub enum AppError {
    /// Malformed input or shape.
    Validation(String),
    /// A failure of the generative service, the network or a parser.
    ExternalService(String),
    /// A failure of the file system.
    Io(String),
    /// Text that does not decode as the expected JSON.
    Serialization(String),
    /// An unknown job or program.
    NotFound(String),
    /// A completed job applied again.
    Conflict(String),
    /// An invariant that did not hold.
    Internal(String),
}

impl AppError {
    /// The text that came with the error.
    pub open spec fn spec_detail(&self) -> Seq<char> {
        match self {
            AppError::Validation(m) => m@,
            AppError::ExternalService(m) => m@,
            AppError::Io(m) => m@,
            AppError::Serialization(m) => m@,
            AppError::NotFound(m) => m@,
            AppError::Conflict(m) => m@,
            AppError::Internal(m) => m@,
        }
    }

    /// The words that name the kind of error.
    pub open spec fn spec_kind(&self) -> Seq<char> {
        match self {
            AppError::Validation(_) => "Validation error: "@,
            AppError::ExternalService(_) => "External service error: "@,
            AppError::Io(_) => "File system error: "@,
            AppError::Serialization(_) => "Serialization error: "@,
            AppError::NotFound(_) => "Not found: "@,
            AppError::Conflict(_) => "Conflict: "@,
            AppError::Internal(_) => "Internal error: "@,
        }
    }

    /// The error as one line of text: its kind, then its detail.
    pub fn message(&self) -> (out: String)
        ensures
            out@ == self.spec_kind() + self.spec_detail(),
    {
        let (kind, detail) = match self {
            AppError::Validation(m) => ("Validation error: ", m),
            AppError::ExternalService(m) => ("External service error: ", m),
            AppError::Io(m) => ("File system error: ", m),
            AppError::Serialization(m) => ("Serialization error: ", m),
            AppError::NotFound(m) => ("Not found: ", m),
            AppError::Conflict(m) => ("Conflict: ", m),
            AppError::Internal(m) => ("Internal error: ", m),
        };
        let mut out = String::from_str(kind);
        out.append(detail.as_str());
        out
    }
}

} // verus!
