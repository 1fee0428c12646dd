//! What can go wrong with one command, and what a backend says when it
//! refuses a request.

use vstd::prelude::*;
use vstd::string::*;
use crate::text::{decimal, decimal_text};

verus! {

/// The answer of a backend that did not do what was asked: an HTTP-style
/// status code and the raw body, kept for diagnostics.
#[derive(Debug, Clone)]
pub struct Status {
    pub code: u16,
    pub body: String,
}

/// Why a command could not be carried out.
#[derive(Debug, Clone)]
pub enum TaskError {
    /// Two repositories of the configuration share the id `duplicate_id`.
    ConfigInvariantViolation { duplicate_id: String },
    /// The text before the `/` of a task reference is no configured
    /// repository id.
    UnrecognizedProviderPrefix,
    /// A task reference is not of the form `<repo-id>/<native-id>`.
    InvalidIdentifierFormat,
    /// No repository is the default for new tasks, or the id that was given
    /// names none.
    ProviderNotFound,
    /// The backend refused the request, or could not be reached.
    BackendError(Status),
    /// The provider kind has no such operation: the request can never
    /// succeed.
    Unsupported,
}

/// The sentence that tells a user of an error.
pub open spec fn message_text(error: TaskError) -> Seq<char> {
    match error {
        TaskError::ConfigInvariantViolation { duplicate_id } => "Two repositories share the id "@
            + duplicate_id@,
        TaskError::UnrecognizedProviderPrefix =>
            "The task reference does not begin with the id of a configured repository"@,
        TaskError::InvalidIdentifierFormat =>
            "The task reference is not of the form <repo-id>/<native-id>"@,
        TaskError::ProviderNotFound => "Provider was not found"@,
        TaskError::BackendError(status) => "The backend answered with status "@ + decimal(
            status.code as nat,
        ),
        TaskError::Unsupported => "The provider has no such operation"@,
    }
}

impl TaskError {
    /// The sentence that tells a user of the error.
    pub fn message(&self) -> (text: String)
        ensures
            text@ == message_text(*self),
    {
        match self {
            TaskError::ConfigInvariantViolation { duplicate_id } => {
                let mut text = String::from_str("Two repositories share the id ");
                text.append(duplicate_id.as_str());
                text
            },
            TaskError::UnrecognizedProviderPrefix => String::from_str(
                "The task reference does not begin with the id of a configured repository",
            ),
            TaskError::InvalidIdentifierFormat => String::from_str(
                "The task reference is not of the form <repo-id>/<native-id>",
            ),
            TaskError::ProviderNotFound => String::from_str("Provider was not found"),
            TaskError::BackendError(status) => {
                let mut text = String::from_str("The backend answered with status ");
                let code: u32 = status.code as u32;
                text.append(decimal_text(code).as_str());
                text
            },
            TaskError::Unsupported => String::from_str("The provider has no such operation"),
        }
    }
}

} // verus!
