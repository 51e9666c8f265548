//! The error kinds of the workflow and of the transport layer.

use vstd::prelude::*;
use crate::workflow::Applicant;

verus! {

/// What the transport layer renders for a failed request.
#[derive(Debug)]
pub enum ApiError {
    DuplicateUser,
    IncorrectSolution { given_solution: Vec<String> },
    DeserializeError,
    ApplicantsNotFound { applicants_found: Vec<Applicant>, applicants_not_found: Vec<String> },
    NoUserFound,
    StorageError,
}

/// Why an operation of the workflow failed.
#[derive(Debug)]
pub enum ModelError {
    /// The given answer is not the stored answer key.
    IncorrectSolution { given_solution: Vec<String> },
    /// A registration with this identifier exists.
    DuplicateUser,
    /// One or more of the applicants asked for have no recorded submission.
    ApplicantsNotFound { applicants_found: Vec<Applicant>, applicants_not_found: Vec<String> },
    /// The persistence store failed.
    StorageError,
    /// A stored challenge or answer key does not have its expected shape.
    DeserializeError,
    /// No applicant with this token or identifier exists.
    NoUserFound,
}

/// How a call to the persistence store failed.
#[derive(Debug, Clone, Copy, PartialEq, Eq, Structural)]
pub enum StoreError {
    /// A record with the same identifier exists already.
    Conflict,
    /// No record matches.
    NotFound,
    /// Any other failure.
    Other,
}

/// What the transport layer renders for each error kind of the workflow: the
/// kind of the same name, with what the error carries.
pub open spec fn rendered(error: ModelError) -> ApiError {
    match error {
        ModelError::IncorrectSolution { given_solution } => ApiError::IncorrectSolution {
            given_solution,
        },
        ModelError::DuplicateUser => ApiError::DuplicateUser,
        ModelError::ApplicantsNotFound { applicants_found, applicants_not_found } => {
            ApiError::ApplicantsNotFound { applicants_found, applicants_not_found }
        },
        ModelError::StorageError => ApiError::StorageError,
        ModelError::DeserializeError => ApiError::DeserializeError,
        ModelError::NoUserFound => ApiError::NoUserFound,
    }
}

/// Different errors are rendered differently.
pub proof fn lemma_rendered_distinct(first: ModelError, second: ModelError)
    requires
        rendered(first) == rendered(second),
    ensures
        first == second,
{
}

impl ApiError {
    /// What the transport layer renders for an error of the workflow.
    pub fn of(error: ModelError) -> (api: ApiError)
        ensures
            api == rendered(error),
    {
        match error {
            ModelError::IncorrectSolution { given_solution } => ApiError::IncorrectSolution {
                given_solution,
            },
            ModelError::DuplicateUser => ApiError::DuplicateUser,
            ModelError::ApplicantsNotFound { applicants_found, applicants_not_found } => {
                ApiError::ApplicantsNotFound { applicants_found, applicants_not_found }
            },
            ModelError::StorageError => ApiError::StorageError,
            ModelError::DeserializeError => ApiError::DeserializeError,
            ModelError::NoUserFound => ApiError::NoUserFound,
        }
    }
}

} // verus!
