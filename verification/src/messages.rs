//! The bodies of requests and responses.

use vstd::prelude::*;
use crate::errors::ApiError;

verus! {

/// What a new applicant gets: the token and the challenge.
pub struct RegisterResponse {
    pub token: String,
    pub challenge: Vec<String>,
}

/// What an applicant registers with.
pub struct RegisterRequest {
    pub name: String,
    pub nuid: String,
}

/// The token of an applicant who asked for it again.
pub struct HandleForgotTokenResponse {
    pub token: String,
}

/// The challenge that belongs to a token.
pub struct GetChallenge {
    pub challenge: Vec<String>,
}

/// What a failed request is answered with: a message and the error kind.
pub struct ErrorResponse<'a> {
    pub msg: &'a str,
    pub error: Option<ApiError>,
}

} // verus!
