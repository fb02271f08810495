use vstd::prelude::*;

use crate::error::{public_code, public_message, AuthError};

verus! {

/// A user account as the authentication core sees it.
#[derive(Debug, Clone)]
pub struct User {
    /// Stable external identifier (UUID text).
    pub pid: String,
    pub email: String,
    pub name: String,
    pub created_at: Option<String>,
    pub updated_at: Option<String>,
}

/// One caller-facing error entry.
#[derive(Debug, Clone)]
pub struct ValidationError {
    pub field: String,
    pub message: String,
    pub code: String,
}

/// The envelope every response body is wrapped in.
#[derive(Debug, Clone)]
pub struct ApiResponse<T> {
    pub success: bool,
    pub message: String,
    pub data: Option<T>,
    pub errors: Option<Vec<ValidationError>>,
}

impl<T> ApiResponse<T> {
    /// A successful response carrying `data`.
    pub fn success(data: T, message: String) -> (r: ApiResponse<T>)
        ensures
            r.success,
            r.message == message,
            r.data == Some(data),
            r.errors.is_none(),
    {
        ApiResponse { success: true, message, data: Some(data), errors: None }
    }

    /// A failed response describing `err` as callers may see it.
    pub fn failure(err: AuthError) -> (r: ApiResponse<T>)
        ensures
            !r.success,
            r.message@ == public_message(err),
            r.data.is_none(),
            r.errors.is_some(),
            r.errors.unwrap()@.len() == 1,
            r.errors.unwrap()@[0].code@ == public_code(err),
            r.errors.unwrap()@[0].message@ == public_message(err),
    {
        let entry = err.to_validation_error();
        ApiResponse {
            success: false,
            message: err.message().to_owned(),
            data: None,
            errors: Some(vec![entry]),
        }
    }
}

} // verus!
