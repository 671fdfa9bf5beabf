//! The rules a new account and a profile update must meet.
use vstd::prelude::*;

use crate::config::{MAX_BIO_LENGTH, MAX_USERNAME_LENGTH, MIN_PASSWORD_LENGTH, MIN_USERNAME_LENGTH};
use crate::errors::ApiError;

verus! {

/// Why a new account is refused, if it is; lengths are in bytes.
pub open spec fn new_user_problem(username: &str, password: &str) -> Option<Seq<char>> {
    if username@.len() == 0 {
        Some("Username is required"@)
    } else if username.len() < MIN_USERNAME_LENGTH || username.len() > MAX_USERNAME_LENGTH {
        Some("Username must be 3-50 characters"@)
    } else if password@.len() == 0 {
        Some("Password is required"@)
    } else if password.len() < MIN_PASSWORD_LENGTH {
        Some("Password must be at least 3 characters"@)
    } else {
        None
    }
}

/// The error a refusal is answered with.
pub open spec fn refused_with(r: Result<(), ApiError>, problem: Option<Seq<char>>) -> bool {
    match problem {
        None => r is Ok,
        Some(m) => r matches Err(ApiError::BadRequest(text)) && text@ == m,
    }
}

/// Checks the user name and password of a new account.
pub fn validate_new_user(username: &str, password: &str) -> (r: Result<(), ApiError>)
    ensures
        refused_with(r, new_user_problem(username, password)),
{
    if username.is_empty() {
        return Err(ApiError::BadRequest(String::from_str("Username is required")));
    }
    if username.len() < MIN_USERNAME_LENGTH || username.len() > MAX_USERNAME_LENGTH {
        return Err(ApiError::BadRequest(String::from_str("Username must be 3-50 characters")));
    }
    if password.is_empty() {
        return Err(ApiError::BadRequest(String::from_str("Password is required")));
    }
    if password.len() < MIN_PASSWORD_LENGTH {
        return Err(ApiError::BadRequest(String::from_str("Password must be at least 3 characters")));
    }
    Ok(())
}

/// Checks a new profile text: at most `MAX_BIO_LENGTH` bytes.
pub fn validate_bio(bio: &str) -> (r: Result<(), ApiError>)
    ensures
        refused_with(
            r,
            if bio.len() > MAX_BIO_LENGTH {
                Some("Bio too long (max 500 chars)"@)
            } else {
                None
            },
        ),
{
    if bio.len() > MAX_BIO_LENGTH {
        return Err(ApiError::BadRequest(String::from_str("Bio too long (max 500 chars)")));
    }
    Ok(())
}

/// Checks a replacement password: at least `MIN_PASSWORD_LENGTH` bytes.
pub fn validate_new_password(password: &str) -> (r: Result<(), ApiError>)
    ensures
        refused_with(
            r,
            if password@.len() == 0 || password.len() < MIN_PASSWORD_LENGTH {
                Some("Password must be 3+ characters"@)
            } else {
                None
            },
        ),
{
    if password.is_empty() || password.len() < MIN_PASSWORD_LENGTH {
        return Err(ApiError::BadRequest(String::from_str("Password must be 3+ characters")));
    }
    Ok(())
}

} // verus!
