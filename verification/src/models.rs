//! Request and response shapes of the authentication endpoints.
//!
//! These are plain data carriers; the transport layer fills them from JSON
//! bodies and query parameters and serializes them back out.

use vstd::prelude::*;

verus! {

/// The view of an optional string.
pub open spec fn opt_view(o: Option<String>) -> Option<Seq<char>> {
    match o {
        Some(s) => Some(s@),
        None => None,
    }
}

/// Body of a registration request.
#[derive(Debug)]
pub struct RegisterUser {
    pub name: String,
    pub email: String,
    pub password: String,
    pub password_confirm: String,
}

/// Body of a login request.
#[derive(Debug)]
pub struct LoginUser {
    pub email: String,
    pub password: String,
}

/// Body of a password-reset-token request.
#[derive(Debug)]
pub struct ResetPasswordTokenUser {
    pub email: String,
}

/// Body of a password-reset submission.
#[derive(Debug)]
pub struct PasswordResetUser {
    pub password: String,
    pub password_confirm: String,
}

/// Query parameter carrying a password-reset code.
#[derive(Debug)]
pub struct PasswordResetToken {
    pub token: String,
}

/// Body of an account-update request.
#[derive(Debug)]
pub struct UpdateUser {
    pub id: i32,
    pub name: String,
    pub phone: Option<String>,
    pub email: String,
    pub email_confirm: Option<String>,
    pub password: Option<String>,
    pub password_confirm: Option<String>,
}

/// A bare one-time code.
#[derive(Debug)]
pub struct Otc {
    pub otc: String,
}

/// Query parameter carrying a one-time code for redemption.
#[derive(Debug)]
pub struct OtcRequest {
    pub otc: String,
}

/// The identity echoed back by successful auth endpoints.
#[derive(Debug)]
pub struct AuthResponse {
    pub id: i32,
    pub name: String,
    pub phone: Option<String>,
    pub email: String,
}

} // verus!
