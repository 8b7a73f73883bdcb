//! Configured lifetimes, in seconds.

use vstd::prelude::*;

verus! {

/// Lifetime of an access token and of its cookie.
pub const BEARER_EXPIRATION_SECONDS: u64 = 10 * 60;

/// Lifetime of a refresh credential and of its cookie.
pub const REFRESH_EXPIRATION_SECONDS: u64 = 8 * 60 * 60;

/// Lifetime of a one-time code.
pub const OTC_EXPIRATION_SECONDS: u64 = 10 * 60;

/// Lifetime of a password-reset code.
pub const PASSWORD_RESET_TOKEN_EXPIRATION_SECONDS: u64 = 10 * 60;

} // verus!
