//! Verified core of an account-authentication backend: password credential
//! checking, signed access-token issuance, a TTL key/value token store,
//! refresh-credential rotation, and a one-time-code registry that defers
//! sensitive account mutations behind an emailed code.

pub mod auth_service;
pub mod codes;
pub mod constants;
pub mod cookies;
pub mod errors;
pub mod jwt;
pub mod keys;
pub mod models;
pub mod password;
pub mod numbers;
pub mod otc;
pub mod otc_service;
pub mod sanitize;
pub mod state;
pub mod store;
pub mod templates;
pub mod strutil;
pub mod user_service;
pub mod users;
pub mod validation;
