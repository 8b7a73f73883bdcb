//! Random uppercase-alphanumeric codes: one-time codes and refresh
//! credentials.
//!
//! Nothing can be promised about which code comes back, so the contracts
//! state only what holds of every outcome: length and alphabet. Codes are
//! drawn from the thread-local generator of the rand crate, which is
//! cryptographically secure; a refresh credential is long enough to carry
//! more than 128 bits of entropy.

use vstd::prelude::*;

use rand::Rng;

use crate::strutil::push_char;

verus! {

/// The code alphabet: '0'..'9' and 'A'..'Z'.
pub open spec fn is_code_char(c: char) -> bool {
    (48 <= c as int <= 57) || (65 <= c as int <= 90)
}

pub open spec fn all_code_chars(s: Seq<char>) -> bool {
    forall|i: int| 0 <= i < s.len() ==> is_code_char(s[i])
}

/// Relies on rand's `thread_rng` and the `Alphanumeric` distribution: an
/// ASCII alphanumeric byte, folded here to uppercase. Nothing more is
/// promised of a random draw.
#[verifier::external_body]
fn sample_code_char() -> (c: char)
    ensures
        is_code_char(c),
{
    let b: u8 = rand::thread_rng().sample(rand::distributions::Alphanumeric);
    (b as char).to_ascii_uppercase()
}

/// A random code over the uppercase-alphanumeric alphabet.
fn random_code(len: usize) -> (code: String)
    ensures
        code@.len() == len,
        all_code_chars(code@),
{
    let mut code = String::new();
    let mut i: usize = 0;
    while i < len
        invariant
            0 <= i <= len,
            code@.len() == i,
            all_code_chars(code@),
        decreases len - i,
    {
        let c = sample_code_char();
        push_char(&mut code, c);
        i = i + 1;
    }
    code
}

/// A six-character one-time code.
pub fn create_otc() -> (otc: String)
    ensures
        otc@.len() == 6,
        all_code_chars(otc@),
{
    random_code(6)
}

/// A fresh opaque refresh credential: 25 uppercase-alphanumeric characters,
/// for over 128 bits of entropy from a cryptographically secure generator.
pub fn generate_refresh_token() -> (token: String)
    ensures
        token@.len() == 25,
        all_code_chars(token@),
{
    random_code(25)
}

} // verus!
