//! Namespaced token-store keys.
//!
//! Every entry of the token store lives under one of three namespaces:
//! `refresh:<credential>` for refresh credentials, `otc:<code>` for one-time
//! codes, and `reset-token:<code>` for password-reset codes.

use vstd::prelude::*;

verus! {

/// The store key of a refresh credential.
pub open spec fn spec_refresh_token_key(token: Seq<char>) -> Seq<char> {
    "refresh:"@ + token
}

/// The store key of a one-time code.
pub open spec fn spec_otc_key(otc: Seq<char>) -> Seq<char> {
    "otc:"@ + otc
}

/// The store key of a password-reset code.
pub open spec fn spec_reset_token_key(token: Seq<char>) -> Seq<char> {
    "reset-token:"@ + token
}

/// Distinct refresh credentials live under distinct store keys.
pub proof fn lemma_refresh_key_injective(a: Seq<char>, b: Seq<char>)
    ensures
        (spec_refresh_token_key(a) == spec_refresh_token_key(b)) == (a == b),
{
    reveal_strlit("refresh:");
    if spec_refresh_token_key(a) == spec_refresh_token_key(b) {
        assert(a =~= spec_refresh_token_key(a).subrange(8, spec_refresh_token_key(a).len() as int));
        assert(b =~= spec_refresh_token_key(b).subrange(8, spec_refresh_token_key(b).len() as int));
    }
}

pub fn format_refresh_token_key(refresh_token_value: &str) -> (token_key: String)
    ensures
        token_key@ == spec_refresh_token_key(refresh_token_value@),
{
    let mut token_key = String::from_str("refresh:");
    token_key.append(refresh_token_value);
    token_key
}

pub fn format_otc_key(otc: &str) -> (otc_key: String)
    ensures
        otc_key@ == spec_otc_key(otc@),
{
    let mut otc_key = String::from_str("otc:");
    otc_key.append(otc);
    otc_key
}

pub fn format_reset_token_key(token: &str) -> (reset_token_key: String)
    ensures
        reset_token_key@ == spec_reset_token_key(token@),
{
    let mut reset_token_key = String::from_str("reset-token:");
    reset_token_key.append(token);
    reset_token_key
}

} // verus!
