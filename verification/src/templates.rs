//! The account-creation confirmation email body.
//!
//! The one template rendered by the library itself: a fixed HTML shell with
//! the recipient's name substituted in the greeting.

use vstd::prelude::*;

verus! {

pub const CONFIRM_ACCOUNT_CREATION_HEAD: &'static str = "<html><body><h1>Welcome, ";

pub const CONFIRM_ACCOUNT_CREATION_TAIL: &'static str =
    "!</h1><p>Your account has been created. Use the code we sent you to confirm it.</p></body></html>";

/// The confirmation email body for a recipient name.
pub open spec fn spec_confirm_account_creation_email(name: Seq<char>) -> Seq<char> {
    "<html><body><h1>Welcome, "@ + name
        + "!</h1><p>Your account has been created. Use the code we sent you to confirm it.</p></body></html>"@
}

pub fn generate_confirm_account_creation_email(name: &str) -> (r: String)
    ensures
        r@ == spec_confirm_account_creation_email(name@),
{
    let mut body = String::from_str(CONFIRM_ACCOUNT_CREATION_HEAD);
    body.append(name);
    body.append(CONFIRM_ACCOUNT_CREATION_TAIL);
    body
}

} // verus!
