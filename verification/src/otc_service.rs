//! Redemption of one-time codes: applies the deferred account mutation
//! bound to a code exactly once.
//!
//! A redemption looks the code up in the store, applies the mutation it
//! carries, and only then deletes the entry, so a failed mutation leaves
//! the code redeemable until its time-to-live elapses, while a successful
//! redemption removes it for good.

use vstd::prelude::*;

use crate::constants::BEARER_EXPIRATION_SECONDS;
use crate::errors::AuthError;
use crate::jwt::{encode_jwt, jwt_claims};
use crate::keys::{format_otc_key, spec_otc_key};
use crate::models::{opt_view, AuthResponse, OtcRequest};
use crate::numbers::{dec_digits, format_u64};
use crate::otc::{parse_otc_payload, spec_parse_payload, OtcPayload, OtcPayloadAction, OtcPayloadV};
use crate::state::AuthState;
use crate::users::UserV;

verus! {

/// What a redemption hands back to the transport layer.
#[derive(Debug)]
pub struct OtcOutcome {
    /// The resulting identity, present for account updates.
    pub response: Option<AuthResponse>,
    /// A fresh access token reflecting the updated identity, minted for
    /// account updates.
    pub new_bearer_token: Option<String>,
    /// Whether the session cookies must be cleared (account deletion).
    pub delete_session_cookies: bool,
    /// Which deferred action ran, for the confirmation email.
    pub action: OtcPayloadAction,
    /// The address to notify.
    pub notify_email: String,
}

/// What a successful redemption of payload `p` guarantees. Every action
/// removes the code's entry; deletion additionally purges every store entry
/// resolving to the deleted account (its refresh and reset credentials).
pub open spec fn spec_redeem_ok(
    p: OtcPayloadV,
    pre: AuthState,
    post: AuthState,
    out: OtcOutcome,
    otc: Seq<char>,
    now: int,
) -> bool {
    let uid = p.user_id;
    &&& pre.users.contents().contains_key(uid)
    &&& out.action == p.action
    &&& out.notify_email@ == p.email
    &&& match p.action {
        OtcPayloadAction::ConfirmAccount => {
            &&& post.store.contents() == pre.store.contents().remove(spec_otc_key(otc))
            &&& post.users.contents() == pre.users.contents().insert(
                uid,
                UserV { is_confirmed: true, ..pre.users.contents()[uid] },
            )
            &&& out.response is None
            &&& out.new_bearer_token is None
            &&& !out.delete_session_cookies
        },
        OtcPayloadAction::DeleteAccount => {
            &&& post.users.contents() == pre.users.contents().remove(uid)
            &&& (forall|k: Seq<char>|
                #[trigger] post.store.contents().contains_key(k) <==> (
                pre.store.contents().contains_key(k) && k != spec_otc_key(otc)
                    && pre.store.contents()[k].0 != dec_digits(uid)))
            &&& (forall|k: Seq<char>|
                #[trigger] post.store.contents().contains_key(k)
                    ==> post.store.contents()[k] == pre.store.contents()[k])
            &&& out.response is None
            &&& out.new_bearer_token is None
            &&& out.delete_session_cookies
        },
        OtcPayloadAction::UpdateAccount => {
            &&& post.users.contents() == pre.users.contents().insert(
                uid,
                UserV {
                    name: p.name,
                    email: p.email,
                    password_hash: match p.password_hash {
                        Some(h) => h,
                        None => pre.users.contents()[uid].password_hash,
                    },
                    ..pre.users.contents()[uid]
                },
            )
            &&& out.new_bearer_token matches Some(t) && jwt_claims(pre.secret@, t@) == Some(
                (uid, p.name, p.email, now, now + BEARER_EXPIRATION_SECONDS as int),
            )
            &&& post.store.contents() == pre.store.contents().remove(spec_otc_key(otc))
            &&& out.response matches Some(resp) && resp.id as int == uid && resp.name@ == p.name
                && resp.email@ == p.email && opt_view(resp.phone)
                == pre.users.contents()[uid].phone
            &&& !out.delete_session_cookies
        },
    }
}

/// Why a live store entry can fail to redeem: the stored value is not a
/// payload, the account it names no longer exists, or an update whose
/// carried email collides with another account's address. Anything else
/// succeeds.
pub open spec fn spec_redeem_blocked(users: crate::users::UserTable, v: Seq<char>) -> bool {
    match spec_parse_payload(v) {
        None => true,
        Some(p) => !users.contents().contains_key(p.user_id) || (p.action
            == OtcPayloadAction::UpdateAccount && users.spec_email_conflict(p.user_id, p.email)),
    }
}

/// Redeems a one-time code.
///
/// Fails with an authentication failure exactly when the code is absent or
/// expired; a malformed stored payload or a failed mutation is an internal
/// failure that leaves the store untouched, so the code stays redeemable
/// until its time-to-live elapses. On success the entry is deleted, so the
/// code cannot be redeemed twice.
pub fn otc_user(state: &mut AuthState, params: &OtcRequest, now: u64) -> (r: Result<
    OtcOutcome,
    AuthError,
>)
    requires
        old(state).wf(),
        now + BEARER_EXPIRATION_SECONDS <= u64::MAX,
    ensures
        final(state).wf(),
        final(state).secret == old(state).secret,
        match r {
            Ok(out) => old(state).store.spec_live_value(spec_otc_key(params.otc@), now as int)
                matches Some(v) && spec_parse_payload(v) matches Some(p) && !spec_redeem_blocked(
                old(state).users,
                v,
            ) && spec_redeem_ok(
                p,
                *old(state),
                *final(state),
                out,
                params.otc@,
                now as int,
            ),
            Err(e) => {
                let live = old(state).store.spec_live_value(spec_otc_key(params.otc@), now as int);
                &&& *final(state) == *old(state)
                &&& (e == AuthError::AuthenticationFailure <==> live is None)
                &&& (e == AuthError::AuthenticationFailure || e == AuthError::InternalFailure)
                &&& (live matches Some(v) ==> (e == AuthError::InternalFailure
                    <==> spec_redeem_blocked(old(state).users, v)))
            },
        },
{
    let otc_key = format_otc_key(params.otc.as_str());
    let token_payload = match state.store.get_token(otc_key.as_str(), now) {
        Some(v) => v,
        None => {
            return Err(AuthError::AuthenticationFailure);
        },
    };
    let payload = match parse_otc_payload(token_payload.as_str()) {
        Some(p) => p,
        None => {
            return Err(AuthError::InternalFailure);
        },
    };
    let OtcPayload { otc: _, user_id, action, name, phone: _, email, password_hash } = payload;
    let mut response: Option<AuthResponse> = None;
    let mut new_bearer_token: Option<String> = None;
    let mut delete_session_cookies = false;
    match action {
        OtcPayloadAction::UpdateAccount => {
            let current = match state.users.get_user_by_id(&user_id) {
                Ok(u) => u,
                Err(_) => {
                    return Err(AuthError::InternalFailure);
                },
            };
            if state.users.update_user_email_and_name(
                &user_id,
                name.as_str(),
                email.as_str(),
            ).is_err() {
                return Err(AuthError::InternalFailure);
            }
            if let Some(password) = &password_hash {
                if state.users.update_user_password(&user_id, password.as_str()).is_err() {
                    return Err(AuthError::InternalFailure);
                }
            }
            proof {
                let uid = user_id as int;
                let pre = old(state).users.contents();
                assert(state.users.contents() =~= pre.insert(
                    uid,
                    UserV {
                        name: name@,
                        email: email@,
                        password_hash: match password_hash {
                            Some(h) => h@,
                            None => pre[uid].password_hash,
                        },
                        ..pre[uid]
                    },
                ));
                assert(!spec_redeem_blocked(old(state).users, token_payload@));
            }
            let new_jwt = match encode_jwt(
                state.secret.as_str(),
                &user_id,
                name.as_str(),
                email.as_str(),
                now,
            ) {
                Ok(t) => t,
                Err(_) => {
                    return Err(AuthError::InternalFailure);
                },
            };
            new_bearer_token = Some(new_jwt);
            let (_, _, _, row_phone, _) = current;
            response = Some(
                AuthResponse {
                    id: user_id,
                    name: name.clone(),
                    email: email.clone(),
                    phone: row_phone,
                },
            );
        },
        OtcPayloadAction::DeleteAccount => {
            delete_session_cookies = true;
            if state.users.delete_user_by_id(&user_id).is_err() {
                return Err(AuthError::InternalFailure);
            }
            // best-effort: every credential resolving to the deleted account
            // (its refresh and reset entries) is invalidated with it
            let id_str = format_u64(user_id as u64);
            state.store.remove_tokens_with_value(id_str.as_str());
        },
        OtcPayloadAction::ConfirmAccount => {
            if state.users.confirm_user(&user_id).is_err() {
                return Err(AuthError::InternalFailure);
            }
        },
    }
    state.store.remove_token(otc_key.as_str());
    Ok(
        OtcOutcome {
            response,
            new_bearer_token,
            delete_session_cookies,
            action,
            notify_email: email,
        },
    )
}

/// Law: a successful redemption removes the entry, so the same code no
/// longer resolves at any later time.
pub proof fn lemma_redeemed_code_gone(
    p: OtcPayloadV,
    pre: AuthState,
    post: AuthState,
    out: OtcOutcome,
    otc: Seq<char>,
    now: int,
    later: int,
)
    requires
        spec_redeem_ok(p, pre, post, out, otc, now),
    ensures
        post.store.spec_live_value(spec_otc_key(otc), later) is None,
{
}

} // verus!
