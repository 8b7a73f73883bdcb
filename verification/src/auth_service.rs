//! Session establishment and the refresh-rotation protocol.
//!
//! Login checks the password against a confirmed account and installs a
//! fresh refresh credential; every request to a protected endpoint is then
//! classified as authenticated (live access token), rotated (expired or
//! absent access token redeemed through a live refresh credential), or
//! rejected. A rotation installs the replacement credential before the old
//! one is deleted, so an interrupted rotation never leaves a session with
//! neither credential working.
//!
//! A rotation's lookup, install and delete are three separate store
//! operations, not one atomic step. The contracts here describe one
//! rotation running with exclusive access to the state, which the caller
//! must provide (the transport layer holds the state behind a lock); under
//! that exclusion, of two requests presenting the same stale credential the
//! first wins and the second fails its lookup.

use vstd::prelude::*;

use crate::codes::generate_refresh_token;
use crate::constants::{BEARER_EXPIRATION_SECONDS, REFRESH_EXPIRATION_SECONDS};
use crate::errors::AuthError;
use crate::jwt::{decode_jwt, encode_jwt, jwt_claims, JwtClaims};
use crate::keys::{format_refresh_token_key, lemma_refresh_key_injective, spec_refresh_token_key};
use crate::models::{opt_view, AuthResponse, LoginUser};
use crate::numbers::{all_digits, dec_digits, dec_value, format_u64, parse_i32};
use crate::password::{password_matches, verify_password};
use crate::state::AuthState;
use crate::strutil::str_eq;

verus! {

/// Whether `uid` names a confirmed account with this email whose stored hash
/// matches the presented password: exactly the accounts login accepts.
pub open spec fn spec_login_acceptable(
    users: crate::users::UserTable,
    email: Seq<char>,
    password: Seq<char>,
    uid: int,
) -> bool {
    &&& users.contents().contains_key(uid)
    &&& users.contents()[uid].email == email
    &&& users.contents()[uid].is_confirmed
    &&& password_matches(password, users.contents()[uid].password_hash)
}

#[derive(Debug)]
pub struct LoginOutcome {
    pub response: AuthResponse,
    pub bearer_token: String,
    pub refresh_token: String,
}

/// Establishes a session from an email and password.
///
/// Fails with an authentication failure exactly when no confirmed account
/// with a matching password owns the email; on success it mints an access
/// token for the account and installs a fresh refresh credential resolving
/// to the account id.
pub fn login_user(state: &mut AuthState, user_data: &LoginUser, now: u64) -> (r: Result<
    LoginOutcome,
    AuthError,
>)
    requires
        old(state).wf(),
        now + REFRESH_EXPIRATION_SECONDS <= u64::MAX,
    ensures
        final(state).wf(),
        final(state).users == old(state).users,
        final(state).secret == old(state).secret,
        match r {
            Ok(out) => {
                let uid = out.response.id as int;
                &&& spec_login_acceptable(
                    old(state).users,
                    user_data.email@,
                    user_data.password@,
                    uid,
                )
                &&& out.response.name@ == old(state).users.contents()[uid].name
                &&& out.response.email@ == user_data.email@
                &&& opt_view(out.response.phone) == old(state).users.contents()[uid].phone
                &&& jwt_claims(old(state).secret@, out.bearer_token@) == Some(
                    (
                        uid,
                        old(state).users.contents()[uid].name,
                        user_data.email@,
                        now as int,
                        now as int + BEARER_EXPIRATION_SECONDS as int,
                    ),
                )
                &&& out.refresh_token@.len() == 25
                &&& final(state).store.contents() == old(state).store.contents().insert(
                    spec_refresh_token_key(out.refresh_token@),
                    (dec_digits(uid), now as int + REFRESH_EXPIRATION_SECONDS as int),
                )
            },
            Err(e) => {
                &&& *final(state) == *old(state)
                &&& !exists|uid: int|
                    #[trigger] spec_login_acceptable(
                        old(state).users,
                        user_data.email@,
                        user_data.password@,
                        uid,
                    )
                &&& (e == AuthError::AuthenticationFailure || e == AuthError::HashingFailure)
                &&& (e == AuthError::HashingFailure ==> old(state).users.spec_email_taken(
                    user_data.email@,
                ) && old(state).users.contents()[old(state).users.spec_id_for_email(
                    user_data.email@,
                )].is_confirmed)
            },
        },
{
    let user = match state.users.get_user_by_email(user_data.email.as_str()) {
        Ok(u) => u,
        Err(_) => {
            proof {
                if exists|uid: int|
                    #[trigger] spec_login_acceptable(
                        state.users,
                        user_data.email@,
                        user_data.password@,
                        uid,
                    ) {
                    let uid = choose|uid: int|
                        #[trigger] spec_login_acceptable(
                            state.users,
                            user_data.email@,
                            user_data.password@,
                            uid,
                        );
                    assert(state.users.spec_email_taken(user_data.email@));
                }
            }
            return Err(AuthError::AuthenticationFailure);
        },
    };
    let (id, name, email, password_hash, phone, is_confirmed) = user;
    if !is_confirmed {
        proof {
            if exists|uid: int|
                #[trigger] spec_login_acceptable(
                    state.users,
                    user_data.email@,
                    user_data.password@,
                    uid,
                ) {
                let uid = choose|uid: int|
                    #[trigger] spec_login_acceptable(
                        state.users,
                        user_data.email@,
                        user_data.password@,
                        uid,
                    );
                state.users.lemma_email_determines_id(uid, id as int);
            }
        }
        return Err(AuthError::AuthenticationFailure);
    }
    let verified = match verify_password(user_data.password.as_str(), password_hash.as_str()) {
        Ok(b) => b,
        Err(e) => {
            proof {
                assert(state.users.contents()[id as int].email == user_data.email@);
                assert(state.users.spec_email_taken(user_data.email@));
                state.users.lemma_id_for_email(id as int);
                if exists|uid: int|
                    #[trigger] spec_login_acceptable(
                        state.users,
                        user_data.email@,
                        user_data.password@,
                        uid,
                    ) {
                    let uid = choose|uid: int|
                        #[trigger] spec_login_acceptable(
                            state.users,
                            user_data.email@,
                            user_data.password@,
                            uid,
                        );
                    state.users.lemma_email_determines_id(uid, id as int);
                }
            }
            return Err(e);
        },
    };
    if !verified {
        proof {
            if exists|uid: int|
                #[trigger] spec_login_acceptable(
                    state.users,
                    user_data.email@,
                    user_data.password@,
                    uid,
                ) {
                let uid = choose|uid: int|
                    #[trigger] spec_login_acceptable(
                        state.users,
                        user_data.email@,
                        user_data.password@,
                        uid,
                    );
                state.users.lemma_email_determines_id(uid, id as int);
            }
        }
        return Err(AuthError::AuthenticationFailure);
    }
    let new_jwt = match encode_jwt(state.secret.as_str(), &id, name.as_str(), email.as_str(), now) {
        Ok(t) => t,
        Err(_) => {
            return Err(AuthError::InternalFailure);
        },
    };
    let new_refresh_token = generate_refresh_token();
    let new_refresh_token_key = format_refresh_token_key(new_refresh_token.as_str());
    let id_str = format_u64(id as u64);
    state.store.set_token(
        new_refresh_token_key.as_str(),
        id_str.as_str(),
        REFRESH_EXPIRATION_SECONDS,
        now,
    );
    proof {
        assert(spec_login_acceptable(
            old(state).users,
            user_data.email@,
            user_data.password@,
            id as int,
        ));
    }
    Ok(LoginOutcome { response: AuthResponse { id, name, phone, email }, bearer_token: new_jwt, refresh_token: new_refresh_token })
}

/// Ends a session by deleting the presented refresh credential from the
/// store; the transport layer also clears both cookies.
pub fn logout_user(state: &mut AuthState, refresh_token: &Option<String>) -> (r: Result<
    (),
    AuthError,
>)
    requires
        old(state).wf(),
    ensures
        final(state).wf(),
        final(state).users == old(state).users,
        final(state).secret == old(state).secret,
        match r {
            Ok(_) => refresh_token matches Some(rt) && final(state).store.contents() == old(
                state,
            ).store.contents().remove(spec_refresh_token_key(rt@)),
            Err(e) => {
                &&& e == AuthError::InternalFailure
                &&& refresh_token is None
                &&& *final(state) == *old(state)
            },
        },
{
    match refresh_token {
        Some(rt) => {
            let formatted_refresh_token_key = format_refresh_token_key(rt.as_str());
            state.store.remove_token(formatted_refresh_token_key.as_str());
            Ok(())
        },
        None => Err(AuthError::InternalFailure),
    }
}

/// Whether the presented refresh credential is live at `now` and holds a
/// decimal user id: exactly the credentials a rotation accepts for lookup.
pub open spec fn spec_credential_resolvable(pre: AuthState, presented: Seq<char>, now: int) -> bool {
    pre.store.spec_live_value(spec_refresh_token_key(presented), now) matches Some(v) && v.len()
        > 0 && all_digits(v) && dec_value(v) <= i32::MAX as int
}

/// The user id a resolvable refresh credential names.
pub open spec fn spec_credential_uid(pre: AuthState, presented: Seq<char>, now: int) -> int {
    dec_value(pre.store.spec_live_value(spec_refresh_token_key(presented), now)->0)
}

#[derive(Debug)]
pub struct RotationOutcome {
    pub claims: JwtClaims,
    pub bearer_token: String,
    pub refresh_token: String,
}

/// What a successful rotation guarantees: the presented credential resolved
/// to the account, the minted token carries that account's identity for one
/// access lifetime from `now`, and the store maps the fresh credential to
/// the account while the presented one is gone (unless, by chance, they are
/// the same string).
pub open spec fn spec_rotation_ok(
    pre: AuthState,
    post: AuthState,
    presented: Seq<char>,
    out_claims: JwtClaims,
    bearer: Seq<char>,
    fresh: Seq<char>,
    now: int,
) -> bool {
    let old_key = spec_refresh_token_key(presented);
    let new_key = spec_refresh_token_key(fresh);
    let uid = out_claims.id as int;
    &&& (pre.store.spec_live_value(old_key, now) matches Some(v) && all_digits(v) && dec_value(v)
        == uid)
    &&& pre.users.contents().contains_key(uid)
    &&& out_claims.name@ == pre.users.contents()[uid].name
    &&& out_claims.email@ == pre.users.contents()[uid].email
    &&& out_claims.iat as int == now
    &&& out_claims.exp as int == now + BEARER_EXPIRATION_SECONDS as int
    &&& jwt_claims(pre.secret@, bearer) == Some(out_claims@)
    &&& fresh.len() == 25
    &&& (if new_key == old_key {
        post.store.contents() == pre.store.contents().insert(
            new_key,
            (dec_digits(uid), now + REFRESH_EXPIRATION_SECONDS as int),
        )
    } else {
        post.store.contents() == pre.store.contents().insert(
            new_key,
            (dec_digits(uid), now + REFRESH_EXPIRATION_SECONDS as int),
        ).remove(old_key)
    })
}

/// Redeems a refresh credential: looks it up, re-fetches the account, mints
/// a fresh access token and refresh credential, installs the new credential
/// and then deletes the presented one.
///
/// Fails with an authentication failure exactly when the presented
/// credential is missing, expired, or does not resolve to a user id.
pub fn rotate_refresh_credential(state: &mut AuthState, refresh_token: &str, now: u64) -> (r:
    Result<RotationOutcome, AuthError>)
    requires
        old(state).wf(),
        now + REFRESH_EXPIRATION_SECONDS <= u64::MAX,
    ensures
        final(state).wf(),
        final(state).users == old(state).users,
        final(state).secret == old(state).secret,
        match r {
            Ok(out) => spec_rotation_ok(
                *old(state),
                *final(state),
                refresh_token@,
                out.claims,
                out.bearer_token@,
                out.refresh_token@,
                now as int,
            ),
            Err(e) => {
                &&& *final(state) == *old(state)
                &&& (e == AuthError::AuthenticationFailure || e == AuthError::InternalFailure)
                &&& (e == AuthError::AuthenticationFailure <==> !spec_credential_resolvable(
                    *old(state),
                    refresh_token@,
                    now as int,
                ))
                &&& (e == AuthError::InternalFailure <==> (spec_credential_resolvable(
                    *old(state),
                    refresh_token@,
                    now as int,
                ) && !old(state).users.contents().contains_key(
                    spec_credential_uid(*old(state), refresh_token@, now as int),
                )))
            },
        },
{
    let formatted_refresh_token_key = format_refresh_token_key(refresh_token);
    let token_payload_user_id = match state.store.get_token(
        formatted_refresh_token_key.as_str(),
        now,
    ) {
        Some(v) => v,
        None => {
            return Err(AuthError::AuthenticationFailure);
        },
    };
    let uid = match parse_i32(token_payload_user_id.as_str()) {
        Some(v) => v,
        None => {
            return Err(AuthError::AuthenticationFailure);
        },
    };
    let user_data = match state.users.get_user_by_id(&uid) {
        Ok(u) => u,
        Err(_) => {
            return Err(AuthError::InternalFailure);
        },
    };
    let (id, name, email, _phone, _is_confirmed) = user_data;
    let new_jwt = match encode_jwt(state.secret.as_str(), &id, name.as_str(), email.as_str(), now) {
        Ok(t) => t,
        Err(_) => {
            return Err(AuthError::InternalFailure);
        },
    };
    let new_refresh_token = generate_refresh_token();
    let new_refresh_token_key = format_refresh_token_key(new_refresh_token.as_str());
    let id_str = format_u64(id as u64);
    state.store.set_token(
        new_refresh_token_key.as_str(),
        id_str.as_str(),
        REFRESH_EXPIRATION_SECONDS,
        now,
    );
    if !str_eq(new_refresh_token_key.as_str(), formatted_refresh_token_key.as_str()) {
        state.store.remove_token(formatted_refresh_token_key.as_str());
    }
    let claims = JwtClaims { exp: now + BEARER_EXPIRATION_SECONDS, iat: now, id, name, email };
    Ok(RotationOutcome { claims, bearer_token: new_jwt, refresh_token: new_refresh_token })
}

/// Law: after a successful rotation whose fresh credential differs from the
/// presented one, looking the presented credential up finds nothing, and the
/// fresh credential resolves to the same user id.
pub proof fn lemma_rotation_single_use(
    pre: AuthState,
    post: AuthState,
    presented: Seq<char>,
    out_claims: JwtClaims,
    bearer: Seq<char>,
    fresh: Seq<char>,
    now: int,
)
    requires
        spec_rotation_ok(pre, post, presented, out_claims, bearer, fresh, now),
        presented != fresh,
    ensures
        post.store.spec_live_value(spec_refresh_token_key(presented), now) is None,
        post.store.spec_live_value(spec_refresh_token_key(fresh), now) == Some(
            dec_digits(out_claims.id as int),
        ),
{
    lemma_refresh_key_injective(presented, fresh);
}

/// The route table of endpoints behind the rotation protocol.
pub open spec fn spec_is_protected_route(path: Seq<char>, method: Seq<char>) -> bool {
    ||| (path == "/api/user"@ && (method == "GET"@ || method == "PATCH"@ || method == "DELETE"@))
    ||| (path == "/api/auth/logout"@ && method == "POST"@)
}

pub fn is_protected_route(path: &str, method: &str) -> (b: bool)
    ensures
        b == spec_is_protected_route(path@, method@),
{
    (str_eq(path, "/api/user") && (str_eq(method, "GET") || str_eq(method, "PATCH") || str_eq(
        method,
        "DELETE",
    ))) || (str_eq(path, "/api/auth/logout") && str_eq(method, "POST"))
}

/// Whether the presented access token alone authenticates the request at
/// time `now`: structurally valid, correctly signed, and unexpired.
pub open spec fn spec_bearer_authenticates(
    state: AuthState,
    bearer: Option<String>,
    now: int,
) -> bool {
    match bearer {
        Some(b) => jwt_claims(state.secret@, b@) matches Some(c) && c.4 > now,
        None => false,
    }
}

/// How a request fared against the rotation protocol.
#[derive(Debug)]
pub enum AuthOutcome {
    /// Preflight or unprotected route: passed through unauthenticated.
    Passthrough,
    /// The access token was live; nothing changes.
    Authenticated { claims: JwtClaims },
    /// The refresh credential was redeemed: a new cookie pair goes out.
    Rotated { claims: JwtClaims, bearer_token: String, refresh_token: String },
}

/// Drives the refresh-rotation state machine once for an inbound request.
///
/// Preflight requests and unprotected routes bypass the protocol. Otherwise
/// a live access token authenticates the request unchanged; failing that, a
/// present refresh credential is redeemed through a rotation; failing both,
/// the request is rejected.
pub fn authenticate_request(
    state: &mut AuthState,
    path: &str,
    method: &str,
    bearer_cookie: &Option<String>,
    refresh_cookie: &Option<String>,
    now: u64,
) -> (r: Result<AuthOutcome, AuthError>)
    requires
        old(state).wf(),
        now + REFRESH_EXPIRATION_SECONDS <= u64::MAX,
    ensures
        final(state).wf(),
        final(state).users == old(state).users,
        final(state).secret == old(state).secret,
        match r {
            Ok(out) => match out {
                AuthOutcome::Passthrough => {
                    &&& (method@ == "OPTIONS"@ || !spec_is_protected_route(path@, method@))
                    &&& *final(state) == *old(state)
                },
                AuthOutcome::Authenticated { claims } => {
                    &&& method@ != "OPTIONS"@ && spec_is_protected_route(path@, method@)
                    &&& *final(state) == *old(state)
                    &&& bearer_cookie matches Some(b) && jwt_claims(old(state).secret@, b@)
                        == Some(claims@)
                    &&& claims.exp > now
                },
                AuthOutcome::Rotated { claims, bearer_token, refresh_token } => {
                    &&& method@ != "OPTIONS"@ && spec_is_protected_route(path@, method@)
                    &&& !spec_bearer_authenticates(*old(state), *bearer_cookie, now as int)
                    &&& refresh_cookie matches Some(rt) && spec_rotation_ok(
                        *old(state),
                        *final(state),
                        rt@,
                        claims,
                        bearer_token@,
                        refresh_token@,
                        now as int,
                    )
                },
            },
            Err(e) => {
                &&& method@ != "OPTIONS"@ && spec_is_protected_route(path@, method@)
                &&& !spec_bearer_authenticates(*old(state), *bearer_cookie, now as int)
                &&& *final(state) == *old(state)
                &&& (e == AuthError::AuthenticationFailure || e == AuthError::InternalFailure)
                &&& (refresh_cookie is None ==> e == AuthError::AuthenticationFailure)
                &&& (refresh_cookie matches Some(rt) ==> {
                    &&& (e == AuthError::AuthenticationFailure <==> !spec_credential_resolvable(
                        *old(state),
                        rt@,
                        now as int,
                    ))
                    &&& (e == AuthError::InternalFailure <==> (spec_credential_resolvable(
                        *old(state),
                        rt@,
                        now as int,
                    ) && !old(state).users.contents().contains_key(
                        spec_credential_uid(*old(state), rt@, now as int),
                    )))
                })
            },
        },
{
    if str_eq(method, "OPTIONS") {
        return Ok(AuthOutcome::Passthrough);
    }
    if !is_protected_route(path, method) {
        return Ok(AuthOutcome::Passthrough);
    }
    let live_claims: Option<JwtClaims> = match bearer_cookie {
        Some(bearer) => match decode_jwt(state.secret.as_str(), bearer.as_str()) {
            Ok(claims) => {
                if claims.exp > now {
                    Some(claims)
                } else {
                    None
                }
            },
            Err(_) => None,
        },
        None => None,
    };
    if let Some(claims) = live_claims {
        return Ok(AuthOutcome::Authenticated { claims });
    }
    match refresh_cookie {
        Some(rt) => match rotate_refresh_credential(state, rt.as_str(), now) {
            Ok(out) => Ok(
                AuthOutcome::Rotated {
                    claims: out.claims,
                    bearer_token: out.bearer_token,
                    refresh_token: out.refresh_token,
                },
            ),
            Err(e) => Err(e),
        },
        None => Err(AuthError::AuthenticationFailure),
    }
}

#[derive(Debug)]
pub struct RefreshOutcome {
    pub response: AuthResponse,
    pub bearer_token: String,
    pub refresh_token: String,
}

/// Redeems the refresh credential presented to the dedicated refresh
/// endpoint and answers with the account identity and a fresh cookie pair.
pub fn refresh(state: &mut AuthState, refresh_token: &Option<String>, now: u64) -> (r: Result<
    RefreshOutcome,
    AuthError,
>)
    requires
        old(state).wf(),
        now + REFRESH_EXPIRATION_SECONDS <= u64::MAX,
    ensures
        final(state).wf(),
        final(state).users == old(state).users,
        final(state).secret == old(state).secret,
        match r {
            Ok(out) => {
                &&& refresh_token matches Some(rt) && spec_rotation_ok(
                    *old(state),
                    *final(state),
                    rt@,
                    JwtClaims {
                        exp: (now + BEARER_EXPIRATION_SECONDS) as u64,
                        iat: now,
                        id: out.response.id,
                        name: out.response.name,
                        email: out.response.email,
                    },
                    out.bearer_token@,
                    out.refresh_token@,
                    now as int,
                )
                &&& out.response.phone is None
            },
            Err(e) => {
                &&& *final(state) == *old(state)
                &&& (refresh_token is None ==> e == AuthError::InternalFailure)
                &&& (e == AuthError::AuthenticationFailure || e == AuthError::InternalFailure)
                &&& (refresh_token matches Some(rt) ==> {
                    &&& (e == AuthError::AuthenticationFailure <==> !spec_credential_resolvable(
                        *old(state),
                        rt@,
                        now as int,
                    ))
                    &&& (e == AuthError::InternalFailure <==> (spec_credential_resolvable(
                        *old(state),
                        rt@,
                        now as int,
                    ) && !old(state).users.contents().contains_key(
                        spec_credential_uid(*old(state), rt@, now as int),
                    )))
                })
            },
        },
{
    match refresh_token {
        Some(rt) => match rotate_refresh_credential(state, rt.as_str(), now) {
            Ok(out) => {
                let RotationOutcome { claims, bearer_token, refresh_token: fresh } = out;
                let JwtClaims { exp: _, iat: _, id, name, email } = claims;
                Ok(
                    RefreshOutcome {
                        response: AuthResponse { id, name, phone: None, email },
                        bearer_token,
                        refresh_token: fresh,
                    },
                )
            },
            Err(e) => Err(e),
        },
        None => Err(AuthError::InternalFailure),
    }
}

} // verus!
