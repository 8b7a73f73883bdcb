//! Account lifecycle endpoints: registration, account update, account
//! deletion, and the password-reset flow.
//!
//! Sensitive mutations are never applied directly: they are deferred behind
//! a one-time code whose payload is installed in the token store, for the
//! transport layer to deliver out-of-band. Only non-sensitive fields (name,
//! phone) are written immediately.

use vstd::prelude::*;

use crate::codes::{all_code_chars, create_otc};
use crate::constants::{OTC_EXPIRATION_SECONDS, PASSWORD_RESET_TOKEN_EXPIRATION_SECONDS};
use crate::errors::AuthError;
use crate::keys::{
    format_otc_key, format_reset_token_key, spec_otc_key, spec_reset_token_key,
};
use crate::models::{
    opt_view, AuthResponse, PasswordResetToken, PasswordResetUser, RegisterUser,
    ResetPasswordTokenUser, UpdateUser,
};
use crate::numbers::{all_digits, dec_digits, dec_value, format_u64, parse_i32};
use crate::otc::{
    spec_encode_payload, spec_parse_payload, OtcPayload, OtcPayloadAction, OtcPayloadV,
};
use crate::password::{hash_password, password_matches};
use crate::jwt::JwtClaims;
use crate::state::AuthState;
use crate::strutil::clone_opt_string;
use crate::users::UserV;
use crate::validation::{
    spec_validate_password_reset, spec_validate_register, spec_validate_update,
    validate_password_reset_user_data, validate_register_user_data, validate_update_user_data,
};

verus! {

/// The confirm-account payload registration installs.
pub open spec fn spec_confirm_payload(
    otc: Seq<char>,
    uid: int,
    name: Seq<char>,
    email: Seq<char>,
) -> OtcPayloadV {
    OtcPayloadV {
        otc,
        user_id: uid,
        action: OtcPayloadAction::ConfirmAccount,
        name,
        phone: None,
        email,
        password_hash: None,
    }
}

#[derive(Debug)]
pub struct RegisterOutcome {
    pub response: AuthResponse,
    /// The confirm-account code, delivered to the new address out-of-band.
    pub otc: String,
}

/// Registers an unconfirmed account and issues its confirm-account code.
///
/// Rejects invalid input as a validation failure and an email already in
/// use as a conflict, exactly; on success a fresh account row exists whose
/// hash matches the password, and the store holds the code's payload for
/// one code lifetime.
pub fn register_user(state: &mut AuthState, user_data: &RegisterUser, now: u64) -> (r: Result<
    RegisterOutcome,
    AuthError,
>)
    requires
        old(state).wf(),
        now + OTC_EXPIRATION_SECONDS <= u64::MAX,
    ensures
        final(state).wf(),
        final(state).secret == old(state).secret,
        match r {
            Ok(out) => {
                let uid = out.response.id as int;
                let pv = spec_confirm_payload(out.otc@, uid, user_data.name@, user_data.email@);
                &&& spec_validate_register(
                    user_data.name@,
                    user_data.email@,
                    user_data.password@,
                    user_data.password_confirm@,
                ) is None
                &&& !old(state).users.spec_email_taken(user_data.email@)
                &&& uid == old(state).users.spec_next_id()
                &&& final(state).users.contents().contains_key(uid)
                &&& final(state).users.contents() == old(state).users.contents().insert(
                    uid,
                    UserV {
                        name: user_data.name@,
                        email: user_data.email@,
                        password_hash: final(state).users.contents()[uid].password_hash,
                        phone: None,
                        is_confirmed: false,
                    },
                )
                &&& password_matches(
                    user_data.password@,
                    final(state).users.contents()[uid].password_hash,
                )
                &&& out.response.name@ == user_data.name@
                &&& out.response.email@ == user_data.email@
                &&& out.response.phone is None
                &&& out.otc@.len() == 6
                &&& all_code_chars(out.otc@)
                &&& final(state).store.contents() == old(state).store.contents().insert(
                    spec_otc_key(out.otc@),
                    (spec_encode_payload(pv), now as int + OTC_EXPIRATION_SECONDS as int),
                )
                &&& spec_parse_payload(spec_encode_payload(pv)) == Some(pv)
            },
            Err(e) => {
                &&& *final(state) == *old(state)
                &&& (e == AuthError::ValidationFailure <==> spec_validate_register(
                    user_data.name@,
                    user_data.email@,
                    user_data.password@,
                    user_data.password_confirm@,
                ) is Some)
                &&& (e == AuthError::ConflictFailure <==> (spec_validate_register(
                    user_data.name@,
                    user_data.email@,
                    user_data.password@,
                    user_data.password_confirm@,
                ) is None && old(state).users.spec_email_taken(user_data.email@)))
                &&& (e == AuthError::InternalFailure ==> old(state).users.spec_next_id()
                    == i32::MAX)
                &&& (e == AuthError::ValidationFailure || e == AuthError::ConflictFailure || e
                    == AuthError::HashingFailure || e == AuthError::InternalFailure)
            },
        },
{
    if validate_register_user_data(user_data).is_some() {
        return Err(AuthError::ValidationFailure);
    }
    if state.users.email_taken(user_data.email.as_str()) {
        return Err(AuthError::ConflictFailure);
    }
    let password_hash = match hash_password(user_data.password.as_str()) {
        Ok(h) => h,
        Err(e) => {
            return Err(e);
        },
    };
    let created_user_id = match state.users.create_user(
        user_data.name.as_str(),
        user_data.email.as_str(),
        password_hash.as_str(),
    ) {
        Ok(id) => id,
        Err(e) => {
            return Err(e);
        },
    };
    let otc = create_otc();
    let otc_key = format_otc_key(otc.as_str());
    let otc_payload = OtcPayload {
        otc: otc.clone(),
        user_id: created_user_id,
        action: OtcPayloadAction::ConfirmAccount,
        name: user_data.name.clone(),
        email: user_data.email.clone(),
        password_hash: None,
        phone: None,
    };
    let otc_payload_str = crate::otc::serialize_otc_payload(&otc_payload);
    state.store.set_token(
        otc_key.as_str(),
        otc_payload_str.as_str(),
        OTC_EXPIRATION_SECONDS,
        now,
    );
    Ok(
        RegisterOutcome {
            response: AuthResponse {
                id: created_user_id,
                name: user_data.name.clone(),
                email: user_data.email.clone(),
                phone: None,
            },
            otc,
        },
    )
}

/// The update-account payload a deferred update installs.
pub open spec fn spec_update_payload(
    otc: Seq<char>,
    uid: int,
    name: Seq<char>,
    phone: Option<Seq<char>>,
    email: Seq<char>,
    password_hash: Option<Seq<char>>,
) -> OtcPayloadV {
    OtcPayloadV {
        otc,
        user_id: uid,
        action: OtcPayloadAction::UpdateAccount,
        name,
        phone,
        email,
        password_hash,
    }
}

/// The store change a deferred update makes: the payload for the given
/// fields, installed under the code's key for one code lifetime, parsing
/// back to itself.
pub open spec fn spec_deferred_update_installed(
    pre: AuthState,
    post: AuthState,
    c: Seq<char>,
    uid: int,
    name: Seq<char>,
    phone: Option<Seq<char>>,
    email: Seq<char>,
    ph: Option<Seq<char>>,
    now: int,
) -> bool {
    let pv = spec_update_payload(c, uid, name, phone, email, ph);
    &&& spec_parse_payload(spec_encode_payload(pv)) == Some(pv)
    &&& post.store.contents() == pre.store.contents().insert(
        spec_otc_key(c),
        (spec_encode_payload(pv), now + OTC_EXPIRATION_SECONDS as int),
    )
}

#[derive(Debug)]
pub struct UpdateOutcome {
    /// Whether the change was deferred behind a one-time code.
    pub needs_otc: bool,
    /// The update-account code, when the change was deferred.
    pub otc: Option<String>,
    /// The current (pre-update) address to send the code to.
    pub notify_email: Option<String>,
}

/// A deferred update: the rows are untouched, and a six-character code maps
/// to the update payload, whose password field is the hash of the requested
/// password when one was requested.
pub open spec fn spec_update_deferred(
    pre: AuthState,
    post: AuthState,
    out: UpdateOutcome,
    user_data: UpdateUser,
    now: int,
) -> bool {
    let uid = user_data.id as int;
    &&& post.users == pre.users
    &&& pre.users.contents().contains_key(uid)
    &&& out.notify_email matches Some(em) && em@ == pre.users.contents()[uid].email
    &&& out.otc matches Some(c) && c@.len() == 6 && all_code_chars(c@) && (exists|
        ph: Option<Seq<char>>,
    |
        {
            &&& #[trigger] spec_deferred_update_installed(
                pre,
                post,
                c@,
                uid,
                user_data.name@,
                opt_view(user_data.phone),
                user_data.email@,
                ph,
                now,
            )
            &&& (ph is Some <==> user_data.password is Some)
            &&& (user_data.password matches Some(p) ==> ph matches Some(h) && password_matches(
                p@,
                h,
            ))
        })
}

/// An immediate update: only name and phone change, in place.
pub open spec fn spec_update_applied(
    pre: AuthState,
    post: AuthState,
    out: UpdateOutcome,
    user_data: UpdateUser,
) -> bool {
    let uid = user_data.id as int;
    &&& post.store == pre.store
    &&& pre.users.contents().contains_key(uid)
    &&& post.users.contents() == pre.users.contents().insert(
        uid,
        UserV {
            name: user_data.name@,
            phone: opt_view(user_data.phone),
            ..pre.users.contents()[uid]
        },
    )
    &&& out.otc is None
    &&& out.notify_email is None
}

/// Applies or defers an account update.
///
/// Changes to email or password are deferred: the new values (the password
/// already hashed) are bound to a one-time code in the store, and nothing
/// is applied yet. A name/phone-only change is applied immediately.
#[verifier::rlimit(100)]
pub fn update_user(state: &mut AuthState, user_data: &UpdateUser, now: u64) -> (r: Result<
    UpdateOutcome,
    AuthError,
>)
    requires
        old(state).wf(),
        now + OTC_EXPIRATION_SECONDS <= u64::MAX,
    ensures
        final(state).wf(),
        final(state).secret == old(state).secret,
        match r {
            Ok(out) => {
                let uid = user_data.id as int;
                let needs = user_data.email_confirm is Some || (user_data.password is Some
                    && user_data.password_confirm is Some);
                &&& spec_validate_update(
                    user_data.name@,
                    user_data.email@,
                    opt_view(user_data.email_confirm),
                    opt_view(user_data.password),
                    opt_view(user_data.password_confirm),
                    opt_view(user_data.phone),
                ) is None
                &&& user_data.id >= 1
                &&& out.needs_otc == needs
                &&& (needs ==> spec_update_deferred(
                    *old(state),
                    *final(state),
                    out,
                    *user_data,
                    now as int,
                ))
                &&& (!needs ==> spec_update_applied(*old(state), *final(state), out, *user_data))
            },
            Err(e) => {
                let bad_input = spec_validate_update(
                    user_data.name@,
                    user_data.email@,
                    opt_view(user_data.email_confirm),
                    opt_view(user_data.password),
                    opt_view(user_data.password_confirm),
                    opt_view(user_data.phone),
                ) is Some || user_data.id < 1;
                &&& *final(state) == *old(state)
                &&& (e == AuthError::ValidationFailure <==> bad_input)
                &&& (e == AuthError::InternalFailure <==> (!bad_input && !old(
                    state,
                ).users.contents().contains_key(user_data.id as int)))
                &&& (e == AuthError::HashingFailure ==> old(state).users.contents().contains_key(
                    user_data.id as int,
                ) && user_data.password is Some && (user_data.email_confirm is Some
                    || user_data.password_confirm is Some))
                &&& (e == AuthError::ValidationFailure || e == AuthError::HashingFailure || e
                    == AuthError::InternalFailure)
            },
        },
{
    if validate_update_user_data(user_data).is_some() {
        return Err(AuthError::ValidationFailure);
    }
    if user_data.id < 1 {
        return Err(AuthError::ValidationFailure);
    }
    let needs_otc = user_data.email_confirm.is_some() || (user_data.password.is_some()
        && user_data.password_confirm.is_some());
    if needs_otc {
        let old_user = match state.users.get_user_by_id(&user_data.id) {
            Ok(u) => u,
            Err(_) => {
                return Err(AuthError::InternalFailure);
            },
        };
        let password_hash: Option<String> = match &user_data.password {
            Some(password) => match hash_password(password.as_str()) {
                Ok(h) => Some(h),
                Err(e) => {
                    return Err(e);
                },
            },
            None => None,
        };
        proof {
            if user_data.password is Some {
                assert(password_hash is Some);
                assert(password_matches((user_data.password->0)@, (password_hash->0)@));
            }
        }
        let otc = create_otc();
        let otc_key = format_otc_key(otc.as_str());
        let otc_payload = OtcPayload {
            otc: otc.clone(),
            user_id: user_data.id,
            action: OtcPayloadAction::UpdateAccount,
            name: user_data.name.clone(),
            phone: clone_opt_string(&user_data.phone),
            email: user_data.email.clone(),
            password_hash,
        };
        let otc_payload_str = crate::otc::serialize_otc_payload(&otc_payload);
        state.store.set_token(
            otc_key.as_str(),
            otc_payload_str.as_str(),
            OTC_EXPIRATION_SECONDS,
            now,
        );
        let (_, _, old_email, _, _) = old_user;
        proof {
            assert(spec_update_payload(
                otc@,
                user_data.id as int,
                user_data.name@,
                opt_view(user_data.phone),
                user_data.email@,
                opt_view(otc_payload.password_hash),
            ) == otc_payload@);
            assert(spec_deferred_update_installed(
                *old(state),
                *state,
                otc@,
                user_data.id as int,
                user_data.name@,
                opt_view(user_data.phone),
                user_data.email@,
                opt_view(otc_payload.password_hash),
                now as int,
            ));
        }
        let out = UpdateOutcome { needs_otc: true, otc: Some(otc), notify_email: Some(old_email) };
        proof {
            assert(out.otc matches Some(c) && c@.len() == 6 && all_code_chars(c@));
            assert(out.notify_email matches Some(em) && em@ == old(
                state,
            ).users.contents()[user_data.id as int].email);
            assert(spec_update_deferred(*old(state), *state, out, *user_data, now as int));
        }
        Ok(out)
    } else {
        let phone_arg: Option<&str> = match &user_data.phone {
            Some(p) => Some(p.as_str()),
            None => None,
        };
        match state.users.update_non_sensitive_user_fields(
            &user_data.id,
            user_data.name.as_str(),
            phone_arg,
        ) {
            Ok(_) => {
                proof {
                    assert((match phone_arg {
                        Some(p) => Some(p@),
                        None => None,
                    }) == opt_view(user_data.phone));
                }
                Ok(UpdateOutcome { needs_otc: false, otc: None, notify_email: None })
            },
            Err(_) => Err(AuthError::InternalFailure),
        }
    }
}

/// The delete-account payload a deletion request installs.
pub open spec fn spec_delete_payload(
    otc: Seq<char>,
    uid: int,
    name: Seq<char>,
    email: Seq<char>,
) -> OtcPayloadV {
    OtcPayloadV {
        otc,
        user_id: uid,
        action: OtcPayloadAction::DeleteAccount,
        name,
        phone: None,
        email,
        password_hash: None,
    }
}

#[derive(Debug)]
pub struct DeleteOutcome {
    /// The delete-account code, delivered out-of-band.
    pub otc: String,
    /// The address to send the code to.
    pub notify_email: String,
}

/// Defers deletion of the authenticated account behind a one-time code.
pub fn delete_user(state: &mut AuthState, claims: &JwtClaims, now: u64) -> (r: Result<
    DeleteOutcome,
    AuthError,
>)
    requires
        old(state).wf(),
        now + OTC_EXPIRATION_SECONDS <= u64::MAX,
    ensures
        final(state).wf(),
        final(state).users == old(state).users,
        final(state).secret == old(state).secret,
        match r {
            Ok(out) => {
                let pv = spec_delete_payload(out.otc@, claims.id as int, claims.name@, claims.email@);
                &&& claims.id >= 0
                &&& out.otc@.len() == 6
                &&& all_code_chars(out.otc@)
                &&& out.notify_email@ == claims.email@
                &&& final(state).store.contents() == old(state).store.contents().insert(
                    spec_otc_key(out.otc@),
                    (spec_encode_payload(pv), now as int + OTC_EXPIRATION_SECONDS as int),
                )
                &&& spec_parse_payload(spec_encode_payload(pv)) == Some(pv)
            },
            Err(e) => {
                &&& *final(state) == *old(state)
                &&& e == AuthError::ValidationFailure
                &&& claims.id < 0
            },
        },
{
    if claims.id < 0 {
        return Err(AuthError::ValidationFailure);
    }
    let otc = create_otc();
    let otc_key = format_otc_key(otc.as_str());
    let otc_payload = OtcPayload {
        otc: otc.clone(),
        user_id: claims.id,
        action: OtcPayloadAction::DeleteAccount,
        name: claims.name.clone(),
        email: claims.email.clone(),
        password_hash: None,
        phone: None,
    };
    let otc_payload_str = crate::otc::serialize_otc_payload(&otc_payload);
    state.store.set_token(
        otc_key.as_str(),
        otc_payload_str.as_str(),
        OTC_EXPIRATION_SECONDS,
        now,
    );
    Ok(DeleteOutcome { otc, notify_email: claims.email.clone() })
}

#[derive(Debug)]
pub struct PasswordResetRequestOutcome {
    /// The password-reset code, delivered out-of-band.
    pub reset_token: String,
    /// The account the code resolves to.
    pub user_id: i32,
    /// The address to send the code to.
    pub notify_email: String,
}

/// Issues a password-reset code for the account owning `email`.
///
/// Fails with a validation failure exactly when no account owns the email.
pub fn request_password_reset_token(
    state: &mut AuthState,
    user_data: &ResetPasswordTokenUser,
    now: u64,
) -> (r: Result<PasswordResetRequestOutcome, AuthError>)
    requires
        old(state).wf(),
        now + PASSWORD_RESET_TOKEN_EXPIRATION_SECONDS <= u64::MAX,
    ensures
        final(state).wf(),
        final(state).users == old(state).users,
        final(state).secret == old(state).secret,
        match r {
            Ok(out) => {
                let uid = out.user_id as int;
                &&& old(state).users.contents().contains_key(uid)
                &&& old(state).users.contents()[uid].email == user_data.email@
                &&& out.reset_token@.len() == 6
                &&& all_code_chars(out.reset_token@)
                &&& out.notify_email@ == user_data.email@
                &&& final(state).store.contents() == old(state).store.contents().insert(
                    spec_reset_token_key(out.reset_token@),
                    (
                        dec_digits(uid),
                        now as int + PASSWORD_RESET_TOKEN_EXPIRATION_SECONDS as int,
                    ),
                )
            },
            Err(e) => {
                &&& *final(state) == *old(state)
                &&& e == AuthError::ValidationFailure
                &&& !old(state).users.spec_email_taken(user_data.email@)
            },
        },
{
    let user = match state.users.get_user_by_email(user_data.email.as_str()) {
        Ok(u) => u,
        Err(_) => {
            return Err(AuthError::ValidationFailure);
        },
    };
    let (id, _, _, _, _, _) = user;
    let reset_token = create_otc();
    let reset_token_key = format_reset_token_key(reset_token.as_str());
    let id_str = format_u64(id as u64);
    state.store.set_token(
        reset_token_key.as_str(),
        id_str.as_str(),
        PASSWORD_RESET_TOKEN_EXPIRATION_SECONDS,
        now,
    );
    Ok(
        PasswordResetRequestOutcome {
            reset_token,
            user_id: id,
            notify_email: user_data.email.clone(),
        },
    )
}

#[derive(Debug)]
pub struct PasswordResetOutcome {
    /// The account whose password changed.
    pub user_id: i32,
    /// The account's address, for the confirmation email.
    pub notify_email: String,
}

/// Redeems a password-reset code and installs the new password hash.
///
/// The code is deleted only after the password change succeeds, so a failed
/// change leaves it redeemable until its time-to-live elapses.
pub fn reset_password_with_token(
    state: &mut AuthState,
    params: &PasswordResetToken,
    user_data: &PasswordResetUser,
    now: u64,
) -> (r: Result<PasswordResetOutcome, AuthError>)
    requires
        old(state).wf(),
    ensures
        final(state).wf(),
        final(state).secret == old(state).secret,
        match r {
            Ok(out) => {
                let uid = out.user_id as int;
                let key = spec_reset_token_key(params.token@);
                &&& spec_validate_password_reset(
                    user_data.password@,
                    user_data.password_confirm@,
                ) is None
                &&& (old(state).store.spec_live_value(key, now as int) matches Some(v)
                    && all_digits(v) && dec_value(v) == uid)
                &&& old(state).users.contents().contains_key(uid)
                &&& final(state).users.contents() == old(state).users.contents().insert(
                    uid,
                    UserV {
                        password_hash: final(state).users.contents()[uid].password_hash,
                        ..old(state).users.contents()[uid]
                    },
                )
                &&& password_matches(
                    user_data.password@,
                    final(state).users.contents()[uid].password_hash,
                )
                &&& final(state).store.contents() == old(state).store.contents().remove(key)
                &&& out.notify_email@ == old(state).users.contents()[uid].email
            },
            Err(e) => {
                let live = old(state).store.spec_live_value(
                    spec_reset_token_key(params.token@),
                    now as int,
                );
                let bad_input = spec_validate_password_reset(
                    user_data.password@,
                    user_data.password_confirm@,
                ) is Some;
                &&& *final(state) == *old(state)
                &&& (e == AuthError::ValidationFailure <==> bad_input)
                &&& (!bad_input ==> (e == AuthError::AuthenticationFailure <==> live is None))
                &&& (!bad_input && live is Some ==> {
                    let v = live->0;
                    let resolves = v.len() > 0 && all_digits(v) && dec_value(v) <= i32::MAX as int
                        && old(state).users.contents().contains_key(dec_value(v));
                    &&& (e == AuthError::InternalFailure <==> !resolves)
                    &&& (e == AuthError::HashingFailure ==> resolves)
                })
                &&& (e == AuthError::ValidationFailure || e == AuthError::AuthenticationFailure
                    || e == AuthError::HashingFailure || e == AuthError::InternalFailure)
            },
        },
{
    if validate_password_reset_user_data(user_data).is_some() {
        return Err(AuthError::ValidationFailure);
    }
    let reset_token_key = format_reset_token_key(params.token.as_str());
    let token_payload = match state.store.get_token(reset_token_key.as_str(), now) {
        Some(v) => v,
        None => {
            return Err(AuthError::AuthenticationFailure);
        },
    };
    let user_id = match parse_i32(token_payload.as_str()) {
        Some(v) => v,
        None => {
            return Err(AuthError::InternalFailure);
        },
    };
    if state.users.get_user_by_id(&user_id).is_err() {
        return Err(AuthError::InternalFailure);
    }
    let password_hash = match hash_password(user_data.password.as_str()) {
        Ok(h) => h,
        Err(e) => {
            return Err(e);
        },
    };
    if state.users.update_user_password(&user_id, password_hash.as_str()).is_err() {
        return Err(AuthError::InternalFailure);
    }
    state.store.remove_token(reset_token_key.as_str());
    let updated_user = match state.users.get_user_by_id(&user_id) {
        Ok(u) => u,
        Err(_) => {
            return Err(AuthError::InternalFailure);
        },
    };
    let (_, _, email, _, _) = updated_user;
    Ok(PasswordResetOutcome { user_id, notify_email: email })
}

} // verus!
