use auth_core::errors::AuthError;
use auth_core::jwt::JwtClaims;
use auth_core::models::{
    PasswordResetToken, PasswordResetUser, RegisterUser, ResetPasswordTokenUser, UpdateUser,
};
use auth_core::otc::{parse_otc_payload, OtcPayloadAction};
use auth_core::password::verify_password;
use auth_core::state::AuthState;
use auth_core::user_service::{
    delete_user, register_user, request_password_reset_token, reset_password_with_token,
    update_user,
};

fn test_state() -> AuthState {
    AuthState::new("unit-test-signing-secret".to_string())
}

fn valid_registration(email: &str) -> RegisterUser {
    RegisterUser {
        name: "Alice".to_string(),
        email: email.to_string(),
        password: "Password1!".to_string(),
        password_confirm: "Password1!".to_string(),
    }
}

#[test]
fn register_rejects_invalid_input() {
    let mut state = test_state();
    let mut bad = valid_registration("alice@example.com");
    bad.password_confirm = "Password2!".to_string();
    let err = register_user(&mut state, &bad, 0).unwrap_err();
    assert_eq!(err, AuthError::ValidationFailure);
    assert_eq!(err.status_code(), 400);
}

#[test]
fn register_rejects_duplicate_email() {
    let mut state = test_state();
    register_user(&mut state, &valid_registration("alice@example.com"), 0).unwrap();
    let err = register_user(&mut state, &valid_registration("alice@example.com"), 1).unwrap_err();
    assert_eq!(err, AuthError::ConflictFailure);
    assert_eq!(err.status_code(), 409);
}

#[test]
fn register_installs_confirm_payload() {
    let mut state = test_state();
    let out = register_user(&mut state, &valid_registration("alice@example.com"), 500).unwrap();
    assert_eq!(out.response.id, 1);
    let key = format!("otc:{}", out.otc);
    let wire = state.store.get_token(&key, 500).expect("the code is live");
    let payload = parse_otc_payload(&wire).expect("the stored payload parses");
    assert_eq!(payload.action, OtcPayloadAction::ConfirmAccount);
    assert_eq!(payload.user_id, 1);
    assert_eq!(payload.email, "alice@example.com");
    // the stored hash is not the plaintext password
    let (_, _, _, hash, _, _) = state.users.get_user_by_email("alice@example.com").unwrap();
    assert_ne!(hash, "Password1!");
    assert_eq!(verify_password("Password1!", &hash), Ok(true));
}

#[test]
fn update_user_applies_non_sensitive_fields_directly() {
    let mut state = test_state();
    let uid = state.users.create_user("Ann", "ann@site.com", "h1").unwrap();
    let update = UpdateUser {
        id: uid,
        name: "Anne".to_string(),
        phone: Some("+1 (123) 456-7890".to_string()),
        email: "ann@site.com".to_string(),
        email_confirm: None,
        password: None,
        password_confirm: None,
    };
    let out = update_user(&mut state, &update, 0).unwrap();
    assert!(!out.needs_otc);
    assert_eq!(out.otc, None);
    let (_, name, _, phone, _) = state.users.get_user_by_id(&uid).unwrap();
    assert_eq!(name, "Anne");
    assert_eq!(phone, Some("+1 (123) 456-7890".to_string()));
}

#[test]
fn update_user_defers_email_change_behind_code() {
    let mut state = test_state();
    let uid = state.users.create_user("Ann", "ann@site.com", "h1").unwrap();
    let update = UpdateUser {
        id: uid,
        name: "Ann".to_string(),
        phone: None,
        email: "ann@new.org".to_string(),
        email_confirm: Some("ann@new.org".to_string()),
        password: None,
        password_confirm: None,
    };
    let out = update_user(&mut state, &update, 100).unwrap();
    assert!(out.needs_otc);
    let code = out.otc.expect("a deferred update issues a code");
    // the code is sent to the old address
    assert_eq!(out.notify_email, Some("ann@site.com".to_string()));
    // nothing applied yet
    let (_, _, email, _, _) = state.users.get_user_by_id(&uid).unwrap();
    assert_eq!(email, "ann@site.com");
    // the stored payload carries the new identity
    let wire = state.store.get_token(&format!("otc:{}", code), 100).unwrap();
    let payload = parse_otc_payload(&wire).unwrap();
    assert_eq!(payload.action, OtcPayloadAction::UpdateAccount);
    assert_eq!(payload.email, "ann@new.org");
    assert_eq!(payload.password_hash, None);
}

#[test]
fn update_user_rejects_invalid_input() {
    let mut state = test_state();
    let update = UpdateUser {
        id: 0,
        name: "Ann".to_string(),
        phone: None,
        email: "ann@site.com".to_string(),
        email_confirm: None,
        password: None,
        password_confirm: None,
    };
    // an out-of-range id is rejected before anything happens
    assert_eq!(update_user(&mut state, &update, 0).unwrap_err(), AuthError::ValidationFailure);
}

#[test]
fn delete_user_defers_behind_code() {
    let mut state = test_state();
    let uid = state.users.create_user("Ann", "ann@site.com", "h1").unwrap();
    let claims = JwtClaims {
        exp: 600,
        iat: 0,
        id: uid,
        name: "Ann".to_string(),
        email: "ann@site.com".to_string(),
    };
    let out = delete_user(&mut state, &claims, 10).unwrap();
    assert_eq!(out.notify_email, "ann@site.com");
    // the row is still there until the code is redeemed
    assert!(state.users.get_user_by_id(&uid).is_ok());
    let wire = state.store.get_token(&format!("otc:{}", out.otc), 10).unwrap();
    let payload = parse_otc_payload(&wire).unwrap();
    assert_eq!(payload.action, OtcPayloadAction::DeleteAccount);
    assert_eq!(payload.user_id, uid);
}

#[test]
fn password_reset_flow_rotates_hash_and_consumes_code() {
    let mut state = test_state();
    let uid = state.users.create_user("Ann", "ann@site.com", "h1").unwrap();

    // requesting a token for an unknown email is a validation failure
    let unknown = ResetPasswordTokenUser { email: "who@site.com".to_string() };
    assert_eq!(
        request_password_reset_token(&mut state, &unknown, 0).unwrap_err(),
        AuthError::ValidationFailure
    );

    let request = ResetPasswordTokenUser { email: "ann@site.com".to_string() };
    let issued = request_password_reset_token(&mut state, &request, 0).unwrap();
    assert_eq!(issued.user_id, uid);
    assert_eq!(issued.notify_email, "ann@site.com");

    let body = PasswordResetUser {
        password: "NewPass1!".to_string(),
        password_confirm: "NewPass1!".to_string(),
    };
    let params = PasswordResetToken { token: issued.reset_token.clone() };
    let done = reset_password_with_token(&mut state, &params, &body, 1).unwrap();
    assert_eq!(done.user_id, uid);
    assert_eq!(done.notify_email, "ann@site.com");

    // the new hash verifies the new password
    let (_, _, _, hash, _, _) = state.users.get_user_by_email("ann@site.com").unwrap();
    assert_eq!(verify_password("NewPass1!", &hash), Ok(true));

    // the reset code is consumed
    assert_eq!(
        reset_password_with_token(&mut state, &params, &body, 2).unwrap_err(),
        AuthError::AuthenticationFailure
    );
}

#[test]
fn password_reset_rejects_invalid_body() {
    let mut state = test_state();
    let body = PasswordResetUser {
        password: "short".to_string(),
        password_confirm: "short".to_string(),
    };
    let params = PasswordResetToken { token: "AB12CD".to_string() };
    assert_eq!(
        reset_password_with_token(&mut state, &params, &body, 0).unwrap_err(),
        AuthError::ValidationFailure
    );
}
