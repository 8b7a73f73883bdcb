use auth_core::auth_service::{
    authenticate_request, is_protected_route, login_user, logout_user, refresh, AuthOutcome,
};
use auth_core::constants::{BEARER_EXPIRATION_SECONDS, REFRESH_EXPIRATION_SECONDS};
use auth_core::errors::AuthError;
use auth_core::jwt::{decode_jwt, encode_jwt, verify_jwt, JwtClaims};
use auth_core::keys::format_refresh_token_key;
use auth_core::models::{LoginUser, OtcRequest, RegisterUser};
use auth_core::otc::{serialize_otc_payload, OtcPayload, OtcPayloadAction};
use auth_core::otc_service::otc_user;
use auth_core::password::{hash_password, verify_password};
use auth_core::state::AuthState;

fn test_state() -> AuthState {
    AuthState::new("unit-test-signing-secret".to_string())
}

#[test]
fn password_hash_verifies_and_rejects() {
    let hash = hash_password("Password1!").unwrap();
    assert_ne!(hash, "Password1!");
    assert_eq!(verify_password("Password1!", &hash), Ok(true));
    assert_eq!(verify_password("Password2!", &hash), Ok(false));
}

#[test]
fn verify_password_fails_on_malformed_hash() {
    assert_eq!(
        verify_password("Password1!", "not a bcrypt hash"),
        Err(AuthError::HashingFailure)
    );
}

#[test]
fn jwt_round_trip_recovers_claims() {
    let secret = "s3cr3t";
    let token = encode_jwt(secret, &42, "Ann", "ann@site.com", 1000).unwrap();
    let claims = decode_jwt(secret, &token).unwrap();
    assert_eq!(claims.id, 42);
    assert_eq!(claims.name, "Ann");
    assert_eq!(claims.email, "ann@site.com");
    assert_eq!(claims.iat, 1000);
    assert_eq!(claims.exp, 1000 + BEARER_EXPIRATION_SECONDS);
    assert_eq!(claims.exp - claims.iat, BEARER_EXPIRATION_SECONDS);
}

#[test]
fn jwt_rejects_wrong_secret_and_garbage() {
    let token = encode_jwt("secret-a", &1, "A", "a@bc.de", 0).unwrap();
    assert_eq!(decode_jwt("secret-b", &token).unwrap_err(), AuthError::InvalidToken);
    assert_eq!(decode_jwt("secret-a", "garbage").unwrap_err(), AuthError::InvalidToken);
    // an expired token still decodes; only the expiry comparison is left to callers
    assert!(decode_jwt("secret-a", &token).is_ok());
}

#[test]
fn verify_jwt_checks_identity() {
    let token = encode_jwt("k", &7, "B", "b@cd.ef", 0).unwrap();
    assert!(verify_jwt("k", &token, &7).is_ok());
    assert_eq!(
        verify_jwt("k", &token, &8).unwrap_err(),
        AuthError::AuthenticationFailure
    );
}

#[test]
fn rotation_invalidates_old_credential() {
    let mut state = test_state();
    let uid = state.users.create_user("Ann", "ann@site.com", "h1").unwrap();
    state.store.set_token("refresh:OLDTOKEN", "1", REFRESH_EXPIRATION_SECONDS, 1000);
    assert_eq!(uid, 1);

    let out = refresh(&mut state, &Some("OLDTOKEN".to_string()), 1000).unwrap();
    assert_eq!(out.response.id, 1);
    assert_eq!(out.response.email, "ann@site.com");
    assert_ne!(out.refresh_token, "OLDTOKEN");

    // the old refresh credential no longer resolves
    assert_eq!(state.store.get_token("refresh:OLDTOKEN", 1001), None);
    // the new one resolves to the same user id
    let new_key = format_refresh_token_key(&out.refresh_token);
    assert_eq!(state.store.get_token(&new_key, 1001), Some("1".to_string()));
    // replaying the old credential is rejected
    assert_eq!(
        refresh(&mut state, &Some("OLDTOKEN".to_string()), 1002).unwrap_err(),
        AuthError::AuthenticationFailure
    );
}

#[test]
fn refresh_requires_live_credential() {
    let mut state = test_state();
    assert_eq!(
        refresh(&mut state, &None, 0).unwrap_err(),
        AuthError::InternalFailure
    );
    assert_eq!(
        refresh(&mut state, &Some("NEVERSEEN".to_string()), 0).unwrap_err(),
        AuthError::AuthenticationFailure
    );
    // an expired credential is as good as absent
    state.users.create_user("Ann", "ann@site.com", "h1").unwrap();
    state.store.set_token("refresh:R", "1", 10, 0);
    assert_eq!(
        refresh(&mut state, &Some("R".to_string()), 10).unwrap_err(),
        AuthError::AuthenticationFailure
    );
}

#[test]
fn logout_deletes_refresh_credential() {
    let mut state = test_state();
    state.store.set_token("refresh:R", "1", 600, 0);
    logout_user(&mut state, &Some("R".to_string())).unwrap();
    assert_eq!(state.store.get_token("refresh:R", 1), None);
    assert_eq!(
        logout_user(&mut state, &None).unwrap_err(),
        AuthError::InternalFailure
    );
}

#[test]
fn protected_route_table() {
    assert!(is_protected_route("/api/user", "GET"));
    assert!(is_protected_route("/api/user", "PATCH"));
    assert!(is_protected_route("/api/user", "DELETE"));
    assert!(is_protected_route("/api/auth/logout", "POST"));
    assert!(!is_protected_route("/api/user", "POST"));
    assert!(!is_protected_route("/api/auth/login", "POST"));
}

#[test]
fn middleware_passes_through_preflight_and_open_routes() {
    let mut state = test_state();
    let out = authenticate_request(&mut state, "/api/user", "OPTIONS", &None, &None, 0).unwrap();
    assert!(matches!(out, AuthOutcome::Passthrough));
    let out = authenticate_request(&mut state, "/api/auth/login", "POST", &None, &None, 0).unwrap();
    assert!(matches!(out, AuthOutcome::Passthrough));
}

#[test]
fn middleware_rejects_cookieless_protected_request() {
    let mut state = test_state();
    let err = authenticate_request(&mut state, "/api/user", "GET", &None, &None, 0).unwrap_err();
    assert_eq!(err, AuthError::AuthenticationFailure);
    assert_eq!(err.status_code(), 401);
}

#[test]
fn middleware_accepts_live_bearer() {
    let mut state = test_state();
    let token = encode_jwt("unit-test-signing-secret", &5, "C", "c@de.fg", 1000).unwrap();
    let out = authenticate_request(
        &mut state,
        "/api/user",
        "GET",
        &Some(token),
        &None,
        1000 + BEARER_EXPIRATION_SECONDS - 1,
    )
    .unwrap();
    match out {
        AuthOutcome::Authenticated { claims } => {
            assert_eq!(claims.id, 5);
        }
        _ => panic!("expected an authenticated outcome"),
    }
}

#[test]
fn middleware_rotates_on_expired_bearer() {
    let mut state = test_state();
    state.users.create_user("Ann", "ann@site.com", "h1").unwrap();
    let token = encode_jwt("unit-test-signing-secret", &1, "Ann", "ann@site.com", 1000).unwrap();
    state.store.set_token("refresh:RR", "1", REFRESH_EXPIRATION_SECONDS, 1000);
    let later = 1000 + BEARER_EXPIRATION_SECONDS;
    let out = authenticate_request(
        &mut state,
        "/api/user",
        "GET",
        &Some(token),
        &Some("RR".to_string()),
        later,
    )
    .unwrap();
    match out {
        AuthOutcome::Rotated { claims, bearer_token, refresh_token } => {
            assert_eq!(claims.id, 1);
            assert_eq!(claims.iat, later);
            assert_eq!(claims.exp, later + BEARER_EXPIRATION_SECONDS);
            let decoded = decode_jwt("unit-test-signing-secret", &bearer_token).unwrap();
            assert_eq!(decoded.id, 1);
            assert_ne!(refresh_token, "RR");
            assert_eq!(state.store.get_token("refresh:RR", later), None);
        }
        _ => panic!("expected a rotation"),
    }
}

#[test]
fn otc_code_cannot_be_redeemed_twice() {
    let mut state = test_state();
    let uid = state.users.create_user("Ann", "ann@site.com", "h1").unwrap();
    let payload = OtcPayload {
        otc: "AB12CD".to_string(),
        user_id: uid,
        action: OtcPayloadAction::ConfirmAccount,
        name: "Ann".to_string(),
        phone: None,
        email: "ann@site.com".to_string(),
        password_hash: None,
    };
    let wire = serialize_otc_payload(&payload);
    state.store.set_token("otc:AB12CD", &wire, 600, 1000);

    let request = OtcRequest { otc: "AB12CD".to_string() };
    let out = otc_user(&mut state, &request, 1000).unwrap();
    assert_eq!(out.action, OtcPayloadAction::ConfirmAccount);
    assert_eq!(out.notify_email, "ann@site.com");
    let (_, _, _, _, confirmed) = state.users.get_user_by_id(&uid).unwrap();
    assert!(confirmed);

    // the second redemption fails: the entry is gone
    assert_eq!(
        otc_user(&mut state, &request, 1001).unwrap_err(),
        AuthError::AuthenticationFailure
    );
}

#[test]
fn otc_code_expires_with_its_ttl() {
    let mut state = test_state();
    let uid = state.users.create_user("Ann", "ann@site.com", "h1").unwrap();
    let payload = OtcPayload {
        otc: "AB12CD".to_string(),
        user_id: uid,
        action: OtcPayloadAction::ConfirmAccount,
        name: "Ann".to_string(),
        phone: None,
        email: "ann@site.com".to_string(),
        password_hash: None,
    };
    let wire = serialize_otc_payload(&payload);
    // issued with a one-second time-to-live
    state.store.set_token("otc:AB12CD", &wire, 1, 1000);
    let request = OtcRequest { otc: "AB12CD".to_string() };
    // redeemed after the time-to-live elapsed
    assert_eq!(
        otc_user(&mut state, &request, 1001).unwrap_err(),
        AuthError::AuthenticationFailure
    );
    // the account stays unconfirmed
    let (_, _, _, _, confirmed) = state.users.get_user_by_id(&uid).unwrap();
    assert!(!confirmed);
}

#[test]
fn malformed_stored_payload_is_an_internal_failure() {
    let mut state = test_state();
    state.store.set_token("otc:AB12CD", "not a payload", 600, 0);
    let request = OtcRequest { otc: "AB12CD".to_string() };
    let err = otc_user(&mut state, &request, 0).unwrap_err();
    assert_eq!(err, AuthError::InternalFailure);
    // the code stays in the store until its time-to-live elapses
    assert!(state.store.get_token("otc:AB12CD", 1).is_some());
}

#[test]
fn otc_redeems_email_update_with_fresh_token() {
    let mut state = test_state();
    let uid = state.users.create_user("Ann", "ann@site.com", "h1").unwrap();
    let payload = OtcPayload {
        otc: "QQ77ZZ".to_string(),
        user_id: uid,
        action: OtcPayloadAction::UpdateAccount,
        name: "Anna".to_string(),
        phone: None,
        email: "anna@new.org".to_string(),
        password_hash: None,
    };
    let wire = serialize_otc_payload(&payload);
    state.store.set_token("otc:QQ77ZZ", &wire, 600, 50);
    let out = otc_user(&mut state, &OtcRequest { otc: "QQ77ZZ".to_string() }, 50).unwrap();
    let response = out.response.expect("an update answers with the new identity");
    assert_eq!(response.email, "anna@new.org");
    assert_eq!(response.name, "Anna");
    let new_bearer = out.new_bearer_token.expect("email change mints a fresh token");
    let claims = decode_jwt("unit-test-signing-secret", &new_bearer).unwrap();
    assert_eq!(claims.email, "anna@new.org");
    let (_, name, email, _, _) = state.users.get_user_by_id(&uid).unwrap();
    assert_eq!((name.as_str(), email.as_str()), ("Anna", "anna@new.org"));
}

#[test]
fn otc_password_update_applies_carried_identity() {
    let mut state = test_state();
    let uid = state.users.create_user("Ann", "ann@site.com", "h1").unwrap();
    let payload = OtcPayload {
        otc: "PW44PW".to_string(),
        user_id: uid,
        action: OtcPayloadAction::UpdateAccount,
        name: "Anna".to_string(),
        phone: None,
        email: "anna@new.org".to_string(),
        password_hash: Some("h2".to_string()),
    };
    let wire = serialize_otc_payload(&payload);
    state.store.set_token("otc:PW44PW", &wire, 600, 75);
    let out = otc_user(&mut state, &OtcRequest { otc: "PW44PW".to_string() }, 75).unwrap();
    // every carried field is applied: name, email and the new hash
    let (_, name, email, hash, _, _) = state.users.get_user_by_email("anna@new.org").unwrap();
    assert_eq!((name.as_str(), email.as_str(), hash.as_str()), ("Anna", "anna@new.org", "h2"));
    // the response and the fresh token reflect the resulting identity
    let response = out.response.expect("an update answers with the new identity");
    assert_eq!((response.name.as_str(), response.email.as_str()), ("Anna", "anna@new.org"));
    let token = out.new_bearer_token.expect("an update mints a fresh token");
    let claims = decode_jwt("unit-test-signing-secret", &token).unwrap();
    assert_eq!((claims.name.as_str(), claims.email.as_str()), ("Anna", "anna@new.org"));
}

#[test]
fn otc_email_update_into_taken_address_fails_and_keeps_code() {
    let mut state = test_state();
    let uid = state.users.create_user("Ann", "ann@site.com", "h1").unwrap();
    state.users.create_user("Bob", "bob@site.com", "h2").unwrap();
    let payload = OtcPayload {
        otc: "CC88CC".to_string(),
        user_id: uid,
        action: OtcPayloadAction::UpdateAccount,
        name: "Ann".to_string(),
        phone: None,
        email: "bob@site.com".to_string(),
        password_hash: None,
    };
    let wire = serialize_otc_payload(&payload);
    state.store.set_token("otc:CC88CC", &wire, 600, 0);
    let err = otc_user(&mut state, &OtcRequest { otc: "CC88CC".to_string() }, 0).unwrap_err();
    assert_eq!(err, AuthError::InternalFailure);
    // nothing applied, and the code stays until its time-to-live elapses
    let (_, _, email, _, _) = state.users.get_user_by_id(&uid).unwrap();
    assert_eq!(email, "ann@site.com");
    assert!(state.store.get_token("otc:CC88CC", 1).is_some());
}

#[test]
fn otc_redeems_account_deletion() {
    let mut state = test_state();
    let uid = state.users.create_user("Ann", "ann@site.com", "h1").unwrap();
    let payload = OtcPayload {
        otc: "DD00DD".to_string(),
        user_id: uid,
        action: OtcPayloadAction::DeleteAccount,
        name: "Ann".to_string(),
        phone: None,
        email: "ann@site.com".to_string(),
        password_hash: None,
    };
    let wire = serialize_otc_payload(&payload);
    state.store.set_token("otc:DD00DD", &wire, 600, 0);
    // a live refresh credential of the doomed account, and one of another account
    state.store.set_token("refresh:MINE", "1", 28800, 0);
    state.store.set_token("refresh:OTHER", "2", 28800, 0);
    let out = otc_user(&mut state, &OtcRequest { otc: "DD00DD".to_string() }, 0).unwrap();
    assert!(out.delete_session_cookies);
    assert!(state.users.get_user_by_id(&uid).is_err());
    // the deleted account's refresh credential is invalidated with it
    assert_eq!(state.store.get_token("refresh:MINE", 1), None);
    assert_eq!(state.store.get_token("refresh:OTHER", 1), Some("2".to_string()));
}

#[test]
fn login_rejects_unknown_wrong_and_unconfirmed() {
    let mut state = test_state();
    let hash = hash_password("Password1!").unwrap();
    let uid = state.users.create_user("Ann", "ann@site.com", &hash).unwrap();

    // unknown email
    let unknown = LoginUser { email: "who@site.com".to_string(), password: "Password1!".to_string() };
    assert_eq!(login_user(&mut state, &unknown, 0).unwrap_err(), AuthError::AuthenticationFailure);

    // account not yet confirmed
    let ann = LoginUser { email: "ann@site.com".to_string(), password: "Password1!".to_string() };
    assert_eq!(login_user(&mut state, &ann, 0).unwrap_err(), AuthError::AuthenticationFailure);

    state.users.confirm_user(&uid).unwrap();

    // wrong password
    let wrong = LoginUser { email: "ann@site.com".to_string(), password: "Password2!".to_string() };
    assert_eq!(login_user(&mut state, &wrong, 0).unwrap_err(), AuthError::AuthenticationFailure);
}

#[test]
fn login_with_corrupt_hash_is_a_hashing_failure() {
    let mut state = test_state();
    let uid = state.users.create_user("Ann", "ann@site.com", "corrupt").unwrap();
    state.users.confirm_user(&uid).unwrap();
    let ann = LoginUser { email: "ann@site.com".to_string(), password: "Password1!".to_string() };
    let err = login_user(&mut state, &ann, 0).unwrap_err();
    assert_eq!(err, AuthError::HashingFailure);
    assert_eq!(err.status_code(), 500);
}

#[test]
fn end_to_end_register_confirm_login_rotate() {
    let mut state = test_state();
    let mut now: u64 = 10_000;

    // register alice@example.com: a ConfirmAccount code is issued
    let registration = auth_core::user_service::register_user(
        &mut state,
        &RegisterUser {
            name: "Alice".to_string(),
            email: "alice@example.com".to_string(),
            password: "Password1!".to_string(),
            password_confirm: "Password1!".to_string(),
        },
        now,
    )
    .unwrap();
    assert_eq!(registration.response.email, "alice@example.com");
    let code = registration.otc;
    assert_eq!(code.len(), 6);

    // login before redemption fails: the account is not confirmed
    let alice = LoginUser {
        email: "alice@example.com".to_string(),
        password: "Password1!".to_string(),
    };
    assert_eq!(
        login_user(&mut state, &alice, now).unwrap_err(),
        AuthError::AuthenticationFailure
    );

    // redeeming the code confirms the account
    let redeemed = otc_user(&mut state, &OtcRequest { otc: code }, now).unwrap();
    assert_eq!(redeemed.action, OtcPayloadAction::ConfirmAccount);
    let (_, _, _, _, confirmed) = state
        .users
        .get_user_by_id(&registration.response.id)
        .unwrap();
    assert!(confirmed);

    // login now succeeds and returns a cookie pair
    let session = login_user(&mut state, &alice, now).unwrap();
    let first_refresh = session.refresh_token.clone();
    let claims = decode_jwt("unit-test-signing-secret", &session.bearer_token).unwrap();
    assert_eq!(claims.email, "alice@example.com");

    // much later, the bearer is expired but the refresh credential is live:
    // a protected request succeeds and returns a new pair
    now += BEARER_EXPIRATION_SECONDS + 1;
    let outcome = authenticate_request(
        &mut state,
        "/api/user",
        "GET",
        &Some(session.bearer_token),
        &Some(first_refresh.clone()),
        now,
    )
    .unwrap();
    let second_refresh = match outcome {
        AuthOutcome::Rotated { claims, refresh_token, .. } => {
            assert_eq!(claims.email, "alice@example.com");
            refresh_token
        }
        _ => panic!("expected a rotation"),
    };
    assert_ne!(second_refresh, first_refresh);

    // replaying the original refresh credential now fails with 401
    let err = authenticate_request(
        &mut state,
        "/api/user",
        "GET",
        &None,
        &Some(first_refresh),
        now + 1,
    )
    .unwrap_err();
    assert_eq!(err, AuthError::AuthenticationFailure);
    assert_eq!(err.status_code(), 401);

    // the replacement credential still works
    let outcome = authenticate_request(
        &mut state,
        "/api/user",
        "GET",
        &None,
        &Some(second_refresh),
        now + 2,
    )
    .unwrap();
    assert!(matches!(outcome, AuthOutcome::Rotated { .. }));
}

#[test]
fn claims_struct_keeps_fields() {
    let claims = JwtClaims {
        exp: 600,
        iat: 0,
        id: 9,
        name: "N".to_string(),
        email: "n@mail.co".to_string(),
    };
    assert_eq!(claims.exp - claims.iat, 600);
}
