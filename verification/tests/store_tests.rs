use auth_core::errors::AuthError;
use auth_core::store::TokenStore;
use auth_core::users::UserTable;

#[test]
fn store_set_get_delete() {
    let mut store = TokenStore::new();
    assert_eq!(store.get_token("refresh:AAA", 100), None);
    store.set_token("refresh:AAA", "7", 600, 100);
    assert_eq!(store.get_token("refresh:AAA", 100), Some("7".to_string()));
    assert_eq!(store.get_token("refresh:AAA", 699), Some("7".to_string()));
    store.set_token("refresh:AAA", "8", 600, 200);
    assert_eq!(store.get_token("refresh:AAA", 300), Some("8".to_string()));
    store.remove_token("refresh:AAA");
    assert_eq!(store.get_token("refresh:AAA", 300), None);
}

#[test]
fn store_entry_expires_after_ttl() {
    let mut store = TokenStore::new();
    store.set_token("otc:AB12CD", "payload", 1, 1000);
    assert_eq!(store.get_token("otc:AB12CD", 1000), Some("payload".to_string()));
    // one second later the time-to-live has elapsed
    assert_eq!(store.get_token("otc:AB12CD", 1001), None);
}

#[test]
fn store_verify_token_checks_owner() {
    let mut store = TokenStore::new();
    store.set_token("refresh:R1", "42", 600, 0);
    assert!(store.verify_token("refresh:R1", 42, 10).is_ok());
    assert_eq!(
        store.verify_token("refresh:R1", 41, 10),
        Err(AuthError::AuthenticationFailure)
    );
    assert_eq!(
        store.verify_token("refresh:R2", 42, 10),
        Err(AuthError::AuthenticationFailure)
    );
    assert_eq!(
        store.verify_token("refresh:R1", 42, 600),
        Err(AuthError::AuthenticationFailure)
    );
}

#[test]
fn user_table_create_and_fetch() {
    let mut users = UserTable::new();
    let id = users.create_user("Ann", "ann@site.com", "h1").unwrap();
    assert_eq!(id, 1);
    let (id2, name, email, hash, phone, confirmed) =
        users.get_user_by_email("ann@site.com").unwrap();
    assert_eq!((id2, name.as_str(), email.as_str(), hash.as_str()), (1, "Ann", "ann@site.com", "h1"));
    assert_eq!(phone, None);
    assert!(!confirmed);
    let (id3, name3, _, _, conf3) = users.get_user_by_id(&1).unwrap();
    assert_eq!((id3, name3.as_str(), conf3), (1, "Ann", false));
    assert!(users.get_user_by_email("bob@site.com").is_err());
    assert!(users.get_user_by_id(&2).is_err());
}

#[test]
fn user_table_rejects_duplicate_email() {
    let mut users = UserTable::new();
    users.create_user("Ann", "ann@site.com", "h1").unwrap();
    assert_eq!(
        users.create_user("Other", "ann@site.com", "h2"),
        Err(AuthError::ConflictFailure)
    );
    // ids keep increasing past the failed attempt
    let id = users.create_user("Bob", "bob@site.com", "h3").unwrap();
    assert_eq!(id, 2);
}

#[test]
fn user_table_updates_rows() {
    let mut users = UserTable::new();
    let id = users.create_user("Ann", "ann@site.com", "h1").unwrap();
    users.confirm_user(&id).unwrap();
    let (_, _, _, _, confirmed) = users.get_user_by_id(&id).unwrap();
    assert!(confirmed);

    users.update_user_password(&id, "h2").unwrap();
    let (_, _, _, hash, _, _) = users.get_user_by_email("ann@site.com").unwrap();
    assert_eq!(hash, "h2");

    users.update_user_email_and_name(&id, "Anna", "anna@site.com").unwrap();
    let (_, name, email, _, _, still_confirmed) =
        users.get_user_by_email("anna@site.com").unwrap();
    assert_eq!((name.as_str(), email.as_str()), ("Anna", "anna@site.com"));
    assert!(still_confirmed);
    assert!(users.get_user_by_email("ann@site.com").is_err());

    // an email update into another account's address is a conflict
    let other = users.create_user("Bob", "bob@site.com", "hb").unwrap();
    assert_eq!(
        users.update_user_email(&other, "anna@site.com"),
        Err(AuthError::ConflictFailure)
    );

    users.update_user_email(&id, "anna@other.org").unwrap();
    let (_, _, email2, _, _) = users.get_user_by_id(&id).unwrap();
    assert_eq!(email2, "anna@other.org");

    users
        .update_non_sensitive_user_fields(&id, "Anne", Some("+1 (123) 456-7890"))
        .unwrap();
    let (_, name2, _, phone, _) = users.get_user_by_id(&id).unwrap();
    assert_eq!(name2, "Anne");
    assert_eq!(phone, Some("+1 (123) 456-7890".to_string()));

    users.delete_user_by_id(&id).unwrap();
    assert!(users.get_user_by_id(&id).is_err());
    assert_eq!(users.confirm_user(&id), Err(AuthError::InternalFailure));
}

#[test]
fn status_codes_follow_the_taxonomy() {
    assert_eq!(AuthError::AuthenticationFailure.status_code(), 401);
    assert_eq!(AuthError::InvalidToken.status_code(), 401);
    assert_eq!(AuthError::ValidationFailure.status_code(), 400);
    assert_eq!(AuthError::ConflictFailure.status_code(), 409);
    assert_eq!(AuthError::HashingFailure.status_code(), 500);
    assert_eq!(AuthError::StoreUnavailable.status_code(), 500);
    assert_eq!(AuthError::InternalFailure.status_code(), 500);
}
