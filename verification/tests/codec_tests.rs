use auth_core::cookies::{format_delete_cookie, format_set_cookie, get_cookie};
use auth_core::keys::{format_otc_key, format_refresh_token_key, format_reset_token_key};
use auth_core::numbers::{format_u64, parse_i32};
use auth_core::otc::{parse_otc_payload, serialize_otc_payload, OtcPayload, OtcPayloadAction};
use auth_core::sanitize::sanitize;
use auth_core::templates::generate_confirm_account_creation_email;

#[test]
fn format_u64_renders_decimal() {
    assert_eq!(format_u64(0), "0");
    assert_eq!(format_u64(7), "7");
    assert_eq!(format_u64(10), "10");
    assert_eq!(format_u64(1234567890), "1234567890");
    assert_eq!(format_u64(u64::MAX), "18446744073709551615");
}

#[test]
fn parse_i32_reads_digits() {
    assert_eq!(parse_i32("0"), Some(0));
    assert_eq!(parse_i32("10"), Some(10));
    assert_eq!(parse_i32("007"), Some(7));
    assert_eq!(parse_i32("2147483647"), Some(i32::MAX));
}

#[test]
fn parse_i32_rejects_bad_input() {
    assert_eq!(parse_i32(""), None);
    assert_eq!(parse_i32("12a"), None);
    assert_eq!(parse_i32("-5"), None);
    assert_eq!(parse_i32("2147483648"), None);
    assert_eq!(parse_i32("99999999999999999999999999"), None);
}

#[test]
fn store_keys_are_namespaced() {
    assert_eq!(format_refresh_token_key("ABCDE"), "refresh:ABCDE");
    assert_eq!(format_otc_key("XY12Z9"), "otc:XY12Z9");
    assert_eq!(format_reset_token_key("XY12Z9"), "reset-token:XY12Z9");
}

fn sample_payload() -> OtcPayload {
    OtcPayload {
        otc: "AB12CD".to_string(),
        user_id: 42,
        action: OtcPayloadAction::UpdateAccount,
        name: "Alice Example".to_string(),
        phone: Some("+1 (123) 456-7890".to_string()),
        email: "alice@example.com".to_string(),
        password_hash: Some("$2b$12$abcdefghijklmnopqrstuv".to_string()),
    }
}

#[test]
fn payload_round_trips_through_wire_form() {
    let payload = sample_payload();
    let wire = serialize_otc_payload(&payload);
    let back = parse_otc_payload(&wire).expect("round trip must parse");
    assert_eq!(back.otc, payload.otc);
    assert_eq!(back.user_id, payload.user_id);
    assert_eq!(back.action, payload.action);
    assert_eq!(back.name, payload.name);
    assert_eq!(back.phone, payload.phone);
    assert_eq!(back.email, payload.email);
    assert_eq!(back.password_hash, payload.password_hash);
}

#[test]
fn payload_without_optionals_round_trips() {
    let payload = OtcPayload {
        otc: "Z9Y8X7".to_string(),
        user_id: 1,
        action: OtcPayloadAction::ConfirmAccount,
        name: "Bob".to_string(),
        phone: None,
        email: "bob@site.org".to_string(),
        password_hash: None,
    };
    let wire = serialize_otc_payload(&payload);
    let back = parse_otc_payload(&wire).expect("round trip must parse");
    assert_eq!(back.user_id, 1);
    assert_eq!(back.action, OtcPayloadAction::ConfirmAccount);
    assert_eq!(back.phone, None);
    assert_eq!(back.password_hash, None);
}

#[test]
fn payload_wire_form_is_exact() {
    let payload = OtcPayload {
        otc: "AB12CD".to_string(),
        user_id: 7,
        action: OtcPayloadAction::DeleteAccount,
        name: "Ann".to_string(),
        phone: None,
        email: "a@bc.de".to_string(),
        password_hash: None,
    };
    let wire = serialize_otc_payload(&payload);
    assert_eq!(wire, "D7;6:AB12CD3:Ann7:a@bc.de--");
}

#[test]
fn parse_rejects_malformed_payloads() {
    assert!(parse_otc_payload("").is_none());
    assert!(parse_otc_payload("not a payload").is_none());
    assert!(parse_otc_payload("Q7;6:AB12CD3:Ann7:a@bc.de--").is_none());
    assert!(parse_otc_payload("D7;6:AB12CD3:Ann7:a@bc.de-").is_none());
    assert!(parse_otc_payload("D7;6:AB12CD3:Ann8:a@bc.de--").is_none());
    // a negative or oversized user id is rejected
    assert!(parse_otc_payload("D2147483648;6:AB12CD3:Ann7:a@bc.de--").is_none());
}

#[test]
fn sanitize_replaces_risky_characters() {
    assert_eq!(
        sanitize("a&b<c>'d/e`f=g"),
        "a&amp;b&lt;c&gt;&apos;d&amp;#x2F;e&amp;#x60;f&amp;#x3D;g"
    );
}

#[test]
fn sanitize_leaves_safe_text_alone() {
    assert_eq!(sanitize("plain text 123"), "plain text 123");
    // double quotes are not in the replaced set
    assert_eq!(sanitize("say \"hi\""), "say \"hi\"");
}

#[test]
fn confirm_account_creation_email_embeds_name() {
    let body = generate_confirm_account_creation_email("Alice");
    assert_eq!(
        body,
        "<html><body><h1>Welcome, Alice!</h1><p>Your account has been created. \
         Use the code we sent you to confirm it.</p></body></html>"
    );
}

#[test]
fn set_cookie_header_is_exact() {
    assert_eq!(
        format_set_cookie("Bearer", "tok", Some(600)),
        "Bearer=tok; HttpOnly; SameSite=Lax; Path=/; Max-Age=600;"
    );
    assert_eq!(
        format_set_cookie("RefreshToken", "r1", None),
        "RefreshToken=r1; HttpOnly; SameSite=Lax; Path=/;"
    );
}

#[test]
fn delete_cookie_header_is_exact() {
    assert_eq!(
        format_delete_cookie("Bearer"),
        "Bearer=; HttpOnly; SameSite=Lax; Path=/; Max-Age=0;"
    );
}

#[test]
fn get_cookie_finds_named_cookie() {
    let header = "language=en; Bearer=abc.def.ghi; RefreshToken=R123";
    assert_eq!(get_cookie(header, "Bearer"), Some("abc.def.ghi".to_string()));
    assert_eq!(get_cookie(header, "RefreshToken"), Some("R123".to_string()));
    assert_eq!(get_cookie(header, "language"), Some("en".to_string()));
    assert_eq!(get_cookie(header, "Missing"), None);
}

#[test]
fn get_cookie_trims_segment_whitespace() {
    assert_eq!(get_cookie("  Bearer=x  ;y=z", "Bearer"), Some("x".to_string()));
    assert_eq!(get_cookie("a=1;   Bearer=q", "Bearer"), Some("q".to_string()));
    assert_eq!(get_cookie("", "Bearer"), None);
    assert_eq!(get_cookie("Bearer", "Bearer"), None);
}
