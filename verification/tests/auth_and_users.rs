use rustrsssrv::errors::AppError;
use rustrsssrv::models::user::{CreateUserRequest, User, UserUpdate};
use rustrsssrv::services::auth::{
    access_claims, blake3_hash, check_access_claims, check_login, check_refresh_token,
    access_cookie, cleared_access_cookie, create_access_token, extract_access_token,
    sign_access_claims, validate_access_token, hash_password, login_response, new_refresh_token, refresh_response,
    verify_password, Claims, ACCESS_TOKEN_SECS, BCRYPT_COST, REFRESH_TOKEN_MILLIS,
};
use rustrsssrv::services::user::{
    check_current_password, is_allowed_filter, is_allowed_sort, map_user, new_user_record,
    plan_user_update, prepare_new_user,
};

fn sample_user() -> User {
    map_user(
        7,
        "old@example.com".into(),
        "UTC".into(),
        "unread".into(),
        "oldest_first".into(),
        Some(3),
        1_000,
    )
}

#[test]
fn password_hash_verifies_and_rejects_other_passwords() {
    let h = hash_password("Password123!".to_string()).unwrap();
    assert_eq!(h.len(), 60);
    assert!(h.starts_with("$2b$12$"));
    assert_eq!(h.len(), 60);
    assert!(h.starts_with(&format!("$2b${}$", BCRYPT_COST)));
    assert_eq!(verify_password("Password123!", &h).unwrap(), true);
    assert_eq!(verify_password("password123!", &h).unwrap(), false);
    assert!(check_login("Password123!", Some(&h)).is_ok());
    assert!(matches!(check_login("wrong", Some(&h)), Err(AppError::Unauthorized)));
    assert!(check_current_password("Password123!", &h).is_ok());
    assert!(matches!(check_current_password("nope", &h), Err(AppError::Unauthorized)));
}

#[test]
fn login_without_user_or_with_bad_hash_fails() {
    assert!(matches!(check_login("x", None), Err(AppError::Unauthorized)));
    assert!(matches!(check_login("x", Some("not-a-hash")), Err(AppError::Argon(_))));
    assert!(matches!(verify_password("x", "not-a-hash"), Err(AppError::Argon(_))));
}

#[test]
fn blake3_hash_is_the_hex_digest() {
    assert_eq!(
        blake3_hash("abc"),
        "6437b3ac38465133ffb63b75273a8db548c558465d79db03fd359c6cd5bd9d85"
    );
    assert_eq!(blake3_hash("token"), blake3_hash("token"));
    assert_ne!(blake3_hash("token"), blake3_hash("token2"));
}

#[test]
fn access_claims_last_seven_days() {
    let c = access_claims(42, "a@b.co");
    assert_eq!(c.sub, 42);
    assert_eq!(c.email, "a@b.co");
    assert_eq!(c.typ, "access");
    assert_eq!(c.exp - c.iat, 604800);
    assert_eq!(ACCESS_TOKEN_SECS, 7 * 24 * 60 * 60);
    assert!(check_access_claims(c.clone()).is_ok());
    let refresh = Claims { typ: "refresh".into(), ..c };
    assert!(matches!(check_access_claims(refresh), Err(AppError::Unauthorized)));
}

#[test]
fn token_responses_are_bearer_tokens() {
    let r = login_response("a".into(), "r".into());
    assert_eq!((r.access_token.as_str(), r.refresh_token.as_str()), ("a", "r"));
    assert_eq!(r.token_type, "Bearer");
    assert_eq!(r.expires_in, 604800);
    let r = refresh_response("b".into());
    assert_eq!(r.access_token, "b");
    assert_eq!(r.token_type, "Bearer");
    assert_eq!(r.expires_in, 604800);
}

#[test]
fn refresh_tokens_are_two_uuids_stored_by_digest() {
    let t = new_refresh_token(1_000);
    assert_eq!(t.token.len(), 73);
    assert_eq!(t.token.as_bytes()[36], b'.');
    assert_eq!(t.token_hash, blake3_hash(&t.token));
    assert_eq!(t.expires_at, 1_000 + REFRESH_TOKEN_MILLIS);
    assert_eq!(REFRESH_TOKEN_MILLIS, 90 * 24 * 60 * 60 * 1000);
    let other = new_refresh_token(1_000);
    assert_ne!(t.token, other.token);
}

#[test]
fn refresh_token_check_rejects_unknown_and_expired() {
    assert!(matches!(check_refresh_token(None, 10), Err(AppError::Unauthorized)));
    assert!(matches!(check_refresh_token(Some((5, 9)), 10), Err(AppError::Unauthorized)));
    assert_eq!(check_refresh_token(Some((5, 10)), 10).unwrap(), 5);
    assert_eq!(check_refresh_token(Some((5, 11)), 10).unwrap(), 5);
}

#[test]
fn access_token_from_header_or_cookie() {
    assert_eq!(extract_access_token(Some("Bearer abc"), None), Some("abc".to_string()));
    assert_eq!(extract_access_token(Some("bearer abc"), None), Some("abc".to_string()));
    assert_eq!(extract_access_token(Some("Basic abc"), None), None);
    assert_eq!(
        extract_access_token(None, Some("theme=dark; access_token=xyz; other=1")),
        Some("xyz".to_string())
    );
    assert_eq!(extract_access_token(None, Some("access_token")), None);
    assert_eq!(
        extract_access_token(None, Some(" access_token=a=b ;access_token=c")),
        Some("a=b".to_string())
    );
    // The header wins over the cookie; a header without a bearer token
    // leaves the cookie.
    assert_eq!(
        extract_access_token(Some("Bearer h"), Some("access_token=c")),
        Some("h".to_string())
    );
    assert_eq!(
        extract_access_token(Some("Token h"), Some("access_token=c")),
        Some("c".to_string())
    );
    assert_eq!(extract_access_token(None, None), None);
}

#[test]
fn user_preference_values() {
    for f in ["all", "unread", "read", "starred"] {
        assert!(is_allowed_filter(f));
    }
    assert!(!is_allowed_filter("All"));
    assert!(is_allowed_sort("oldest_first"));
    assert!(is_allowed_sort("newest_first"));
    assert!(!is_allowed_sort("random"));
}

#[test]
fn user_update_plan_applies_present_fields() {
    let user = sample_user();
    let req = UserUpdate {
        email: Some("new@example.com".into()),
        default_sort_order: Some("newest_first".into()),
        current_password: Some("Old-pass1".into()),
        new_password: Some("New-pass1".into()),
        ..UserUpdate::default()
    };
    let plan = plan_user_update(&user, req, false).unwrap();
    assert_eq!(plan.settings.email, "new@example.com");
    assert_eq!(plan.settings.timezone, "UTC");
    assert_eq!(plan.settings.default_filter, "unread");
    assert_eq!(plan.settings.default_sort_order, "newest_first");
    assert!(plan.revoke_refresh_tokens);
    let pw = plan.password.unwrap();
    assert_eq!(pw.current_password, "Old-pass1");
    assert_eq!(pw.new_password, "New-pass1");
}

#[test]
fn empty_user_update_keeps_everything() {
    let user = sample_user();
    let plan = plan_user_update(&user, UserUpdate::default(), true).unwrap();
    assert_eq!(plan.settings.email, user.email);
    assert_eq!(plan.settings.timezone, user.timezone);
    assert_eq!(plan.settings.default_filter, user.default_filter);
    assert_eq!(plan.settings.default_sort_order, user.default_sort_order);
    assert!(plan.password.is_none());
    assert!(!plan.revoke_refresh_tokens);
}

#[test]
fn user_update_errors_in_check_order() {
    let user = sample_user();
    let taken = UserUpdate {
        email: Some("x@example.com".into()),
        default_filter: Some("bogus".into()),
        ..UserUpdate::default()
    };
    match plan_user_update(&user, taken.clone(), true) {
        Err(AppError::Conflict(m)) => assert_eq!(m, "email already in use"),
        other => panic!("{:?}", other.map(|_| ())),
    }
    match plan_user_update(&user, taken, false) {
        Err(AppError::BadRequest(m)) => {
            assert_eq!(m, "default_filter must be 'all', 'unread', 'read', or 'starred'")
        }
        other => panic!("{:?}", other.map(|_| ())),
    }
    let sort = UserUpdate { default_sort_order: Some("sideways".into()), ..UserUpdate::default() };
    match plan_user_update(&user, sort, false) {
        Err(AppError::BadRequest(m)) => {
            assert_eq!(m, "default_sort_order must be 'oldest_first' or 'newest_first'")
        }
        other => panic!("{:?}", other.map(|_| ())),
    }
    let pw = UserUpdate { new_password: Some("New-pass1".into()), ..UserUpdate::default() };
    match plan_user_update(&user, pw, false) {
        Err(AppError::BadRequest(m)) => assert_eq!(m, "current_password required"),
        other => panic!("{:?}", other.map(|_| ())),
    }
}

#[test]
fn new_users_get_default_preferences() {
    let u = new_user_record(9, "n@example.com".into(), 77);
    assert_eq!(u.id, 9);
    assert_eq!(u.email, "n@example.com");
    assert_eq!(u.timezone, "UTC");
    assert_eq!(u.default_filter, "unread");
    assert_eq!(u.default_sort_order, "oldest_first");
    assert_eq!(u.default_feed_id, None);
    assert_eq!((u.created_at, u.updated_at), (77, 77));
    let s = sample_user();
    assert_eq!(s.default_feed_id, Some(3));
}

#[test]
fn preparing_a_user_validates_then_hashes() {
    let bad = CreateUserRequest {
        email: "bad".into(),
        password: "Password123!".into(),
        password_confirmation: "Password123!".into(),
    };
    assert!(matches!(prepare_new_user(bad), Err(AppError::Validation(_))));
    let ok = CreateUserRequest {
        email: "ok@example.com".into(),
        password: "Password123!".into(),
        password_confirmation: "Password123!".into(),
    };
    let u = prepare_new_user(ok).unwrap();
    assert_eq!(u.email, "ok@example.com");
    assert!(verify_password("Password123!", &u.password_hash).unwrap());
}

#[test]
fn login_sets_and_logout_clears_the_access_cookie() {
    assert_eq!(access_cookie("abc.def"), "access_token=abc.def; HttpOnly; Path=/; SameSite=Lax; Max-Age=604800");
    assert_eq!(cleared_access_cookie(), "access_token=; HttpOnly; Path=/; SameSite=Lax; Max-Age=0");
    // What a browser sends back is read as the access token.
    assert_eq!(extract_access_token(None, Some("access_token=abc.def")).as_deref(), Some("abc.def"));
}

fn claims(exp: i64, typ: &str) -> Claims {
    Claims { sub: 9, email: "u@example.com".into(), iat: exp - ACCESS_TOKEN_SECS, exp, typ: typ.into() }
}

#[test]
fn access_tokens_are_signed_and_checked() {
    let secret = b"test-secret";
    let t = sign_access_claims(&claims(1_000, "access"), secret).unwrap();
    assert_eq!(t.split('.').count(), 3);
    let c = validate_access_token(&t, secret, 1_000).unwrap();
    assert_eq!((c.sub, c.email.as_str(), c.exp, c.typ.as_str()), (9, "u@example.com", 1_000, "access"));
    // Sixty seconds of leeway after expiry, then refused.
    assert!(validate_access_token(&t, secret, 1_060).is_ok());
    assert!(matches!(validate_access_token(&t, secret, 1_061), Err(AppError::Unauthorized)));
    // Another secret, a token that is not an access token, garbage.
    assert!(matches!(validate_access_token(&t, b"other", 1_000), Err(AppError::Unauthorized)));
    let r = sign_access_claims(&claims(1_000, "refresh"), secret).unwrap();
    assert!(matches!(validate_access_token(&r, secret, 1_000), Err(AppError::Unauthorized)));
    assert!(matches!(validate_access_token("not.a.token", secret, 1_000), Err(AppError::Unauthorized)));
    // A fresh token for a user is accepted now.
    let fresh = create_access_token(4, "new@example.com", secret).unwrap();
    let now = std::time::SystemTime::now().duration_since(std::time::UNIX_EPOCH).unwrap().as_secs() as i64;
    let c = validate_access_token(&fresh, secret, now).unwrap();
    assert_eq!((c.sub, c.email.as_str()), (4, "new@example.com"));
    assert_eq!(c.exp - c.iat, ACCESS_TOKEN_SECS);
}
