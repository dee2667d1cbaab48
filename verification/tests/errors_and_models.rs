use rustrsssrv::errors::{finish_validation, AppError, DbFailure, FieldError};
use rustrsssrv::models::article::ListArticlesQuery;
use rustrsssrv::models::feed::{check_web_url, CreateFeedRequest, DiscoverRequest};
use rustrsssrv::models::user::{
    validate_password_complexity, CreateUserRequest, LoginRequest, PasswordChange, UserUpdate,
};

fn fields(e: &AppError) -> Vec<(String, String, Option<String>)> {
    match e {
        AppError::Validation(v) => v
            .iter()
            .map(|f| (f.field.clone(), f.code.clone(), f.message.clone()))
            .collect(),
        other => panic!("not a validation error: {:?}", other),
    }
}

#[test]
fn error_messages_read_as_their_display_form() {
    assert_eq!(AppError::Unauthorized.message(), "unauthorized");
    assert_eq!(AppError::Forbidden.message(), "forbidden");
    assert_eq!(AppError::NotFound.message(), "not found");
    assert_eq!(AppError::Conflict("dup".into()).message(), "conflict: dup");
    assert_eq!(AppError::BadRequest("bad".into()).message(), "bad request: bad");
    assert_eq!(AppError::Validation(vec![]).message(), "validation failed");
    assert_eq!(AppError::Database(DbFailure::Other).message(), "database error");
    assert_eq!(AppError::Internal("boom".into()).message(), "internal error");
    assert_eq!(AppError::Argon("hash".into()).message(), "hash");
    assert_eq!(AppError::Jwt("token".into()).message(), "token");
}

#[test]
fn error_responses_have_status_kind_and_message() {
    let cases: Vec<(AppError, u16, &str, &str)> = vec![
        (AppError::Unauthorized, 401, "unauthorized", "unauthorized"),
        (AppError::Forbidden, 403, "forbidden", "forbidden"),
        (AppError::NotFound, 404, "not_found", "not found"),
        (AppError::Conflict("email taken".into()), 409, "conflict", "email taken"),
        (AppError::BadRequest("nope".into()), 400, "bad_request", "nope"),
        (AppError::Database(DbFailure::RowNotFound), 404, "not_found", "resource not found"),
        (AppError::Database(DbFailure::UniqueViolation), 500, "internal_error", "internal server error"),
        (AppError::Internal("secret detail".into()), 500, "internal_error", "internal server error"),
        (AppError::Argon("x".into()), 500, "internal_error", "internal server error"),
        (AppError::Jwt("x".into()), 500, "internal_error", "internal server error"),
    ];
    for (e, status, kind, message) in cases {
        let r = e.response_parts();
        assert_eq!(r.status, status);
        assert_eq!(r.kind, kind);
        assert_eq!(r.message, message);
        assert!(r.details.is_none());
        assert_eq!(r.www_authenticate, status == 401);
    }
}

#[test]
fn validation_response_lists_each_failure() {
    let e = AppError::Validation(vec![
        FieldError::new("email", "email", Some("invalid email")),
        FieldError::new("new_password", "password too short", None),
    ]);
    let r = e.response_parts();
    assert_eq!(r.status, 400);
    assert_eq!(r.kind, "validation_failed");
    assert_eq!(r.message, "validation failed");
    assert_eq!(
        r.details,
        Some(vec!["email: invalid email".to_string(), "new_password: ".to_string()])
    );
}

#[test]
fn finishing_validation_without_failures_is_ok() {
    assert!(finish_validation(vec![]).is_ok());
    let r = finish_validation(vec![FieldError::new("url", "url", Some("invalid URL"))]);
    assert_eq!(
        fields(&r.unwrap_err()),
        vec![("url".to_string(), "url".to_string(), Some("invalid URL".to_string()))]
    );
}

#[test]
fn password_complexity_rule() {
    assert_eq!(validate_password_complexity("Password123!"), Ok(()));
    assert_eq!(
        validate_password_complexity("Pa1!"),
        Err("password too short".to_string())
    );
    let weak = "password must contain uppercase, lowercase, digit, and special character".to_string();
    assert_eq!(validate_password_complexity("password123!"), Err(weak.clone()));
    assert_eq!(validate_password_complexity("PASSWORD123!"), Err(weak.clone()));
    assert_eq!(validate_password_complexity("Password!!!!"), Err(weak.clone()));
    assert_eq!(validate_password_complexity("Password1234"), Err(weak));
    // A non-ASCII letter is alphanumeric, so it is no special character.
    assert!(validate_password_complexity("Passwörd1é").is_err());
    // Length is counted in bytes: seven characters, eight bytes.
    assert_eq!(validate_password_complexity("Pä1!abc"), Ok(()));
}

#[test]
fn create_user_request_rules() {
    let ok = CreateUserRequest {
        email: "user@example.com".into(),
        password: "Password123!".into(),
        password_confirmation: "Password123!".into(),
    };
    assert!(ok.validate().is_ok());
    let bad = CreateUserRequest {
        email: "not-an-email".into(),
        password: "short".into(),
        password_confirmation: "other".into(),
    };
    let f = fields(&bad.validate().unwrap_err());
    let names: Vec<&str> = f.iter().map(|x| x.0.as_str()).collect();
    assert_eq!(names, vec!["email", "password", "password_confirmation"]);
    assert_eq!(f[1].2.as_deref(), Some("password must be at least 8 characters"));
    assert_eq!(f[2].2.as_deref(), Some("passwords do not match"));
    let weak = CreateUserRequest {
        email: "user@example.com".into(),
        password: "password1".into(),
        password_confirmation: "password1".into(),
    };
    let w = fields(&weak.validate().unwrap_err());
    assert_eq!(w.len(), 1);
    assert_eq!(w[0].0, "password");
    assert_eq!(w[0].1, "password must contain uppercase, lowercase, digit, and special character");
    assert_eq!(w[0].2, None);
}

#[test]
fn login_request_needs_an_email() {
    let ok = LoginRequest { email: "a@b.co".into(), password: "x".into() };
    assert!(ok.validate().is_ok());
    let bad = LoginRequest { email: "nobody".into(), password: "x".into() };
    assert_eq!(fields(&bad.validate().unwrap_err())[0].0, "email");
}

#[test]
fn user_update_checks_only_present_fields() {
    assert!(UserUpdate::default().validate().is_ok());
    let bad = UserUpdate {
        email: Some("broken".into()),
        new_password: Some("weak".into()),
        ..UserUpdate::default()
    };
    let f = fields(&bad.validate().unwrap_err());
    assert_eq!(f.len(), 2);
    assert_eq!(f[0].0, "email");
    assert_eq!(f[1].0, "new_password");
    assert_eq!(f[1].1, "password too short");
}

#[test]
fn password_change_checks_the_new_password() {
    let ok = PasswordChange { current_password: "anything".into(), new_password: "N3w-password".into() };
    assert!(ok.validate().is_ok());
    let bad = PasswordChange { current_password: "anything".into(), new_password: "newpassword".into() };
    assert!(matches!(bad.validate(), Err(AppError::Validation(_))));
}

#[test]
fn feed_urls_must_be_http_or_https() {
    assert!(check_web_url("https://example.com/feed.xml"));
    assert!(check_web_url("http://example.com"));
    assert!(!check_web_url("ftp://example.com/feed"));
    assert!(!check_web_url("not a url"));
    assert!(CreateFeedRequest { url: "https://example.com/rss".into() }.validate().is_ok());
    let f = fields(&DiscoverRequest { url: "mailto:a@b.c".into() }.validate().unwrap_err());
    assert_eq!(f, vec![("url".to_string(), "url".to_string(), Some("invalid URL".to_string()))]);
}

#[test]
fn list_query_words_ignore_ascii_case() {
    let q = ListArticlesQuery {
        sort: Some("NEWEST_FIRST".into()),
        direction: Some("Prev".into()),
        ..ListArticlesQuery::default()
    };
    assert!(q.is_newest_first());
    assert!(q.is_backward());
    assert!(!ListArticlesQuery::default().is_newest_first());
    assert!(!ListArticlesQuery::default().is_backward());
}
