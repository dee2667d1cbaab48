use rustrsssrv::errors::{AppError, DbFailure, FieldError};
use rustrsssrv::handlers::forms::{
    import_message, setup_created, setup_submit_step, validation_message, AddFeedForm,
    DiscoverForm, SetupAnswer, SetupForm,
};
use rustrsssrv::handlers::pages::{
    api_list_query, article_html, article_row, article_rows, filter_label, health_response,
    list_page_query,
    media_content_type, published_text, sort_label, ArticlePageParams, DiscoveredRow,
    ListFeedsQuery, SearchWebQuery,
};
use rustrsssrv::models::article::{Article, ListArticlesQuery};
use rustrsssrv::models::feed::{DiscoveredFeed, ImportResult};
use rustrsssrv::models::user::User;

fn user(default_filter: &str) -> User {
    User {
        id: 1,
        email: "u@example.com".into(),
        timezone: "UTC".into(),
        default_filter: default_filter.into(),
        default_sort_order: "newest_first".into(),
        default_feed_id: None,
        created_at: 0,
        updated_at: 0,
    }
}

fn form(email: &str, password: &str, confirmation: &str) -> SetupForm {
    SetupForm { email: email.into(), password: password.into(), password_confirmation: confirmation.into() }
}

#[test]
fn setup_is_closed_once_a_user_exists() {
    match setup_submit_step(1, form("a@b.co", "Password123!", "Password123!")) {
        Ok(SetupAnswer::Redirect(p)) => assert_eq!(p, "/"),
        other => panic!("{:?}", other),
    }
}

#[test]
fn setup_validates_and_compares_passwords() {
    match setup_submit_step(0, form("bad", "short", "short")) {
        Err(AppError::Validation(v)) => {
            let names: Vec<&str> = v.iter().map(|f| f.field.as_str()).collect();
            assert_eq!(names, vec!["email", "password"]);
        }
        other => panic!("{:?}", other),
    }
    match setup_submit_step(0, form("a@example.com", "password1", "password1")) {
        Err(AppError::Validation(v)) => {
            assert_eq!(v.len(), 1);
            assert_eq!(v[0].field, "password");
            assert_eq!(v[0].code, "password must contain uppercase, lowercase, digit, and special character");
        }
        other => panic!("{:?}", other),
    }
    match setup_submit_step(0, form("a@b.co", "Password123!", "Password123?")) {
        Ok(SetupAnswer::FormError { email, message }) => {
            assert_eq!(email, "a@b.co");
            assert_eq!(message, "passwords do not match");
        }
        other => panic!("{:?}", other),
    }
    match setup_submit_step(0, form("a@b.co", "Password123!", "Password123!")) {
        Ok(SetupAnswer::Create(req)) => {
            assert_eq!(req.email, "a@b.co");
            assert_eq!(req.password, "Password123!");
            assert_eq!(req.password_confirmation, "Password123!");
        }
        other => panic!("{:?}", other),
    }
}

#[test]
fn setup_outcome_after_creating_the_user() {
    match setup_created(Ok(()), "a@b.co") {
        Ok(SetupAnswer::Redirect(p)) => assert_eq!(p, "/login"),
        other => panic!("{:?}", other),
    }
    match setup_created(Err(AppError::Database(DbFailure::UniqueViolation)), "a@b.co") {
        Ok(SetupAnswer::FormError { email, message }) => {
            assert_eq!(email, "a@b.co");
            assert_eq!(message, "email already exists");
        }
        other => panic!("{:?}", other),
    }
    assert!(matches!(
        setup_created(Err(AppError::Database(DbFailure::Other)), "a@b.co"),
        Err(AppError::Database(DbFailure::Other))
    ));
}

#[test]
fn feed_forms_need_a_url() {
    assert!(AddFeedForm { url: "ftp://files.example/feed".into() }.validate().is_ok());
    match (DiscoverForm { url: "example.com".into() }).validate() {
        Err(AppError::Validation(v)) => assert_eq!(validation_message(&v), "invalid URL"),
        other => panic!("{:?}", other),
    }
}

#[test]
fn validation_messages_are_joined() {
    let errs = vec![
        FieldError::new("url", "url", Some("invalid URL")),
        FieldError::new("name", "required", None),
    ];
    assert_eq!(validation_message(&errs), "invalid URL; required");
    assert_eq!(validation_message(&Vec::<FieldError>::new()), "");
}

#[test]
fn import_message_counts() {
    let r = ImportResult { total: 12, imported: 10, failed: 2, feeds: vec![] };
    assert_eq!(import_message(&r), "Imported 10 of 12 feeds (2 failed).");
}

#[test]
fn article_list_defaults_come_from_the_user() {
    let p = list_page_query(ArticlePageParams::default(), &user("unread"));
    assert_eq!((p.query.is_read, p.query.is_starred), (Some(false), None));
    assert_eq!(p.query.sort.as_deref(), Some("newest_first"));
    assert_eq!(p.query.limit, Some(50));
    assert_eq!(p.filter, "unread");
    assert_eq!((p.save_filter, p.save_sort, p.save_feed), (None, None, None));
    let all = list_page_query(ArticlePageParams::default(), &user("all"));
    assert_eq!((all.query.is_read, all.query.is_starred), (None, None));
    let read = list_page_query(ArticlePageParams::default(), &user("read"));
    assert_eq!((read.query.is_read, read.query.is_starred, read.filter.as_str()), (Some(true), None, "read"));
    let given = ArticlePageParams {
        is_read: Some(true),
        sort: Some("oldest_first".into()),
        limit: Some(5),
        feed_id: Some(Some(3)),
        cursor: Some(8),
        direction: Some("prev".into()),
        is_starred: Some(true),
        filter: None,
    };
    let q = list_page_query(given, &user("all"));
    assert_eq!(q.query.is_read, Some(true));
    assert_eq!(q.query.is_starred, Some(true));
    assert_eq!(q.query.sort.as_deref(), Some("oldest_first"));
    assert_eq!((q.query.limit, q.query.feed_id, q.query.cursor), (Some(5), Some(3), Some(8)));
    assert_eq!(q.query.direction.as_deref(), Some("prev"));
    assert_eq!(filter_label(None), "all");
    assert_eq!(filter_label(Some(true)), "read");
    assert_eq!(filter_label(Some(false)), "unread");
    assert_eq!(sort_label(&None), "oldest_first");
    assert_eq!(sort_label(&Some("newest_first".into())), "newest_first");
}

#[test]
fn web_articles_default_filter_starred() {
    let p = list_page_query(ArticlePageParams::default(), &user("starred"));
    assert_eq!(p.query.is_starred, Some(true));
    assert_eq!(p.query.is_read, None);
    assert_eq!(p.filter, "starred");
}

#[test]
fn web_articles_filter_by_feed_and_persists_default() {
    let mut u = user("unread");
    let first = list_page_query(
        ArticlePageParams { feed_id: Some(Some(4)), filter: Some("all".into()), ..ArticlePageParams::default() },
        &u,
    );
    assert_eq!(first.query.feed_id, Some(4));
    assert_eq!(first.save_feed, Some(Some(4)));
    assert_eq!(first.save_filter.as_deref(), Some("all"));
    u.default_feed_id = Some(4);
    let second = list_page_query(ArticlePageParams { filter: Some("all".into()), ..ArticlePageParams::default() }, &u);
    assert_eq!(second.query.feed_id, Some(4));
    assert_eq!(second.save_feed, None);
    let third = list_page_query(
        ArticlePageParams { feed_id: Some(None), filter: Some("all".into()), ..ArticlePageParams::default() },
        &u,
    );
    assert_eq!(third.query.feed_id, None);
    assert_eq!(third.save_feed, Some(None));
}

#[test]
fn article_list_page_saves_explicit_filter_but_not_legacy_params() {
    let u = user("unread");
    let legacy = list_page_query(ArticlePageParams { is_read: Some(true), ..ArticlePageParams::default() }, &u);
    assert_eq!(legacy.query.is_read, Some(true));
    assert_eq!(legacy.filter, "read");
    assert_eq!(legacy.save_filter, None);
    let explicit = list_page_query(
        ArticlePageParams {
            filter: Some("starred".into()),
            sort: Some("newest_first".into()),
            ..ArticlePageParams::default()
        },
        &u,
    );
    assert_eq!((explicit.query.is_read, explicit.query.is_starred), (None, Some(true)));
    assert_eq!(explicit.filter, "starred");
    assert_eq!(explicit.save_filter.as_deref(), Some("starred"));
    assert_eq!(explicit.save_sort.as_deref(), Some("newest_first"));
    let odd = list_page_query(
        ArticlePageParams { filter: Some("weird".into()), sort: Some("sideways".into()), ..ArticlePageParams::default() },
        &u,
    );
    assert_eq!((odd.save_filter, odd.save_sort), (None, None));
    assert_eq!(odd.filter, "unread");
}

#[test]
fn article_rows_show_plain_summaries_and_dates() {
    let a = Article {
        id: 4,
        url: "https://e.com/4".into(),
        title: "Summary HTML Post".into(),
        summary: Some("<p>This is a <strong>summary</strong> with enough words</p>".into()),
        markdown_content: String::new(),
        published_at: Some(0),
        fetched_at: 0,
        feed_id: 1,
        feed_title: Some("F".into()),
        is_read: true,
        is_starred: false,
    };
    let r = article_row(&a);
    assert_eq!(r.id, 4);
    assert_eq!(r.summary.as_deref(), Some("This is a summary with enough words"));
    assert_eq!(r.published_at.as_deref(), Some("Thu, 1 Jan 1970 00:00:00 +0000"));
    assert_eq!(r.feed_title.as_deref(), Some("F"));
    assert!(r.is_read && !r.is_starred);
    let rows = article_rows(&vec![a.clone(), Article { id: 5, summary: None, published_at: None, ..a }]);
    assert_eq!(rows.len(), 2);
    assert_eq!(rows[1].summary, None);
    assert_eq!(rows[1].published_at, None);
    assert_eq!(published_text(None), None);
}

#[test]
fn markdown_renders_as_html() {
    let html = article_html("This is a paragraph with **bold** text.");
    assert_eq!(html, "<p>This is a paragraph with <strong>bold</strong> text.</p>\n");
}

#[test]
fn search_and_list_query_defaults() {
    let q = SearchWebQuery { q: Some("  rust  ".into()), limit: None };
    assert_eq!(q.term(), "rust");
    assert_eq!(q.limit_or_default(), 50);
    assert_eq!(SearchWebQuery::default().term(), "");
    assert_eq!(SearchWebQuery { q: None, limit: Some(3) }.limit_or_default(), 3);
    assert_eq!(ListFeedsQuery::default().limit_or_default(), 20);
    assert_eq!(ListFeedsQuery { cursor: None, limit: Some(7) }.limit_or_default(), 7);
}

#[test]
fn health_and_media_headers() {
    let h = health_response(1, true);
    assert_eq!(h.status_code, 200);
    assert_eq!((h.body.status.as_str(), h.body.database.as_str()), ("ok", "ok"));
    let read_only = health_response(1, false);
    assert_eq!(read_only.status_code, 503);
    assert_eq!(read_only.body.database, "error");
    assert_eq!(health_response(0, true).status_code, 503);
    assert_eq!(media_content_type("image/png"), "image/png");
    assert_eq!(media_content_type("image/png\n"), "application/octet-stream");
    assert_eq!(media_content_type("text/plain; charset=utf-8"), "text/plain; charset=utf-8");
    let row = DiscoveredRow::of(DiscoveredFeed { url: "https://e.com/f".into(), title: None });
    assert_eq!(row.url, "https://e.com/f");
    assert_eq!(row.title, None);
}

#[test]
fn articles_api_applies_the_default_filter() {
    let q = api_list_query(ListArticlesQuery::default(), &user("starred"));
    assert_eq!((q.is_read, q.is_starred), (None, Some(true)));
    let q = api_list_query(ListArticlesQuery { limit: Some(3), ..ListArticlesQuery::default() }, &user("unread"));
    assert_eq!((q.is_read, q.is_starred, q.limit), (Some(false), None, Some(3)));
    let q = api_list_query(ListArticlesQuery::default(), &user("all"));
    assert_eq!((q.is_read, q.is_starred), (None, None));
    let given = ListArticlesQuery { is_starred: Some(false), feed_id: Some(2), ..ListArticlesQuery::default() };
    let q = api_list_query(given.clone(), &user("read"));
    assert_eq!(q, given);
}

#[test]
fn setup_creates_only_the_first_user() {
    let good = || form("admin@example.com", "Password123!", "Password123!");
    let mut users = 0i64;
    for _ in 0..3 {
        if let Ok(SetupAnswer::Create(_)) = setup_submit_step(users, good()) {
            users += 1;
        }
    }
    assert_eq!(users, 1);
}
