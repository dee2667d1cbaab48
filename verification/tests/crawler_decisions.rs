use rustrsssrv::errors::AppError;
use rustrsssrv::models::article::ArticleInput;
use rustrsssrv::ext::feed_docs::{AtomEntry, AtomFeed, JsonFeedDoc, JsonItem, RssChannel, RssGuid, RssItem};
use rustrsssrv::services::cleaner::CleanedContent;
use rustrsssrv::services::crawler::{
    article_html, article_record, cache_until, conditional_headers, content_type_hint,
    failure_update, fetch_outcome, max_age_seconds, next_fetch_after_success, parse_atom,
    parse_feed, parse_json, parse_rss, path_last_segment, politeness_slot, redirect_step,
    title_from_url, articles_of_atom, articles_of_json, articles_of_rss, FeedRow, FeedType,
    FetchOutcome, FetchedFeed, RedirectStep, DAILY_MS,
    MAX_AGE_CAP, MAX_CONCURRENT, MAX_REDIRECTS, POLITENESS_MS,
};

const RSS: &str = r#"<?xml version="1.0" encoding="UTF-8"?>
<rss version="2.0">
  <channel>
    <title>Example</title>
    <link>https://example.com</link>
    <description>An example feed</description>
    <item>
      <title>First Post</title>
      <link>https://example.com/first</link>
      <description>The first post.</description>
      <pubDate>Tue, 10 Jun 2003 04:00:00 GMT</pubDate>
    </item>
    <item>
      <description>No link, no guid: skipped.</description>
    </item>
    <item>
      <guid isPermaLink="true">/relative/guid</guid>
    </item>
    <item>
      <title>Not a permalink</title>
      <guid isPermaLink="false">tag:example.com,2003:1</guid>
    </item>
  </channel>
</rss>
"#;

const ATOM: &str = r#"<?xml version="1.0" encoding="utf-8"?>
<feed xmlns="http://www.w3.org/2005/Atom">
  <title>Atom Example</title>
  <link rel="alternate" href="https://atom.example.org/"/>
  <updated>2003-12-13T18:30:02Z</updated>
  <id>urn:uuid:60a76c80-d399-11d9-b93C-0003939e0af6</id>
  <entry>
    <title>Atom Post</title>
    <link rel="self" href="/self/1"/>
    <link rel="alternate" href="/posts/1"/>
    <id>urn:uuid:1</id>
    <updated>2003-12-13T18:30:02Z</updated>
    <content type="html">&lt;p&gt;Body&lt;/p&gt;</content>
  </entry>
  <entry>
    <title>Only self link</title>
    <link rel="self" href="https://atom.example.org/self/2"/>
    <id>urn:uuid:2</id>
    <updated>2003-12-13T18:30:02Z</updated>
    <published>2003-12-12T00:00:00Z</published>
    <summary>Sum</summary>
  </entry>
</feed>
"#;

const JSON: &str = r#"{
  "version": "https://jsonfeed.org/version/1.1",
  "title": "Json Example",
  "feed_url": "https://json.example.net/feed.json",
  "items": [
    {"id": "1", "url": "/one", "content_text": "Plain body", "date_published": "2020-01-01T00:00:00Z"},
    {"id": "2", "title": "No url"},
    {"id": "3", "url": "https://other.test/three", "title": "Three", "summary": "S", "content_html": "<p>H</p>"}
  ]
}"#;

fn inputs(v: &[ArticleInput]) -> Vec<(String, String)> {
    v.iter().map(|a| (a.url.clone(), a.title.clone())).collect()
}

#[test]
fn feed_kinds_are_recognised_from_the_text() {
    assert_eq!(content_type_hint(RSS), FeedType::Rss);
    assert_eq!(content_type_hint(ATOM), FeedType::Atom);
    assert_eq!(
        content_type_hint(r#"<?xml version="1.0"?><feed xmlns="http://www.w3.org/2005/Atom"><title>T</title></feed>"#),
        FeedType::Atom
    );
    assert_eq!(
        content_type_hint(r#"<?xml version="1.0"?><rss xmlns:atom="http://www.w3.org/2005/Atom"><channel/></rss>"#),
        FeedType::Rss
    );
    assert_eq!(content_type_hint(r#"<?xml version="1.0"?><x xmlns="http://www.w3.org/2005/Atom"/>"#), FeedType::Rss);
    assert_eq!(content_type_hint("<?xml version=\"1.0\"?><feed>"), FeedType::Atom);
    assert_eq!(content_type_hint("  \n<feed xmlns=\"x\">"), FeedType::Atom);
    assert_eq!(content_type_hint("<rss>"), FeedType::Rss);
    assert_eq!(content_type_hint("<channel>"), FeedType::Rss);
    assert_eq!(content_type_hint(" {\"items\": []}"), FeedType::Json);
    assert_eq!(content_type_hint("<html>"), FeedType::Unknown);
    assert_eq!(content_type_hint(""), FeedType::Unknown);
}

#[test]
fn rss_items_become_articles() {
    let a = parse_rss(RSS.as_bytes(), "https://feeds.example.com/rss", "https://final.example.com/rss").unwrap();
    assert_eq!(
        inputs(&a),
        vec![
            ("https://example.com/first".to_string(), "First Post".to_string()),
            ("https://example.com/relative/guid".to_string(), "guid".to_string()),
        ]
    );
    assert_eq!(a[0].summary.as_deref(), Some("The first post."));
    assert_eq!(a[0].content_html, None);
    assert_eq!(a[0].published_at, Some(1055217600000));
    assert_eq!(a[1].published_at, None);
}

#[test]
fn rss_base_falls_back_to_the_feed_url() {
    let doc = r#"<rss version="2.0"><channel><title>T</title><link></link>
      <item><link>post/9</link></item></channel></rss>"#;
    let a = parse_rss(doc.as_bytes(), "https://feeds.example.com/dir/rss", "https://final.example.com/").unwrap();
    assert_eq!(a[0].url, "https://feeds.example.com/dir/post/9");
    let b = parse_rss(doc.as_bytes(), "not a url", "https://final.example.com/x/").unwrap();
    assert_eq!(b[0].url, "https://final.example.com/x/post/9");
}

#[test]
fn broken_rss_is_an_internal_error() {
    match parse_rss(b"<rss><channel>", "https://f/", "https://f/") {
        Err(AppError::Internal(m)) => assert!(m.starts_with("rss parse: ")),
        other => panic!("{:?}", other),
    }
}

#[test]
fn atom_entries_become_articles() {
    let a = parse_atom(ATOM.as_bytes(), "https://final.example.com/").unwrap();
    assert_eq!(
        inputs(&a),
        vec![
            ("https://atom.example.org/posts/1".to_string(), "Atom Post".to_string()),
            ("https://atom.example.org/self/2".to_string(), "Only self link".to_string()),
        ]
    );
    assert_eq!(a[0].content_html.as_deref(), Some("<p>Body</p>"));
    assert_eq!(a[0].summary.as_deref(), Some("<p>Body</p>"));
    assert_eq!(a[0].published_at, Some(1071340202000));
    assert_eq!(a[1].summary.as_deref(), Some("Sum"));
    assert_eq!(a[1].content_html, None);
    assert_eq!(a[1].published_at, Some(1071187200000));
    match parse_atom(b"garbage", "https://f/") {
        Err(AppError::Internal(m)) => assert!(m.starts_with("atom parse: ")),
        other => panic!("{:?}", other),
    }
}

#[test]
fn json_feed_items_become_articles() {
    let a = parse_json(JSON.as_bytes(), "https://final.example.com/").unwrap();
    assert_eq!(
        inputs(&a),
        vec![
            ("https://json.example.net/one".to_string(), "one".to_string()),
            ("https://other.test/three".to_string(), "Three".to_string()),
        ]
    );
    assert_eq!(a[0].content_html.as_deref(), Some("Plain body"));
    assert_eq!(a[0].published_at, Some(1577836800000));
    assert_eq!(a[1].summary.as_deref(), Some("S"));
    assert_eq!(a[1].content_html.as_deref(), Some("<p>H</p>"));
    match parse_json(&[0xff, 0xfe], "https://f/") {
        Err(AppError::Internal(m)) => assert!(m.starts_with("utf8: ")),
        other => panic!("{:?}", other),
    }
    match parse_json(b"{not json", "https://f/") {
        Err(AppError::Internal(m)) => assert!(m.starts_with("json parse: ")),
        other => panic!("{:?}", other),
    }
    assert!(parse_json(b"{}", "https://f/").unwrap().is_empty());
}

#[test]
fn unknown_documents_try_each_reader() {
    let rss_without_declaration = RSS.replacen("<?xml version=\"1.0\" encoding=\"UTF-8\"?>\n", "<!-- c -->", 1);
    assert_eq!(content_type_hint(&rss_without_declaration), FeedType::Unknown);
    let a = parse_feed(rss_without_declaration.as_bytes(), "https://f/", "https://f/").unwrap();
    assert_eq!(a.len(), 2);
    let j = parse_feed(JSON.as_bytes(), "https://f/", "https://f/").unwrap();
    assert_eq!(j.len(), 2);
    match parse_feed(b"<html><body>hi</body></html>", "https://f/", "https://f/") {
        Err(AppError::Internal(m)) => assert!(m.starts_with("json parse: ")),
        other => panic!("{:?}", other),
    }
}

fn fetched(status: u16, body: Result<Vec<u8>, String>) -> FetchedFeed {
    FetchedFeed {
        status,
        redirects: vec![],
        final_url: "https://final.example.com/feed".into(),
        etag: Some("\"v1\"".into()),
        last_modified: None,
        cache_control: Some("max-age=60".into()),
        expires: None,
        body,
    }
}

fn row() -> FeedRow {
    FeedRow {
        id: 7,
        url: "https://f/".into(),
        last_etag: Some("\"stored\"".into()),
        last_modified: Some("Wed, 21 Oct 2015 07:28:00 GMT".into()),
    }
}

#[test]
fn fetch_outcomes() {
    match fetch_outcome(&row(), Err("connection refused".into())) {
        FetchOutcome::Failed(m) => assert_eq!(m, "fetch failed: connection refused"),
        other => panic!("{:?}", other),
    }
    match fetch_outcome(&row(), Ok(fetched(200, Err("reset".into())))) {
        FetchOutcome::Failed(m) => assert_eq!(m, "read body failed: reset"),
        other => panic!("{:?}", other),
    }
    match fetch_outcome(&row(), Ok(fetched(503, Ok(RSS.as_bytes().to_vec())))) {
        FetchOutcome::Failed(m) => assert_eq!(m, "http status 503"),
        other => panic!("{:?}", other),
    }
    match fetch_outcome(&row(), Ok(fetched(200, Ok(b"garbage".to_vec())))) {
        FetchOutcome::Failed(m) => assert_eq!(m, "parse failed: internal error"),
        other => panic!("{:?}", other),
    }
    match fetch_outcome(&row(), Ok(fetched(200, Ok(RSS.as_bytes().to_vec())))) {
        FetchOutcome::Parsed { articles, success } => {
            assert_eq!(articles.len(), 2);
            assert_eq!(success.etag.as_deref(), Some("\"v1\""));
            assert_eq!(success.last_modified, None);
            assert_eq!(success.moved_to, None);
            assert_eq!(success.cache_control.as_deref(), Some("max-age=60"));
        }
        other => panic!("{:?}", other),
    }
}

#[test]
fn not_modified_keeps_the_stored_validators() {
    let mut f = fetched(304, Ok(vec![]));
    f.etag = None;
    match fetch_outcome(&row(), Ok(f)) {
        FetchOutcome::NotModified(s) => {
            assert_eq!(s.etag.as_deref(), Some("\"stored\""));
            assert_eq!(s.last_modified.as_deref(), Some("Wed, 21 Oct 2015 07:28:00 GMT"));
            assert_eq!(s.moved_to, None);
        }
        other => panic!("{:?}", other),
    }
}

#[test]
fn permanent_redirects_move_the_feed() {
    let mut f = fetched(200, Ok(RSS.as_bytes().to_vec()));
    f.redirects = vec![301, 308];
    match fetch_outcome(&row(), Ok(f)) {
        FetchOutcome::Parsed { success, .. } => {
            assert_eq!(success.moved_to.as_deref(), Some("https://final.example.com/feed"))
        }
        other => panic!("{:?}", other),
    }
    let mut g = fetched(200, Ok(RSS.as_bytes().to_vec()));
    g.redirects = vec![301, 302];
    match fetch_outcome(&row(), Ok(g)) {
        FetchOutcome::Parsed { success, .. } => assert_eq!(success.moved_to, None),
        other => panic!("{:?}", other),
    }
    let mut h = fetched(304, Ok(vec![]));
    h.redirects = vec![308];
    match fetch_outcome(&row(), Ok(h)) {
        FetchOutcome::NotModified(s) => assert_eq!(s.moved_to.as_deref(), Some("https://final.example.com/feed")),
        other => panic!("{:?}", other),
    }
}

#[test]
fn redirects_are_followed_up_to_a_limit() {
    assert_eq!(MAX_REDIRECTS, 10);
    assert_eq!(
        redirect_step(301, &Some("/new.xml".into()), "https://a.example.com/old/feed.xml", 0),
        RedirectStep::Follow("https://a.example.com/new.xml".into())
    );
    assert_eq!(
        redirect_step(307, &Some("https://b.example.com/f".into()), "https://a.example.com/", 9),
        RedirectStep::Follow("https://b.example.com/f".into())
    );
    assert_eq!(redirect_step(302, &Some("/x".into()), "https://a.example.com/", 10), RedirectStep::TooMany);
    assert_eq!(redirect_step(301, &None, "https://a.example.com/", 0), RedirectStep::Arrived);
    assert_eq!(redirect_step(200, &Some("/x".into()), "https://a.example.com/", 0), RedirectStep::Arrived);
}

#[test]
fn empty_feed_is_a_success() {
    let empty = b"<rss version=\"2.0\"><channel><title>E</title><link>https://e.com</link></channel></rss>".to_vec();
    match fetch_outcome(&row(), Ok(fetched(200, Ok(empty)))) {
        FetchOutcome::Parsed { articles, .. } => assert!(articles.is_empty()),
        other => panic!("{:?}", other),
    }
}

#[test]
fn untitled_items_take_the_last_path_segment() {
    let doc = br#"<rss version="2.0"><channel><title>C</title><link>https://example.com</link><description>d</description><item><link>https://example.com/posts/hello-world</link></item></channel></rss>"#;
    let v = parse_rss(doc, "https://example.com/feed.xml", "https://example.com/feed.xml").unwrap();
    assert_eq!(v.len(), 1);
    assert_eq!(v[0].url, "https://example.com/posts/hello-world");
    assert_eq!(v[0].title, "hello-world");
    assert_eq!(title_from_url("https://example.com/a/b/"), "b");
    assert_eq!(title_from_url("https://example.com/"), "Untitled");
    assert_eq!(title_from_url("not a url"), "Untitled");
    assert_eq!(path_last_segment("/x//y///"), "y");
    assert_eq!(path_last_segment("plain"), "plain");
    assert_eq!(path_last_segment("///"), "");
}

#[test]
fn backoff_doubles_from_ten_minutes_up_to_a_day() {
    assert_eq!(DAILY_MS, 24 * 60 * 60 * 1000);
    let expected = [600_000i64, 1_200_000, 2_400_000, 4_800_000, 9_600_000, 19_200_000, 38_400_000, 76_800_000, DAILY_MS, DAILY_MS];
    for (previous, want) in expected.iter().enumerate() {
        let u = failure_update(previous as i64, 1_000);
        assert_eq!(u.consecutive_failures, previous as i64 + 1);
        assert_eq!(u.backoff_until, 1_000 + want);
        assert_eq!(u.next_fetch_at, u.backoff_until);
    }
    for previous in [44i64, 45, 63, 64, 1_000_000, i64::MAX - 1] {
        assert_eq!(failure_update(previous, 0).backoff_until, DAILY_MS);
    }
}

#[test]
fn success_schedules_the_next_fetch_one_interval_later() {
    assert_eq!(next_fetch_after_success(15, 1_000, None), 1_000 + 15 * 60 * 1000);
    assert_eq!(next_fetch_after_success(1440, 0, None), DAILY_MS);
    assert_eq!(next_fetch_after_success(15, 1_000, Some(5)), 1_000 + 15 * 60 * 1000);
}

#[test]
fn cache_lifetime_delays_the_next_fetch() {
    let now = 1_000_000;
    let until = cache_until(&Some("max-age=3600".into()), &None, now);
    assert_eq!(until, Some(now + 3_600_000));
    let next = next_fetch_after_success(15, now, until);
    assert_eq!(next, now + 3_600_000);
    assert!(next >= now + 3_600_000);
    assert_eq!(max_age_seconds("public, MAX-AGE=120 , must-revalidate"), Some(120));
    assert_eq!(max_age_seconds("no-cache"), None);
    assert_eq!(max_age_seconds("max-age="), None);
    assert_eq!(max_age_seconds("max-age=12x"), None);
    assert_eq!(max_age_seconds("s-maxage=5, max-age=7, max-age=9"), Some(7));
    assert_eq!(max_age_seconds("max-age=999999999999999999999"), Some(MAX_AGE_CAP));
    assert_eq!(cache_until(&Some("max-age=999999999999999999999".into()), &None, 0), Some(i64::MAX));
    let expires = Some("Wed, 21 Oct 2015 07:28:00 GMT".to_string());
    assert_eq!(cache_until(&None, &expires, now), Some(1445412480000));
    assert_eq!(cache_until(&Some("private".into()), &expires, now), Some(1445412480000));
    assert_eq!(cache_until(&Some("max-age=1".into()), &expires, now), Some(now + 1000));
    assert_eq!(cache_until(&None, &Some("soon".into()), now), None);
    assert_eq!(cache_until(&None, &None, now), None);
}

#[test]
fn politeness_spaces_requests() {
    assert_eq!(POLITENESS_MS, 500);
    assert_eq!(MAX_CONCURRENT, 4);
    let first = politeness_slot(0, 10_000);
    assert_eq!((first.wait_ms, first.next_free), (0, 10_500));
    let second = politeness_slot(first.next_free, 10_100);
    assert_eq!((second.wait_ms, second.next_free), (400, 11_000));
    assert!(10_100 + second.wait_ms >= 10_000 + first.wait_ms + 500);
    let later = politeness_slot(second.next_free, 20_000);
    assert_eq!((later.wait_ms, later.next_free), (0, 20_500));
}

#[test]
fn conditional_request_headers() {
    let row = FeedRow {
        id: 1,
        url: "https://f/".into(),
        last_etag: Some("\"abc\"".into()),
        last_modified: Some("Wed, 21 Oct 2015 07:28:00 GMT".into()),
    };
    assert_eq!(
        conditional_headers(&row),
        vec![
            ("If-None-Match".to_string(), "\"abc\"".to_string()),
            ("If-Modified-Since".to_string(), "Wed, 21 Oct 2015 07:28:00 GMT".to_string()),
        ]
    );
    let bare = FeedRow { last_etag: None, last_modified: None, ..row };
    assert!(conditional_headers(&bare).is_empty());
}

#[test]
fn stored_articles_take_cleaned_content() {
    let input = ArticleInput {
        url: "https://e.com/1".into(),
        title: "T".into(),
        summary: Some("<p>sum</p>".into()),
        content_html: None,
        published_at: Some(5),
    };
    assert_eq!(article_html(&input).as_deref(), Some("<p>sum</p>"));
    let with_content = ArticleInput { content_html: Some("<p>body</p>".into()), ..input.clone() };
    assert_eq!(article_html(&with_content).as_deref(), Some("<p>body</p>"));
    let cleaned = CleanedContent { raw_html: "<p>sum</p>".into(), markdown: "sum".into() };
    let r = article_record(input.clone(), Some(cleaned));
    assert_eq!(r.raw_html.as_deref(), Some("<p>sum</p>"));
    assert_eq!(r.markdown_content, "sum");
    assert_eq!((r.url.as_str(), r.title.as_str(), r.published_at), ("https://e.com/1", "T", Some(5)));
    let bare = article_record(input, None);
    assert_eq!(bare.raw_html, None);
    assert_eq!(bare.markdown_content, "<p>sum</p>");
}

#[test]
fn read_documents_become_articles() {
    let ch = RssChannel {
        title: "C".into(),
        link: String::new(),
        items: vec![
            RssItem {
                link: None,
                guid: Some(RssGuid { value: "/p/first-post/".into(), permalink: true }),
                title: None,
                description: Some("d".into()),
                content: None,
                pub_date: None,
            },
            RssItem { link: None, guid: None, title: Some("skipped".into()), description: None, content: None, pub_date: None },
        ],
    };
    let a = articles_of_rss(&ch, "https://site.example/feed.xml", "https://final.example/");
    assert_eq!(inputs(&a), vec![("https://site.example/p/first-post/".to_string(), "first-post".to_string())]);
    let doc = JsonFeedDoc {
        title: Some("J".into()),
        feed_url: None,
        items: Some(vec![JsonItem {
            url: Some("notes/7".into()),
            title: None,
            summary: None,
            content_html: None,
            content_text: Some("t".into()),
            date_published: None,
        }]),
    };
    let j = articles_of_json(&doc, "https://j.example/feeds/all.json");
    assert_eq!(inputs(&j), vec![("https://j.example/feeds/notes/7".to_string(), "7".to_string())]);
    assert!(articles_of_json(&JsonFeedDoc { title: None, feed_url: None, items: None }, "https://j/").is_empty());
    let feed = AtomFeed(
        "A".into(),
        vec![("alternate".into(), "https://a.example/blog/".into())],
        vec![AtomEntry(vec![("related".into(), "post".into())], "Entry".into(), None, None, None, 3)],
    );
    let e = articles_of_atom(&feed, "https://final.example/");
    assert_eq!(inputs(&e), vec![("https://a.example/blog/post".to_string(), "Entry".to_string())]);
    assert_eq!(e[0].published_at, Some(3));
}
