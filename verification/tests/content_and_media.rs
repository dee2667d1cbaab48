use rustrsssrv::services::cleaner::{
    is_truncated, remove_all, sanitize_html, strip_html_tags, CleanStep, CleanerService,
    TAG_PATTERN,
};
use rustrsssrv::services::media::{
    apply_image_rewrites, classify_media, guess_mime, media_mime, outcome_of,
    plan_image_rewrites, resolve_url, MediaDecision, MediaOutcome, INLINE_SIZE_LIMIT,
};

const LONG_PARAGRAPH: &str = "This paragraph adds enough words to the article so that the cleaner does not treat the feed body as truncated and fetch the origin page. The word count must exceed the truncation threshold by a comfortable margin. Here are more words. Here are even more words to be absolutely certain that the resulting markdown is long enough.";

#[test]
fn sanitizing_removes_scripts_styles_and_ads() {
    let html = "<p>Keep</p><SCRIPT type=\"x\">alert('xss');</script><style>p{}</style>\
                <div class=\"ad\">Buy now!</div><div class=\"content\">Stay</div>\
                <ins class=\"adsbygoogle\">x</ins>";
    let out = sanitize_html(html);
    assert_eq!(out, "<p>Keep</p><div class=\"content\">Stay</div>");
}

#[test]
fn sanitizing_removes_elements_that_span_lines() {
    assert_eq!(sanitize_html("<script>\nalert(1)\n</script><p>ok</p>"), "<p>ok</p>");
    assert_eq!(sanitize_html("<style>\np { color: red }\n</style><p>ok</p>"), "<p>ok</p>");
    assert_eq!(
        sanitize_html("<div class=\"banner\">\nBuy\n</div><p>ok</p><ins class=\"adsbygoogle\">\n</ins>"),
        "<p>ok</p>"
    );
    assert!(!sanitize_html("<SCRIPT>\r\nx\r\n</SCRIPT>").to_ascii_lowercase().contains("<script"));
    // Removing an element can join the text around it into a new one; the
    // passes go on until none is left.
    assert_eq!(sanitize_html("<scr<script></script>ipt>alert(1)</script><p>ok</p>"), "<p>ok</p>");
    assert_eq!(sanitize_html("<sty<style></style>le>p{}</style><p>ok</p>"), "<p>ok</p>");
}

#[test]
fn removing_matches_keeps_the_rest_in_order() {
    assert_eq!(remove_all("b+", "abbcbd"), "acd");
    assert_eq!(remove_all("x", "abc"), "abc");
    // A pattern that does not compile leaves the text as it is.
    assert_eq!(remove_all("(", "abc"), "abc");
}

#[test]
fn stripping_tags_collapses_whitespace() {
    assert_eq!(
        strip_html_tags("<p>This is a <strong>summary</strong>\n with   words.</p>"),
        "This is a summary with words."
    );
    assert_eq!(strip_html_tags("plain"), "plain");
    assert_eq!(TAG_PATTERN, "<[^>]+>");
}

#[test]
fn truncation_counts_words_and_bytes() {
    assert!(is_truncated("Short summary."));
    let fifty_short_words = vec!["a"; 50].join(" ");
    // Fifty words but only 99 bytes.
    assert!(is_truncated(&fifty_short_words));
    let long_words = vec!["abcd"; 50].join(" ");
    assert_eq!(long_words.len(), 249);
    assert!(!is_truncated(&long_words));
    let forty_nine = vec!["abcdefgh"; 49].join(" ");
    assert!(is_truncated(&forty_nine));
    assert!(!is_truncated(LONG_PARAGRAPH));
}

#[test]
fn cleaning_converts_html_to_markdown() {
    let cleaner = CleanerService::new();
    let html = format!(
        "<h1>Title</h1><p>Hello <strong>world</strong>.</p><p>{}</p><script>alert('xss');</script><div class=\"ad\">Buy now!</div>",
        LONG_PARAGRAPH
    );
    let c = cleaner.clean(&html).unwrap();
    assert_eq!(c.raw_html, html);
    assert!(c.markdown.contains("Title"));
    assert!(c.markdown.contains("**world**"));
    assert!(!c.markdown.contains("alert('xss')"));
    assert!(!c.markdown.contains("Buy now!"));
    match cleaner.begin_clean(&html) {
        CleanStep::Done(d) => assert_eq!(d, c),
        CleanStep::FetchOrigin(_) => panic!("long content is not truncated"),
    }
}

#[test]
fn truncated_feed_content_asks_for_the_origin_page() {
    let cleaner = CleanerService::new();
    let feed_clean = match cleaner.begin_clean("<p>Short summary.</p>") {
        CleanStep::FetchOrigin(c) => c,
        CleanStep::Done(_) => panic!("short content is truncated"),
    };
    assert!(feed_clean.markdown.contains("Short summary."));
    // Without the page, the feed's content stays.
    let kept = cleaner.finish_clean(feed_clean.clone(), "http://example.com/", None);
    assert_eq!(kept, feed_clean);
    let page = b"<!DOCTYPE html><html><head><title>Full Article</title></head><body><article>\
<h1>Full Article</h1><p>This is the full article content that is much longer than the truncated feed summary. \
It has enough words to pass the truncation threshold easily and should be extracted by readability.</p>\
<p>Here is another paragraph with even more text so that the word count is definitely above fifty words when converted to markdown.</p>\
</article></body></html>"
        .to_vec();
    let full = cleaner.finish_clean(feed_clean, "http://example.com/", Some(page));
    assert!(full.markdown.contains("This is the full article content"));
    assert!(full.raw_html.contains("full article content"));
}

#[test]
fn mime_types_from_url_extensions() {
    assert_eq!(guess_mime("https://example.com/a/b.PNG"), Some("image/png".to_string()));
    assert_eq!(guess_mime("https://example.com/x.jpeg?size=2"), Some("image/jpeg".to_string()));
    assert_eq!(guess_mime("https://example.com/clip.webm"), Some("video/webm".to_string()));
    assert_eq!(guess_mime("https://example.com/file.txt"), None);
    assert_eq!(guess_mime("not a url.png"), None);
    assert_eq!(media_mime(Some(" image/gif ; charset=binary"), "https://e.com/x.png"), "image/gif");
    assert_eq!(media_mime(None, "https://e.com/x.svg"), "image/svg+xml");
    assert_eq!(media_mime(None, "https://e.com/x"), "application/octet-stream");
}

#[test]
fn small_assets_are_inlined_and_large_ones_stored() {
    assert_eq!(INLINE_SIZE_LIMIT, 128 * 1024);
    let small = vec![1u8; INLINE_SIZE_LIMIT];
    match classify_media("image/png".into(), small.clone()) {
        MediaDecision::Inline { mime, data } => {
            assert_eq!(mime, "image/png");
            assert_eq!(data, small);
        }
        other => panic!("{:?}", other),
    }
    let large = vec![7u8; 129 * 1024];
    let decision = classify_media("image/png".into(), large.clone());
    match &decision {
        MediaDecision::Store { hash, mime, size, data } => {
            assert_eq!(hash, &blake3::hash(&large).to_hex().to_string());
            assert_eq!(mime, "image/png");
            assert_eq!(*size, 129 * 1024);
            assert_eq!(data, &large);
        }
        other => panic!("{:?}", other),
    }
    match outcome_of(decision) {
        MediaOutcome::Proxy { hash } => assert_eq!(hash.len(), 64),
        other => panic!("{:?}", other),
    }
}

#[test]
fn equal_large_assets_share_one_stored_copy() {
    let bytes = vec![9u8; 200 * 1024];
    let a = classify_media("image/png".into(), bytes.clone());
    let b = classify_media("image/jpeg".into(), bytes);
    match (a, b) {
        (MediaDecision::Store { hash: h1, mime: m1, .. }, MediaDecision::Store { hash: h2, mime: m2, .. }) => {
            assert_eq!(h1, h2);
            assert_eq!((m1.as_str(), m2.as_str()), ("image/png", "image/jpeg"));
        }
        other => panic!("{:?}", other),
    }
}

#[test]
fn urls_resolve_against_a_base() {
    assert_eq!(resolve_url("/img/a.png", "https://example.com/posts/1"), "https://example.com/img/a.png");
    assert_eq!(resolve_url("b.png", "https://example.com/posts/1"), "https://example.com/posts/b.png");
    assert_eq!(resolve_url("https://cdn.test/x.png", "https://example.com/"), "https://cdn.test/x.png");
    // A base that does not parse leaves the URL as written.
    assert_eq!(resolve_url("b.png", "not a base"), "b.png");
}

#[test]
fn image_references_are_planned_and_rewritten() {
    let md = "Intro ![a](/small.png) mid ![b](big.png \"t\") ![c](data:image/png;base64,AAAA) end";
    let plan = plan_image_rewrites(md, "https://example.com/posts/1").unwrap();
    assert_eq!(plan.segments.len(), 3);
    assert_eq!(plan.segments[0].before, "Intro ");
    assert_eq!(plan.segments[0].alt, "a");
    assert_eq!(plan.segments[0].fetch.as_deref(), Some("https://example.com/small.png"));
    assert_eq!(plan.segments[1].whole, "![b](big.png \"t\")");
    assert_eq!(plan.segments[1].fetch.as_deref(), Some("https://example.com/posts/big.png"));
    assert_eq!(plan.segments[2].fetch, None);
    assert_eq!(plan.tail, " end");
    let outcomes = vec![
        Some(MediaOutcome::Inline { mime: "image/png".into(), data: vec![1, 2, 3] }),
        Some(MediaOutcome::Proxy { hash: "abc123".into() }),
        None,
    ];
    let out = apply_image_rewrites(&plan, &outcomes);
    assert_eq!(
        out,
        "Intro ![a](data:image/png;base64,AQID) mid ![b](/api/v1/media/abc123) ![c](data:image/png;base64,AAAA) end"
    );
}

#[test]
fn failed_fetches_leave_the_markdown_as_written() {
    let md = "x ![a](/one.png) y ![b](/two.png)";
    let plan = plan_image_rewrites(md, "https://example.com/").unwrap();
    let out = apply_image_rewrites(&plan, &vec![None, None]);
    assert_eq!(out, md);
    let none = plan_image_rewrites("no images here", "https://example.com/").unwrap();
    assert!(none.segments.is_empty());
    assert_eq!(apply_image_rewrites(&none, &vec![]), "no images here");
}

#[test]
fn rewriting_needs_a_parseable_article_url() {
    match plan_image_rewrites("![a](x.png)", "::not a url::") {
        Err(rustrsssrv::errors::AppError::Internal(m)) => assert!(m.starts_with("bad article url: ")),
        other => panic!("{:?}", other.map(|_| ())),
    }
}
