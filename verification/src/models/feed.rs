//! Feeds, subscription requests and OPML import results.

use vstd::prelude::*;

use crate::errors::{finish_validation, validation_outcome, AppError, FieldError, FieldErrorV};
use crate::ext::checks::validate_url;
use crate::ext::url_ops::{url_parse, url_parse_result};
use crate::text::{chars_of, has_prefix, starts_with};

verus! {

/// A feed as a subscriber sees it. `status` is `ok`, `error` or `backoff`.
#[derive(Debug, Clone, PartialEq)]
pub struct Feed {
    pub id: i64,
    pub url: String,
    pub title: Option<String>,
    pub description: Option<String>,
    pub site_url: Option<String>,
    pub fetch_interval_minutes: i64,
    pub status: String,
    pub created_at: i64,
    pub updated_at: i64,
}

/// A request to subscribe to the feed at `url`.
#[derive(Debug, Clone, PartialEq)]
pub struct CreateFeedRequest {
    pub url: String,
}

/// Changes to a feed's schedule and descriptive fields; `None` keeps a field.
#[derive(Debug, Clone, PartialEq, Default)]
pub struct FeedUpdate {
    pub fetch_interval_minutes: Option<i64>,
    pub title: Option<String>,
    pub description: Option<String>,
    pub site_url: Option<String>,
}

/// A request to find the feeds a web site advertises.
#[derive(Debug, Clone, PartialEq)]
pub struct DiscoverRequest {
    pub url: String,
}

/// A feed found on a web site, with its title where the feed gives one.
#[derive(Debug, Clone, PartialEq)]
pub struct DiscoveredFeed {
    pub url: String,
    pub title: Option<String>,
}

#[derive(Debug, Clone, PartialEq)]
pub struct DiscoverResponse {
    pub feeds: Vec<DiscoveredFeed>,
}

/// The outcome of an OPML import: counts and one line per outline.
#[derive(Debug, Clone, PartialEq)]
pub struct ImportResult {
    pub total: usize,
    pub imported: usize,
    pub failed: usize,
    pub feeds: Vec<ImportedFeed>,
}

/// One imported outline; `status` is `imported`, `failed` or `no_url`.
#[derive(Debug, Clone, PartialEq)]
pub struct ImportedFeed {
    pub url: String,
    pub title: Option<String>,
    pub status: String,
}

/// One page of a user's subscriptions, ordered by feed id.
#[derive(Debug, Clone, PartialEq)]
pub struct FeedPage {
    pub items: Vec<Feed>,
    pub next_cursor: Option<i64>,
    pub has_more: bool,
}

/// A feed or web-site URL is accepted: it parses as a URL and its scheme is
/// `http` or `https`.
pub open spec fn web_url_ok(s: Seq<char>) -> bool {
    url_parse_result(s) matches Ok(u) && (has_prefix(u, "http://"@) || has_prefix(u, "https://"@))
}

/// The failures of the URL rule on field `url`.
pub open spec fn url_errors(s: Seq<char>) -> Seq<FieldErrorV> {
    if web_url_ok(s) {
        Seq::empty()
    } else {
        seq![("url"@, "url"@, Some("invalid URL"@))]
    }
}

/// Checks a feed or web-site URL: it must parse (`validator`'s URL rule)
/// and use the `http` or `https` scheme.
pub fn check_web_url(s: &str) -> (r: bool)
    ensures
        r == web_url_ok(s@),
{
    if !validate_url(s) {
        return false;
    }
    match url_parse(s) {
        Ok(u) => {
            let v = chars_of(u.as_str());
            let http = chars_of("http://");
            let https = chars_of("https://");
            starts_with(&v, &http) || starts_with(&v, &https)
        },
        Err(_) => false,
    }
}

/// The validation answer for a request whose only rule is the URL rule.
pub fn validate_url_field(url: &str) -> (r: Result<(), AppError>)
    ensures
        validation_outcome(r, url_errors(url@)),
{
    let mut v: Vec<FieldError> = Vec::new();
    if !check_web_url(url) {
        v.push(FieldError::new("url", "url", Some("invalid URL")));
    }
    proof {
        assert(v@.map_values(|e: FieldError| e@) =~= url_errors(url@));
    }
    finish_validation(v)
}

impl CreateFeedRequest {
    /// Validates the request: the URL must be an http(s) URL.
    pub fn validate(&self) -> (r: Result<(), AppError>)
        ensures
            validation_outcome(r, url_errors(self.url@)),
    {
        validate_url_field(self.url.as_str())
    }
}

impl DiscoverRequest {
    /// Validates the request: the URL must be an http(s) URL.
    pub fn validate(&self) -> (r: Result<(), AppError>)
        ensures
            validation_outcome(r, url_errors(self.url@)),
    {
        validate_url_field(self.url.as_str())
    }
}

} // verus!
