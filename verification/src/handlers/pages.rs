//! What the web pages and the small API endpoints show: default list
//! settings, article rows, search terms, the health answer and the type a
//! media asset is served with.

use vstd::prelude::*;

use crate::ext::markup::{markdown_html, render_markdown};
use crate::ext::time_ops::{
    chrono_range, format_rfc2822, now_millis, rfc2822_of_millis, rfc2822_range, RFC2822_MAX_MS,
    RFC2822_MIN_MS,
};
use crate::models::article::{Article, ListArticlesQuery};
use crate::models::feed::DiscoveredFeed;
use crate::models::user::User;
use crate::services::cleaner::{strip_html_tags, tags_stripped};
use crate::services::user::{filter_allowed, is_allowed_filter, is_allowed_sort, sort_allowed};
use crate::text::{chars_of, clone_opt, or_text, str_eq, text_or, to_string, trim, trim_seq};

verus! {

/// The number of articles a web list shows when none is asked for.
pub const WEB_PAGE_LIMIT: i64 = 50;

/// The number of feeds an API list shows when none is asked for.
pub const FEED_PAGE_DEFAULT: i64 = 20;

// ---------------------------------------------------------------------------
// Article list page
// ---------------------------------------------------------------------------

/// The read and starred flags a filter stands for: `all` is every
/// article, `read` the read ones, `starred` the starred ones, and `unread`
/// (or any other name) the unread ones.
pub open spec fn filter_flags(name: Seq<char>) -> (Option<bool>, Option<bool>) {
    if name == "all"@ {
        (None, None)
    } else if name == "read"@ {
        (Some(true), None)
    } else if name == "starred"@ {
        (None, Some(true))
    } else {
        (Some(false), None)
    }
}

/// The filter a page shows as chosen for the flags `is_read` and
/// `is_starred`.
pub open spec fn flags_name(is_read: Option<bool>, is_starred: Option<bool>) -> Seq<char> {
    if is_starred == Some(true) {
        "starred"@
    } else {
        filter_name(is_read)
    }
}

/// The query parameters of the article list page. `filter` and `sort` are
/// the page's own choices; `is_read` and `is_starred` are older parameters
/// kept for bookmarks. `feed_id` is `None` where the parameter is absent and
/// `Some(None)` where it is given empty (all feeds).
#[derive(Debug, Clone, PartialEq, Default)]
pub struct ArticlePageParams {
    pub feed_id: Option<Option<i64>>,
    pub filter: Option<String>,
    pub is_read: Option<bool>,
    pub is_starred: Option<bool>,
    pub sort: Option<String>,
    pub cursor: Option<i64>,
    pub direction: Option<String>,
    pub limit: Option<i64>,
}

/// What the article list page lists, what it shows as chosen, and the
/// choices it saves as the user's defaults.
#[derive(Debug, Clone, PartialEq)]
pub struct ArticlePagePlan {
    pub query: ListArticlesQuery,
    /// The filter shown as chosen.
    pub filter: String,
    /// A new default filter to save.
    pub save_filter: Option<String>,
    /// A new default sort order to save.
    pub save_sort: Option<String>,
    /// A new default feed to save (`Some(None)`: all feeds).
    pub save_feed: Option<Option<i64>>,
}

/// The page's `filter` parameter, where it names a filter.
pub open spec fn chosen_filter(p: ArticlePageParams) -> Option<Seq<char>> {
    match p.filter {
        Some(f) => if filter_allowed(f@) {
            Some(f@)
        } else {
            None
        },
        None => None,
    }
}

/// The article list page's plan. A `filter` that names a filter decides
/// the flags and is saved; else the older `is_read` / `is_starred`, where
/// either is given, decide them and nothing is saved; else the user's
/// default filter does. A `sort` is used, and saved where it names a sort
/// order; else the user's default order is used. A `feed_id` given (empty
/// for all feeds) is used and saved; else the user's default feed is used.
/// The limit is 50 where none is given.
pub open spec fn article_page_plan_ok(p: ArticlePageParams, user: User, r: ArticlePagePlan) -> bool {
    let legacy = p.is_read is Some || p.is_starred is Some;
    let flags = match chosen_filter(p) {
        Some(f) => filter_flags(f),
        None => if legacy {
            (p.is_read, p.is_starred)
        } else {
            filter_flags(user.default_filter@)
        },
    };
    let q = r.query;
    &&& q.is_read == flags.0
    &&& q.is_starred == flags.1
    &&& r.filter@ == match chosen_filter(p) {
        Some(f) => f,
        None => flags_name(flags.0, flags.1),
    }
    &&& r.save_filter.deep_view() == chosen_filter(p)
    &&& q.sort.deep_view() == (if p.sort is Some {
        p.sort.deep_view()
    } else {
        Some(user.default_sort_order@)
    })
    &&& r.save_sort.deep_view() == (match p.sort {
        Some(s) => if sort_allowed(s@) {
            Some(s@)
        } else {
            None
        },
        None => None,
    })
    &&& q.feed_id == (match p.feed_id {
        Some(f) => f,
        None => user.default_feed_id,
    })
    &&& r.save_feed == p.feed_id
    &&& q.cursor == p.cursor
    &&& q.direction.deep_view() == p.direction.deep_view()
    &&& q.limit == (if p.limit is Some {
        p.limit
    } else {
        Some(WEB_PAGE_LIMIT)
    })
}

/// The article page lists what its filter names: `all` sets no flag,
/// `unread` asks for unread articles, `read` for read ones and `starred`
/// for starred ones, whether the filter is chosen on the page or is the
/// user's default; a filter chosen on the page is saved and shown, older
/// `is_read` / `is_starred` parameters are never saved, and a feed given on
/// the page is used and saved while without one the saved feed is used.
pub proof fn lemma_page_filters(p: ArticlePageParams, user: User, r: ArticlePagePlan)
    requires
        article_page_plan_ok(p, user, r),
    ensures
        chosen_filter(p) == Some("all"@) ==> r.query.is_read is None && r.query.is_starred is None,
        chosen_filter(p) == Some("unread"@) ==> r.query.is_read == Some(false) && r.query.is_starred is None,
        chosen_filter(p) == Some("read"@) ==> r.query.is_read == Some(true) && r.query.is_starred is None,
        chosen_filter(p) == Some("starred"@) ==> r.query.is_read is None && r.query.is_starred == Some(true),
        chosen_filter(p) is None && p.is_read is None && p.is_starred is None && user.default_filter@
            == "starred"@ ==> r.query.is_starred == Some(true) && r.query.is_read is None,
        chosen_filter(p) is None && p.is_read is None && p.is_starred is None && user.default_filter@
            == "read"@ ==> r.query.is_read == Some(true) && r.query.is_starred is None,
        chosen_filter(p) is Some ==> r.save_filter.deep_view() == chosen_filter(p) && r.filter@
            == chosen_filter(p)->0,
        chosen_filter(p) is None ==> r.save_filter is None,
        r.query.feed_id == (match p.feed_id {
            Some(f) => f,
            None => user.default_feed_id,
        }),
        r.save_feed == p.feed_id,
{
    reveal_strlit("all");
    reveal_strlit("unread");
    reveal_strlit("read");
    reveal_strlit("starred");
    assert("all"@ != "unread"@ && "all"@ != "read"@ && "all"@ != "starred"@) by {
        assert("all"@.len() != "unread"@.len() && "all"@.len() != "starred"@.len());
        assert("all"@[0] != "read"@[0]);
    }
    assert("read"@ != "starred"@ && "unread"@ != "read"@ && "unread"@ != "starred"@) by {
        assert("read"@.len() != "starred"@.len() && "unread"@.len() != "read"@.len());
        assert("unread"@[0] != "starred"@[0]);
    }
}

fn flags_of(name: &str) -> (r: (Option<bool>, Option<bool>))
    ensures
        r == filter_flags(name@),
{
    if str_eq(name, "all") {
        (None, None)
    } else if str_eq(name, "read") {
        (Some(true), None)
    } else if str_eq(name, "starred") {
        (None, Some(true))
    } else {
        (Some(false), None)
    }
}

/// Plans the article list page (see `article_page_plan_ok`).
pub fn list_page_query(params: ArticlePageParams, user: &User) -> (r: ArticlePagePlan)
    ensures
        article_page_plan_ok(params, *user, r),
{
    let chosen: Option<String> = match &params.filter {
        Some(f) => if is_allowed_filter(f.as_str()) {
            Some(f.clone())
        } else {
            None
        },
        None => None,
    };
    let legacy = params.is_read.is_some() || params.is_starred.is_some();
    let flags = match &chosen {
        Some(f) => flags_of(f.as_str()),
        None => if legacy {
            (params.is_read, params.is_starred)
        } else {
            flags_of(user.default_filter.as_str())
        },
    };
    let filter = match &chosen {
        Some(f) => f.clone(),
        None => if flags.1 == Some(true) {
            to_string("starred")
        } else {
            filter_label(flags.0)
        },
    };
    let save_sort = match &params.sort {
        Some(s) => if is_allowed_sort(s.as_str()) {
            Some(s.clone())
        } else {
            None
        },
        None => None,
    };
    let sort = match params.sort {
        Some(s) => Some(s),
        None => Some(user.default_sort_order.clone()),
    };
    let limit = match params.limit {
        Some(l) => Some(l),
        None => Some(WEB_PAGE_LIMIT),
    };
    let feed_id = match params.feed_id {
        Some(f) => f,
        None => user.default_feed_id,
    };
    ArticlePagePlan {
        query: ListArticlesQuery {
            feed_id,
            is_read: flags.0,
            is_starred: flags.1,
            sort,
            cursor: params.cursor,
            direction: params.direction,
            limit,
        },
        filter,
        save_filter: chosen,
        save_sort,
        save_feed: params.feed_id,
    }
}

/// The query the articles API runs: where neither `is_read` nor
/// `is_starred` is given, the flags of the user's default filter (see
/// `filter_flags`); every other parameter as given.
pub open spec fn api_list_query_of(params: ListArticlesQuery, user: User, q: ListArticlesQuery) -> bool {
    let flags = if params.is_read is None && params.is_starred is None {
        filter_flags(user.default_filter@)
    } else {
        (params.is_read, params.is_starred)
    };
    &&& q.is_read == flags.0
    &&& q.is_starred == flags.1
    &&& q.feed_id == params.feed_id
    &&& q.sort.deep_view() == params.sort.deep_view()
    &&& q.cursor == params.cursor
    &&& q.direction.deep_view() == params.direction.deep_view()
    &&& q.limit == params.limit
}

/// Applies the user's default filter to an articles API query (see
/// `api_list_query_of`).
pub fn api_list_query(params: ListArticlesQuery, user: &User) -> (q: ListArticlesQuery)
    ensures
        api_list_query_of(params, *user, q),
{
    let flags = if params.is_read.is_none() && params.is_starred.is_none() {
        flags_of(user.default_filter.as_str())
    } else {
        (params.is_read, params.is_starred)
    };
    ListArticlesQuery {
        feed_id: params.feed_id,
        is_read: flags.0,
        is_starred: flags.1,
        sort: params.sort,
        cursor: params.cursor,
        direction: params.direction,
        limit: params.limit,
    }
}

/// The name of a read filter: `all`, `read` or `unread`.
pub open spec fn filter_name(is_read: Option<bool>) -> Seq<char> {
    match is_read {
        None => "all"@,
        Some(true) => "read"@,
        Some(false) => "unread"@,
    }
}

/// The name of a read filter (see `filter_name`).
pub fn filter_label(is_read: Option<bool>) -> (r: String)
    ensures
        r@ == filter_name(is_read),
{
    match is_read {
        None => to_string("all"),
        Some(true) => to_string("read"),
        Some(false) => to_string("unread"),
    }
}

/// The name of a sort order, `oldest_first` where none is given.
pub fn sort_label(sort: &Option<String>) -> (r: String)
    ensures
        r@ == or_text(*sort, "oldest_first"@),
{
    text_or(sort, "oldest_first")
}

/// An article as a list row shows it.
#[derive(Debug, Clone, PartialEq)]
pub struct ArticleRow {
    pub id: i64,
    pub title: String,
    /// The summary's text without tags.
    pub summary: Option<String>,
    pub feed_title: Option<String>,
    /// The publication date in RFC 2822 form.
    pub published_at: Option<String>,
    pub is_read: bool,
    pub is_starred: bool,
}

/// `shown` is the RFC 2822 form of the instant `ms` where it has one.
pub open spec fn shows_date(ms: Option<i64>, shown: Option<String>) -> bool {
    match ms {
        Some(t) => rfc2822_range(t) ==> shown.deep_view() == Some(rfc2822_of_millis(t)),
        None => shown is None,
    }
}

/// An instant a page can show: one of years 0 to 9999, or one chrono cannot
/// represent, for which the current time is shown. Chrono panics on the
/// others.
pub open spec fn date_showable(ms: Option<i64>) -> bool {
    match ms {
        Some(t) => rfc2822_range(t) || !chrono_range(t),
        None => true,
    }
}

/// The date shown for an instant: its RFC 2822 form; for an instant chrono
/// cannot represent, the current time's, which the contract leaves open.
pub fn published_text(ms: Option<i64>) -> (r: Option<String>)
    requires
        date_showable(ms),
    ensures
        shows_date(ms, r),
{
    match ms {
        None => None,
        Some(t) => {
            if RFC2822_MIN_MS <= t && t <= RFC2822_MAX_MS {
                Some(format_rfc2822(t))
            } else {
                let now = now_millis();
                if RFC2822_MIN_MS <= now && now <= RFC2822_MAX_MS {
                    Some(format_rfc2822(now))
                } else {
                    None
                }
            }
        },
    }
}

/// `r` is the row of article `a`: its summary without tags and its date in
/// RFC 2822 form.
pub open spec fn row_of(a: Article, r: ArticleRow) -> bool {
    &&& r.id == a.id
    &&& r.title@ == a.title@
    &&& r.summary.deep_view() == match a.summary {
        Some(s) => Some(tags_stripped(s@)),
        None => None,
    }
    &&& r.feed_title.deep_view() == a.feed_title.deep_view()
    &&& shows_date(a.published_at, r.published_at)
    &&& r.is_read == a.is_read
    &&& r.is_starred == a.is_starred
}

/// The row of an article (see `row_of`).
pub fn article_row(a: &Article) -> (r: ArticleRow)
    requires
        date_showable(a.published_at),
    ensures
        row_of(*a, r),
{
    let summary = match &a.summary {
        Some(s) => Some(strip_html_tags(s.as_str())),
        None => None,
    };
    ArticleRow {
        id: a.id,
        title: a.title.clone(),
        summary,
        feed_title: clone_opt(&a.feed_title),
        published_at: published_text(a.published_at),
        is_read: a.is_read,
        is_starred: a.is_starred,
    }
}

/// The rows of a page of articles, in order.
pub fn article_rows(items: &Vec<Article>) -> (r: Vec<ArticleRow>)
    requires
        forall|i: int| 0 <= i < items@.len() ==> date_showable(#[trigger] items@[i].published_at),
    ensures
        r@.len() == items@.len(),
        forall|i: int| 0 <= i < items@.len() ==> row_of(items@[i], #[trigger] r@[i]),
{
    let mut r: Vec<ArticleRow> = Vec::new();
    let mut i: usize = 0;
    while i < items.len()
        invariant
            forall|i: int| 0 <= i < items@.len() ==> date_showable(#[trigger] items@[i].published_at),
            i <= items@.len(),
            r@.len() == i,
            forall|j: int| 0 <= j < i ==> row_of(items@[j], #[trigger] r@[j]),
        decreases items@.len() - i,
    {
        r.push(article_row(&items[i]));
        i = i + 1;
    }
    r
}

/// Renders an article's Markdown as HTML.
pub fn article_html(markdown: &str) -> (r: String)
    ensures
        r@ == markdown_html(markdown@),
{
    render_markdown(markdown)
}

// ---------------------------------------------------------------------------
// Search and feed lists
// ---------------------------------------------------------------------------

/// The query parameters of the web search page.
#[derive(Debug, Clone, PartialEq, Default)]
pub struct SearchWebQuery {
    pub q: Option<String>,
    pub limit: Option<i64>,
}

/// The query parameters of the search endpoint.
#[derive(Debug, Clone, PartialEq)]
pub struct SearchQuery {
    pub q: String,
    pub limit: Option<i64>,
}

/// The query parameters of the feed list endpoint.
#[derive(Debug, Clone, PartialEq, Default)]
pub struct ListFeedsQuery {
    pub cursor: Option<i64>,
    pub limit: Option<i64>,
}

impl SearchWebQuery {
    /// The search term: the query without surrounding whitespace; nothing
    /// is searched for an empty term.
    pub fn term(&self) -> (r: String)
        ensures
            r@ == trim_seq(or_text(self.q, Seq::empty())),
    {
        match &self.q {
            Some(q) => trim(q.as_str()),
            None => String::new(),
        }
    }

    /// The number of results asked for, 50 by default.
    pub fn limit_or_default(&self) -> (r: i64)
        ensures
            r == match self.limit {
                Some(l) => l,
                None => WEB_PAGE_LIMIT,
            },
    {
        match self.limit {
            Some(l) => l,
            None => WEB_PAGE_LIMIT,
        }
    }
}

impl ListFeedsQuery {
    /// The number of feeds asked for, 20 by default.
    pub fn limit_or_default(&self) -> (r: i64)
        ensures
            r == match self.limit {
                Some(l) => l,
                None => FEED_PAGE_DEFAULT,
            },
    {
        match self.limit {
            Some(l) => l,
            None => FEED_PAGE_DEFAULT,
        }
    }
}

/// A discovered feed as the feeds page lists it.
#[derive(Debug, Clone, PartialEq)]
pub struct DiscoveredRow {
    pub url: String,
    pub title: Option<String>,
}

impl DiscoveredRow {
    /// The row of a discovered feed.
    pub fn of(f: DiscoveredFeed) -> (r: DiscoveredRow)
        ensures
            r.url == f.url,
            r.title == f.title,
    {
        DiscoveredRow { url: f.url, title: f.title }
    }
}

// ---------------------------------------------------------------------------
// Health and media
// ---------------------------------------------------------------------------

/// The answer of the health check.
#[derive(Debug, Clone, PartialEq)]
pub struct HealthResponse {
    pub status: String,
    pub database: String,
}

/// The health answer with its HTTP status.
#[derive(Debug, Clone, PartialEq)]
pub struct HealthAnswer {
    pub status_code: u16,
    pub body: HealthResponse,
}

/// The database is healthy: it answered `SELECT 1` with 1 and its file is
/// writable.
pub open spec fn database_healthy(one: i64, writable: bool) -> bool {
    one == 1 && writable
}

/// The health answer given the value the database returned for `SELECT 1`
/// and whether its file is writable: `200` with `ok` and `ok` when the
/// database is healthy, else `503` with `error` and `error`.
pub fn health_response(one: i64, writable: bool) -> (r: HealthAnswer)
    ensures
        database_healthy(one, writable) ==> r.status_code == 200 && r.body.status@ == "ok"@
            && r.body.database@ == "ok"@,
        !database_healthy(one, writable) ==> r.status_code == 503 && r.body.status@ == "error"@
            && r.body.database@ == "error"@,
{
    if one == 1 && writable {
        HealthAnswer {
            status_code: 200,
            body: HealthResponse { status: to_string("ok"), database: to_string("ok") },
        }
    } else {
        HealthAnswer {
            status_code: 503,
            body: HealthResponse { status: to_string("error"), database: to_string("error") },
        }
    }
}

/// A character that may stand in an HTTP header value: a visible ASCII
/// character, a space, a tab or any non-ASCII character (whose UTF-8 bytes
/// are all at least 0x80).
pub open spec fn header_char_ok(c: char) -> bool {
    (c >= ' ' && c != '\u{7f}') || c == '\t'
}

/// The `Content-Type` a stored asset is served with: its MIME type where it
/// is a valid header value, else `application/octet-stream`.
pub open spec fn served_type(mime: Seq<char>) -> Seq<char> {
    if forall|i: int| 0 <= i < mime.len() ==> header_char_ok(#[trigger] mime[i]) {
        mime
    } else {
        "application/octet-stream"@
    }
}

/// The `Content-Type` of a stored asset (see `served_type`).
pub fn media_content_type(mime: &str) -> (r: String)
    ensures
        r@ == served_type(mime@),
{
    let v = chars_of(mime);
    let mut i: usize = 0;
    while i < v.len()
        invariant
            v@ == mime@,
            i <= v@.len(),
            forall|j: int| 0 <= j < i ==> header_char_ok(#[trigger] v@[j]),
        decreases v@.len() - i,
    {
        let c = v[i];
        if !((c >= ' ' && c != '\u{7f}') || c == '\t') {
            assert(!header_char_ok(v@[i as int]));
            return to_string("application/octet-stream");
        }
        i = i + 1;
    }
    to_string(mime)
}

} // verus!
