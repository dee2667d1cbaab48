//! Feed subscriptions: the status shown for a feed, listing pages, changes
//! to a feed, finding the feeds a web site advertises, and OPML import and
//! export. The queries and the HTTP requests belong to the application.

use vstd::prelude::*;
use vstd::utf8::{decode_utf8, valid_utf8};

use crate::errors::AppError;
use crate::ext::feed_docs::{
    atom_read, atom_read_result, json_feed_read, json_feed_result, rss_read, rss_read_result,
    utf8_decode, utf8_decode_lossy, utf8_error_text, utf8_lossy,
};
use crate::ext::markup::{select_attr_pairs, selected_attr_pairs};
use crate::ext::outline_docs::{opml_outlines, opml_outlines_result, xml_escape, xml_escaped, OpmlOutline};
use crate::ext::time_ops::now_millis;
use crate::ext::url_ops::{url_join, url_join_result, url_parse, url_parse_result};
use crate::models::feed::{check_web_url, web_url_ok, DiscoveredFeed, Feed, FeedPage, FeedUpdate, ImportResult, ImportedFeed};
use crate::services::article::{clamp, clamp_i64};
use crate::text::{
    chars_of, clone_opt, concat, has_prefix, or_text, push_str, starts_with, str_eq, text_or,
    to_string, trim_start_chars, trim_start_seq,
};

verus! {

/// The fetch interval, in minutes, of a newly added feed.
pub const DEFAULT_FETCH_INTERVAL: i64 = 15;

/// The selector of the `<link>` elements that advertise feeds.
pub const ALTERNATE_SELECTOR: &'static str = "link[rel=alternate]";

// ---------------------------------------------------------------------------
// Status
// ---------------------------------------------------------------------------

/// A MIME type that `<link rel="alternate">` uses for feeds.
pub open spec fn feed_mime(t: Seq<char>) -> bool {
    ||| t == "application/rss+xml"@
    ||| t == "application/atom+xml"@
    ||| t == "application/feed+json"@
    ||| t == "application/json"@
    ||| t == "text/rss"@
    ||| t == "text/atom"@
}

/// Whether `t` is a feed MIME type (see `feed_mime`).
pub fn is_feed_type(t: &str) -> (r: bool)
    ensures
        r == feed_mime(t@),
{
    str_eq(t, "application/rss+xml") || str_eq(t, "application/atom+xml") || str_eq(
        t,
        "application/feed+json",
    ) || str_eq(t, "application/json") || str_eq(t, "text/rss") || str_eq(t, "text/atom")
}

/// A feed's status at `now`: `backoff` while a backoff lasts, else `error`
/// after failed fetches, else `ok`.
pub open spec fn feed_status(failures: i64, backoff_until: Option<i64>, now: i64) -> Seq<char> {
    if backoff_until is Some && backoff_until->Some_0 > now {
        "backoff"@
    } else if failures > 0 {
        "error"@
    } else {
        "ok"@
    }
}

/// A feed's status at `now` (see `feed_status`).
pub fn compute_status_at(failures: i64, backoff_until: Option<i64>, now: i64) -> (r: String)
    ensures
        r@ == feed_status(failures, backoff_until, now),
{
    match backoff_until {
        Some(until) => {
            if until > now {
                return to_string("backoff");
            }
        },
        None => {},
    }
    if failures > 0 {
        to_string("error")
    } else {
        to_string("ok")
    }
}

/// A feed's status now (see `feed_status`); the clock is read, so the
/// contract holds for the instant it was read at.
pub fn compute_status(failures: i64, backoff_until: Option<i64>) -> (r: String)
    ensures
        exists|now: i64| r@ == feed_status(failures, backoff_until, now),
{
    let now = now_millis();
    let r = compute_status_at(failures, backoff_until, now);
    assert(r@ == feed_status(failures, backoff_until, now));
    r
}

// ---------------------------------------------------------------------------
// Listing
// ---------------------------------------------------------------------------

/// The query of one page of subscriptions: feeds with an id above `cursor`,
/// `page_size` rows (one more than the page, to see whether more follow).
#[derive(Debug)]
pub struct FeedListPlan {
    pub cursor: i64,
    pub limit: i64,
    pub page_size: i64,
}

/// Plans a page of subscriptions: the limit is clamped to 1..=100 and the
/// cursor defaults to 0.
pub fn plan_feed_list(cursor: Option<i64>, limit: i64) -> (p: FeedListPlan)
    ensures
        p.limit == clamp(limit as int, 1, 100),
        p.cursor == match cursor {
            Some(c) => c,
            None => 0,
        },
        p.page_size == p.limit + 1,
{
    let limit = clamp_i64(limit, 1, 100);
    let cursor = match cursor {
        Some(c) => c,
        None => 0,
    };
    FeedListPlan { cursor, limit, page_size: limit + 1 }
}

/// The page made of the rows a plan's query gave: when there are more rows
/// than the limit, the last one is held back and the cursor is the id of the
/// last feed shown.
pub open spec fn feed_page_of(rows: Seq<Feed>, limit: int, page: FeedPage) -> bool {
    let more = rows.len() > limit;
    &&& page.has_more == more
    &&& page.items@ == (if more {
        rows.drop_last()
    } else {
        rows
    })
    &&& page.next_cursor == (if more {
        Some(rows.drop_last().last().id)
    } else {
        None
    })
}

/// Makes a page from the rows of its query (see `feed_page_of`).
pub fn finish_feed_page(rows: Vec<Feed>, limit: i64) -> (page: FeedPage)
    requires
        1 <= limit <= 100,
    ensures
        feed_page_of(rows@, limit as int, page),
{
    let mut items = rows;
    let has_more = items.len() > limit as usize;
    if has_more {
        items.pop();
    }
    let next_cursor = if has_more {
        let n = items.len();
        Some(items[n - 1].id)
    } else {
        None
    };
    FeedPage { items, next_cursor, has_more }
}

/// A page says whether more follow exactly when it gives a cursor, the
/// cursor is the id of its last feed, and a page from a query that asked for
/// at most one row more than the limit shows at most the limit.
pub proof fn lemma_feed_page_cursor(rows: Seq<Feed>, limit: int, page: FeedPage)
    requires
        1 <= limit,
        feed_page_of(rows, limit, page),
    ensures
        page.has_more <==> page.next_cursor is Some,
        page.has_more ==> page.items@.len() > 0 && page.next_cursor == Some(page.items@.last().id),
        rows.len() <= limit + 1 ==> page.items@.len() <= limit,
{
}

// ---------------------------------------------------------------------------
// Changes
// ---------------------------------------------------------------------------

/// A feed's schedule and descriptive fields.
#[derive(Debug)]
pub struct FeedSettings {
    pub fetch_interval_minutes: i64,
    pub title: Option<String>,
    pub description: Option<String>,
    pub site_url: Option<String>,
}

/// The fields of `FeedSettings` as plain values.
pub type FeedSettingsV = (i64, Option<Seq<char>>, Option<Seq<char>>, Option<Seq<char>>);

impl View for FeedSettings {
    type V = FeedSettingsV;

    open spec fn view(&self) -> FeedSettingsV {
        (
            self.fetch_interval_minutes,
            self.title.deep_view(),
            self.description.deep_view(),
            self.site_url.deep_view(),
        )
    }
}

/// The fields of a `FeedUpdate` as plain values.
pub open spec fn update_view(u: FeedUpdate) -> (Option<i64>, Option<Seq<char>>, Option<Seq<char>>, Option<Seq<char>>) {
    (u.fetch_interval_minutes, u.title.deep_view(), u.description.deep_view(), u.site_url.deep_view())
}

/// The fetch intervals a feed may have, in minutes.
pub open spec fn interval_allowed(v: i64) -> bool {
    v == 5 || v == 15 || v == 30 || v == 60 || v == 120 || v == 240 || v == 720 || v == 1440
}

/// `new` where given, else `old`.
pub open spec fn keep_or<T>(old: T, new: Option<T>) -> T {
    match new {
        Some(v) => v,
        None => old,
    }
}

/// The settings after an update, or `None` where the update asks for an
/// interval that is not allowed.
pub open spec fn settings_after(
    c: FeedSettingsV,
    u: (Option<i64>, Option<Seq<char>>, Option<Seq<char>>, Option<Seq<char>>),
) -> Option<FeedSettingsV> {
    if u.0 is Some && !interval_allowed(u.0->Some_0) {
        None
    } else {
        Some(
            (
                keep_or(c.0, u.0),
                if u.1 is Some {
                    u.1
                } else {
                    c.1
                },
                if u.2 is Some {
                    u.2
                } else {
                    c.2
                },
                if u.3 is Some {
                    u.3
                } else {
                    c.3
                },
            ),
        )
    }
}

/// An update replaces exactly the fields it gives: it is refused only for
/// an interval other than 5, 15, 30, 60, 120, 240, 720 or 1440 minutes;
/// once accepted, each field the update gives (interval, title,
/// description, site URL) is the new value of that field, and each field
/// it leaves out keeps its current value.
pub proof fn lemma_feed_update_replaces_given_fields(
    c: FeedSettingsV,
    u: (Option<i64>, Option<Seq<char>>, Option<Seq<char>>, Option<Seq<char>>),
)
    ensures
        settings_after(c, u) is None <==> (u.0 matches Some(v) && !(v == 5 || v == 15 || v == 30 || v
            == 60 || v == 120 || v == 240 || v == 720 || v == 1440)),
        settings_after(c, u) matches Some(s) ==> ({
            &&& s.0 == (match u.0 {
                Some(v) => v,
                None => c.0,
            })
            &&& s.1 == (match u.1 {
                Some(t) => Some(t),
                None => c.1,
            })
            &&& s.2 == (match u.2 {
                Some(d) => Some(d),
                None => c.2,
            })
            &&& s.3 == (match u.3 {
                Some(w) => Some(w),
                None => c.3,
            })
        }),
{
}

/// Applies an update to a feed's settings; an interval outside the allowed
/// ones is a bad request.
pub fn apply_feed_update(current: FeedSettings, req: FeedUpdate) -> (r: Result<FeedSettings, AppError>)
    ensures
        match settings_after(current@, update_view(req)) {
            None => r matches Err(AppError::BadRequest(m)) && m@ == "invalid fetch interval"@,
            Some(s) => r matches Ok(n) && n@ == s,
        },
{
    let mut interval = current.fetch_interval_minutes;
    match req.fetch_interval_minutes {
        Some(v) => {
            if !(v == 5 || v == 15 || v == 30 || v == 60 || v == 120 || v == 240 || v == 720 || v
                == 1440) {
                return Err(AppError::BadRequest(to_string("invalid fetch interval")));
            }
            interval = v;
        },
        None => {},
    }
    let title = if req.title.is_some() {
        req.title
    } else {
        current.title
    };
    let description = if req.description.is_some() {
        req.description
    } else {
        current.description
    };
    let site_url = if req.site_url.is_some() {
        req.site_url
    } else {
        current.site_url
    };
    Ok(FeedSettings { fetch_interval_minutes: interval, title, description, site_url })
}

/// An update that changes nothing leaves the settings as they are, and
/// applying an accepted update a second time changes nothing more.
pub proof fn lemma_feed_update_idempotent(
    c: FeedSettingsV,
    u: (Option<i64>, Option<Seq<char>>, Option<Seq<char>>, Option<Seq<char>>),
)
    ensures
        settings_after(c, (None, None, None, None)) == Some(c),
        settings_after(c, u) matches Some(s) ==> settings_after(s, u) == Some(s),
{
}

// ---------------------------------------------------------------------------
// Discovery
// ---------------------------------------------------------------------------

/// The feed URL a `<link rel="alternate">` with `type` and `href` gives: the
/// `href` resolved against the page's URL, where the type is a feed type and
/// the `href` is not empty.
pub open spec fn candidate_of(pair: (Option<Seq<char>>, Option<Seq<char>>), page_url: Seq<char>) -> Option<Seq<char>> {
    let t = match pair.0 {
        Some(t) => t,
        None => Seq::empty(),
    };
    let h = match pair.1 {
        Some(h) => h,
        None => Seq::empty(),
    };
    if !feed_mime(t) || h.len() == 0 {
        None
    } else {
        url_join_result(page_url, h)
    }
}

/// The feed URLs of the links, each once, in the order they first appear.
pub open spec fn candidates(pairs: Seq<(Option<Seq<char>>, Option<Seq<char>>)>, page_url: Seq<char>) -> Seq<Seq<char>>
    decreases pairs.len(),
{
    if pairs.len() == 0 {
        Seq::empty()
    } else {
        let rest = candidates(pairs.drop_last(), page_url);
        match candidate_of(pairs.last(), page_url) {
            Some(u) => if rest.contains(u) {
                rest
            } else {
                rest.push(u)
            },
            None => rest,
        }
    }
}

/// The views of a sequence of strings.
pub open spec fn strings_view(v: Seq<String>) -> Seq<Seq<char>> {
    v.map_values(|s: String| s@)
}

fn contains_string(v: &Vec<String>, s: &str) -> (r: bool)
    ensures
        r == strings_view(v@).contains(s@),
{
    let mut i: usize = 0;
    while i < v.len()
        invariant
            i <= v@.len(),
            forall|j: int| 0 <= j < i ==> v@[j]@ != s@,
        decreases v@.len() - i,
    {
        if str_eq(v[i].as_str(), s) {
            assert(strings_view(v@)[i as int] == s@);
            return true;
        }
        i = i + 1;
    }
    assert forall|j: int| 0 <= j < strings_view(v@).len() implies strings_view(v@)[j] != s@ by {
        assert(strings_view(v@)[j] == v@[j]@);
    }
    false
}

/// The feed URLs a web page advertises (see `candidates`); a page URL that
/// does not parse is a bad request.
pub fn discover_candidates(html: &str, page_url: &str) -> (r: Result<Vec<String>, AppError>)
    ensures
        match url_parse_result(page_url@) {
            Err(e) => r matches Err(AppError::BadRequest(m)) && m@ == "invalid URL: "@ + e,
            Ok(_) => match selected_attr_pairs(html@, ALTERNATE_SELECTOR@, "type"@, "href"@) {
                Err(e) => r matches Err(AppError::Internal(m)) && m@ == "selector: "@ + e,
                Ok(pairs) => r matches Ok(v) && strings_view(v@) == candidates(pairs, page_url@),
            },
        },
{
    match url_parse(page_url) {
        Err(e) => {
            return Err(AppError::BadRequest(concat("invalid URL: ", e.as_str())));
        },
        Ok(_) => {},
    }
    let pairs = match select_attr_pairs(html, ALTERNATE_SELECTOR, "type", "href") {
        Err(e) => {
            return Err(AppError::Internal(concat("selector: ", e.as_str())));
        },
        Ok(p) => p,
    };
    let ghost ps = pairs.deep_view();
    let mut out: Vec<String> = Vec::new();
    let mut i: usize = 0;
    while i < pairs.len()
        invariant
            ps == pairs.deep_view(),
            i <= pairs@.len(),
            strings_view(out@) == candidates(ps.take(i as int), page_url@),
        decreases pairs@.len() - i,
    {
        proof {
            assert(ps.take(i + 1).drop_last() =~= ps.take(i as int));
            assert(ps.take(i + 1).last() == ps[i as int]);
        }
        let t = text_or(&pairs[i].0, "");
        let h = text_or(&pairs[i].1, "");
        proof {
            reveal_strlit("");
            assert(ps[i as int] == (pairs@[i as int].0.deep_view(), pairs@[i as int].1.deep_view()));
        }
        assert(t@ == match ps[i as int].0 { Some(x) => x, None => Seq::<char>::empty() });
        assert(h@ == match ps[i as int].1 { Some(x) => x, None => Seq::<char>::empty() });
        if is_feed_type(t.as_str()) && !h.as_str().is_empty() {
            match url_join(page_url, h.as_str()) {
                Some(abs) => {
                    if !contains_string(&out, abs.as_str()) {
                        proof {
                            assert(strings_view(out@.push(abs)) =~= strings_view(out@).push(abs@));
                        }
                        out.push(abs);
                    }
                },
                None => {},
            }
        }
        i = i + 1;
    }
    assert(ps.take(ps.len() as int) =~= ps);
    Ok(out)
}

/// `s` where it is not empty.
pub open spec fn nonempty(s: Seq<char>) -> Option<Seq<char>> {
    if s.len() == 0 {
        None
    } else {
        Some(s)
    }
}

/// The title of a feed document: for text that starts (after whitespace)
/// with `<?xml`, `<feed` or `<rss`, the title of the RSS channel or else of
/// the Atom feed that it reads as; otherwise, or where neither reads it, the
/// `title` member of a JSON document. An empty title is no title.
pub open spec fn feed_title_of(bytes: Seq<u8>) -> Option<Seq<char>> {
    let t = trim_start_seq(utf8_lossy(bytes));
    let xmlish = has_prefix(t, "<?xml"@) || has_prefix(t, "<feed"@) || has_prefix(t, "<rss"@);
    if xmlish && rss_read_result(bytes) is Ok {
        nonempty(rss_read_result(bytes)->Ok_0.title@)
    } else if xmlish && atom_read_result(bytes) is Ok {
        nonempty(atom_read_result(bytes)->Ok_0.0@)
    } else {
        match json_feed_result(utf8_lossy(bytes)) {
            Ok(doc) => match doc.title {
                Some(title) => nonempty(title@),
                None => None,
            },
            Err(_) => None,
        }
    }
}

fn nonempty_string(s: String) -> (r: Option<String>)
    ensures
        r.deep_view() == nonempty(s@),
{
    if s.as_str().is_empty() {
        None
    } else {
        Some(s)
    }
}

/// The title of a feed document (see `feed_title_of`).
pub fn feed_title(bytes: &[u8]) -> (r: Option<String>)
    ensures
        r.deep_view() == feed_title_of(bytes@),
{
    let text = utf8_decode_lossy(bytes);
    let t = trim_start_chars(text.as_str());
    if starts_with(&t, &chars_of("<?xml")) || starts_with(&t, &chars_of("<feed")) || starts_with(
        &t,
        &chars_of("<rss"),
    ) {
        match rss_read(bytes) {
            Ok(ch) => {
                return nonempty_string(ch.title);
            },
            Err(_) => {},
        }
        match atom_read(bytes) {
            Ok(feed) => {
                return nonempty_string(feed.0);
            },
            Err(_) => {},
        }
    }
    match json_feed_read(text.as_str()) {
        Ok(doc) => match doc.title {
            Some(title) => nonempty_string(title),
            None => None,
        },
        Err(_) => None,
    }
}

/// A feed found on a web site, where fetching it succeeded: its URL and the
/// title its document gives.
pub fn discovered_feed(url: String, fetched: Result<Vec<u8>, String>) -> (r: Option<DiscoveredFeed>)
    ensures
        match fetched {
            Err(_) => r is None,
            Ok(b) => r matches Some(f) && f.url == url && f.title.deep_view() == feed_title_of(b@),
        },
{
    match fetched {
        Err(_) => None,
        Ok(b) => Some(DiscoveredFeed { url, title: feed_title(b.as_slice()) }),
    }
}

// ---------------------------------------------------------------------------
// OPML import
// ---------------------------------------------------------------------------

/// An outline to import: the feed's URL (empty where the outline has none)
/// and its title.
#[derive(Debug)]
pub struct ImportEntry {
    pub url: String,
    pub title: Option<String>,
}

/// An outline's URL: `xmlUrl`, else `htmlUrl`, else empty.
pub open spec fn outline_url(o: OpmlOutline) -> Seq<char> {
    match o.xml_url {
        Some(u) => u@,
        None => or_text(o.html_url, Seq::empty()),
    }
}

/// `e` is the entry of outline `o`: its URL, and its `text` as the title.
pub open spec fn entry_of(o: OpmlOutline, e: ImportEntry) -> bool {
    e.url@ == outline_url(o) && e.title.deep_view() == Some(o.text@)
}

impl ImportEntry {
    /// Whether a feed may be created from the entry: its URL is an `http`
    /// or `https` URL.
    pub fn creatable(&self) -> (r: bool)
        ensures
            r == web_url_ok(self.url@),
    {
        check_web_url(self.url.as_str())
    }
}

/// The entries of outlines: one per outline, in order (see `entry_of`).
pub fn entries_of_outlines(outs: &Vec<OpmlOutline>) -> (r: Vec<ImportEntry>)
    ensures
        r@.len() == outs@.len(),
        forall|i: int| 0 <= i < r@.len() ==> entry_of(outs@[i], #[trigger] r@[i]),
{
    let mut v: Vec<ImportEntry> = Vec::new();
    let mut i: usize = 0;
    while i < outs.len()
        invariant
            i <= outs@.len(),
            v@.len() == i,
            forall|j: int| 0 <= j < i ==> entry_of(outs@[j], #[trigger] v@[j]),
        decreases outs@.len() - i,
    {
        let o = &outs[i];
        let url = match &o.xml_url {
            Some(u) => u.clone(),
            None => match &o.html_url {
                Some(h) => h.clone(),
                None => String::new(),
            },
        };
        v.push(ImportEntry { url, title: Some(o.text.clone()) });
        i = i + 1;
    }
    v
}

/// Reads an OPML document into the entries to import: text that is not
/// UTF-8 or not OPML is a bad request.
pub fn import_entries(data: &[u8]) -> (r: Result<Vec<ImportEntry>, AppError>)
    ensures
        !valid_utf8(data@) ==> (r matches Err(AppError::BadRequest(m)) && m@ == "invalid UTF-8: "@
            + utf8_error_text(data@)),
        valid_utf8(data@) ==> match opml_outlines_result(decode_utf8(data@)) {
            Err(e) => r matches Err(AppError::BadRequest(m)) && m@ == "invalid OPML: "@ + e@,
            Ok(outs) => r matches Ok(v) && v@.len() == outs@.len() && forall|i: int|
                0 <= i < v@.len() ==> entry_of(outs@[i], #[trigger] v@[i]),
        },
{
    let text = match utf8_decode(data) {
        Err(e) => {
            return Err(AppError::BadRequest(concat("invalid UTF-8: ", e.as_str())));
        },
        Ok(t) => t,
    };
    match opml_outlines(text.as_str()) {
        Err(e) => Err(AppError::BadRequest(concat("invalid OPML: ", e.as_str()))),
        Ok(outs) => Ok(entries_of_outlines(&outs)),
    }
}

/// The line an entry's import gives, as (URL, title, status): `no_url`
/// without a URL, `failed` where the URL is not an `http` or `https` URL
/// (no feed is created for it), `imported` with the created feed's URL and
/// title, else `failed`.
pub open spec fn import_line(e: ImportEntry, created: Option<Feed>) -> (Seq<char>, Option<Seq<char>>, Seq<char>) {
    if e.url@.len() == 0 {
        (e.url@, e.title.deep_view(), "no_url"@)
    } else if !web_url_ok(e.url@) {
        (e.url@, e.title.deep_view(), "failed"@)
    } else {
        match created {
            Some(f) => (f.url@, f.title.deep_view(), "imported"@),
            None => (e.url@, e.title.deep_view(), "failed"@),
        }
    }
}

/// How many of the first entries were imported.
pub open spec fn imported_count(es: Seq<ImportEntry>, created: Seq<Option<Feed>>) -> nat
    decreases es.len(),
{
    if es.len() == 0 || created.len() == 0 {
        0
    } else {
        imported_count(es.drop_last(), created.drop_last()) + if import_line(
            es.last(),
            created.last(),
        ).2 == "imported"@ {
            1nat
        } else {
            0nat
        }
    }
}

/// The view of an import line.
pub open spec fn imported_view(f: ImportedFeed) -> (Seq<char>, Option<Seq<char>>, Seq<char>) {
    (f.url@, f.title.deep_view(), f.status@)
}

proof fn lemma_status_words()
    ensures
        "no_url"@ != "imported"@,
        "failed"@ != "imported"@,
{
    reveal_strlit("no_url");
    reveal_strlit("imported");
    reveal_strlit("failed");
    assert("no_url"@.len() == 6);
    assert("failed"@.len() == 6);
    assert("imported"@.len() == 8);
}

/// The result of an import from its entries and, for each, the feed created
/// (`None` where creating it failed or was not tried).
pub fn import_result(entries: Vec<ImportEntry>, created: Vec<Option<Feed>>) -> (r: ImportResult)
    requires
        entries@.len() == created@.len(),
    ensures
        r.total == entries@.len(),
        r.feeds@.len() == entries@.len(),
        forall|i: int|
            0 <= i < entries@.len() ==> imported_view(#[trigger] r.feeds@[i]) == import_line(
                entries@[i],
                created@[i],
            ),
        r.imported == imported_count(entries@, created@),
        r.imported + r.failed == r.total,
{
    let mut feeds: Vec<ImportedFeed> = Vec::new();
    let mut imported: usize = 0;
    let mut failed: usize = 0;
    let mut i: usize = 0;
    while i < entries.len()
        invariant
            entries@.len() == created@.len(),
            i <= entries@.len(),
            feeds@.len() == i,
            forall|j: int| 0 <= j < i ==> imported_view(#[trigger] feeds@[j]) == import_line(entries@[j], created@[j]),
            imported == imported_count(entries@.take(i as int), created@.take(i as int)),
            imported + failed == i,
        decreases entries@.len() - i,
    {
        proof {
            assert(entries@.take(i + 1).drop_last() =~= entries@.take(i as int));
            assert(created@.take(i + 1).drop_last() =~= created@.take(i as int));
            assert(entries@.take(i + 1).last() == entries@[i as int]);
            assert(created@.take(i + 1).last() == created@[i as int]);
            lemma_status_words();
        }
        let e = &entries[i];
        if e.url.as_str().is_empty() {
            feeds.push(ImportedFeed { url: e.url.clone(), title: clone_opt(&e.title), status: to_string("no_url") });
            failed = failed + 1;

        } else if !e.creatable() {
            feeds.push(ImportedFeed { url: e.url.clone(), title: clone_opt(&e.title), status: to_string("failed") });
            failed = failed + 1;
        } else {
            match &created[i] {
                Some(f) => {
                    feeds.push(ImportedFeed { url: f.url.clone(), title: clone_opt(&f.title), status: to_string("imported") });
                    imported = imported + 1;
                },
                None => {
                    feeds.push(ImportedFeed { url: e.url.clone(), title: clone_opt(&e.title), status: to_string("failed") });
                    failed = failed + 1;
                },
            }
        }
        i = i + 1;
    }
    assert(entries@.take(i as int) =~= entries@);
    assert(created@.take(i as int) =~= created@);
    ImportResult { total: entries.len(), imported, failed, feeds }
}

// ---------------------------------------------------------------------------
// OPML export
// ---------------------------------------------------------------------------

/// A subscription as the export lists it.
#[derive(Debug)]
pub struct OpmlFeedRow {
    pub url: String,
    pub title: Option<String>,
    pub site_url: Option<String>,
}

/// The outline of one subscription: its title (its URL where it has none)
/// as `text` and `title`, its URL and its site's URL, each escaped.
pub open spec fn outline_line(r: OpmlFeedRow) -> Seq<char> {
    let title = xml_escaped(or_text(r.title, r.url@));
    "    <outline text=\""@ + title + "\" title=\""@ + title + "\" type=\"rss\" xmlUrl=\""@ + xml_escaped(r.url@)
        + "\" htmlUrl=\""@ + xml_escaped(or_text(r.site_url, Seq::empty())) + "\" />\n"@
}

/// The outlines of the subscriptions, in order.
pub open spec fn outline_lines(rows: Seq<OpmlFeedRow>) -> Seq<char>
    decreases rows.len(),
{
    if rows.len() == 0 {
        Seq::empty()
    } else {
        outline_lines(rows.drop_last()) + outline_line(rows.last())
    }
}

/// The OPML document listing the subscriptions.
pub open spec fn opml_document(rows: Seq<OpmlFeedRow>) -> Seq<char> {
    "<?xml version=\"1.0\" encoding=\"UTF-8\"?>\n"@ + "<opml version=\"2.0\">\n"@
        + "  <head><title>Subscriptions</title></head>\n"@ + "  <body>\n"@ + outline_lines(rows)
        + "  </body>\n"@ + "</opml>\n"@
}

fn push_outline(out: &mut String, r: &OpmlFeedRow)
    ensures
        final(out)@ == old(out)@ + outline_line(*r),
{
    let title = xml_escape(text_or(&r.title, r.url.as_str()).as_str());
    let url = xml_escape(r.url.as_str());
    let html = xml_escape(text_or(&r.site_url, "").as_str());
    proof {
        reveal_strlit("");
    }
    push_str(out, "    <outline text=\"");
    push_str(out, title.as_str());
    push_str(out, "\" title=\"");
    push_str(out, title.as_str());
    push_str(out, "\" type=\"rss\" xmlUrl=\"");
    push_str(out, url.as_str());
    push_str(out, "\" htmlUrl=\"");
    push_str(out, html.as_str());
    push_str(out, "\" />\n");
    assert(final(out)@ =~= old(out)@ + outline_line(*r));
}

/// Writes the OPML document of a user's subscriptions, in the order given.
pub fn export_opml(rows: &Vec<OpmlFeedRow>) -> (r: String)
    ensures
        r@ == opml_document(rows@),
{
    let mut xml = String::new();
    push_str(&mut xml, "<?xml version=\"1.0\" encoding=\"UTF-8\"?>\n");
    push_str(&mut xml, "<opml version=\"2.0\">\n");
    push_str(&mut xml, "  <head><title>Subscriptions</title></head>\n");
    push_str(&mut xml, "  <body>\n");
    let ghost head = xml@;
    let mut i: usize = 0;
    while i < rows.len()
        invariant
            i <= rows@.len(),
            xml@ == head + outline_lines(rows@.take(i as int)),
        decreases rows@.len() - i,
    {
        proof {
            assert(rows@.take(i + 1).drop_last() =~= rows@.take(i as int));
            assert(rows@.take(i + 1).last() == rows@[i as int]);
        }
        push_outline(&mut xml, &rows[i]);
        assert(xml@ =~= head + outline_lines(rows@.take(i + 1)));
        i = i + 1;
    }
    assert(rows@.take(i as int) =~= rows@);
    push_str(&mut xml, "  </body>\n");
    push_str(&mut xml, "</opml>\n");
    assert(xml@ =~= opml_document(rows@));
    xml
}

} // verus!
