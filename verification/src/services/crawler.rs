//! The feed crawler's decisions: recognising and reading a feed document,
//! which redirects are followed, what a fetch comes to, when a feed is next
//! fetched (after failures, and after a success whose response may be
//! cached), and how requests to the network are spaced. The HTTP requests,
//! the database and the scheduling loop belong to the application.

use vstd::prelude::*;
use vstd::utf8::{decode_utf8, valid_utf8};

use crate::errors::AppError;
use crate::ext::feed_docs::{
    atom_read, atom_read_result, json_feed_read, json_feed_result, rss_read, rss_read_result,
    utf8_decode, utf8_error_text, utf8_lossy, utf8_decode_lossy, AtomEntry, AtomFeed, AtomLink,
    JsonFeedDoc, JsonItem, RssChannel, RssItem,
};
use crate::ext::time_ops::{parse_rfc2822_millis, parse_rfc3339_millis, rfc2822_millis, rfc3339_millis};
use crate::ext::url_ops::{url_parse, url_parse_result, url_path, url_path_result};
use crate::models::article::{inputs_view, ArticleInput, ArticleInputV};
use crate::services::media::{resolve_url, resolved};
use crate::text::{
    chars_of, clone_opt, concat, or_text, text_or, contains, has_infix, has_prefix, starts_with, str_eq, to_string,
    trim_start_chars, trim_start_seq, string_of, trim, trim_seq, lower_seq, ascii_lower,
    char_to_ascii_lowercase, char_is_ascii_digit, all_digits, digits_value, is_digit_ascii,
};

verus! {

/// The kind of document a feed's body looks like.
#[derive(Debug, Clone, Copy, PartialEq, Eq, Structural)]
pub enum FeedType {
    Rss,
    Atom,
    Json,
    Unknown,
}

/// The kind of document a feed's text looks like, from its start after
/// leading whitespace. A document opening with an XML declaration is RSS
/// where an `<rss` or `<channel` element follows, Atom where a `<feed`
/// element follows, and RSS where only the Atom namespace does. Otherwise a
/// document opening with `<rss` or `<channel` is RSS, with `<feed` Atom, and
/// with `{` JSON Feed.
pub open spec fn feed_type_of(text: Seq<char>) -> FeedType {
    let t = trim_start_seq(text);
    if has_prefix(t, "<?xml"@) && (has_infix(t, "<rss"@) || has_infix(t, "<channel"@)) {
        FeedType::Rss
    } else if has_prefix(t, "<?xml"@) && has_infix(t, "<feed"@) {
        FeedType::Atom
    } else if has_prefix(t, "<?xml"@) && has_infix(t, "http://www.w3.org/2005/Atom"@) {
        FeedType::Rss
    } else if has_prefix(t, "<rss"@) || has_prefix(t, "<channel"@) {
        FeedType::Rss
    } else if has_prefix(t, "<feed"@) {
        FeedType::Atom
    } else if has_prefix(t, "{"@) {
        FeedType::Json
    } else {
        FeedType::Unknown
    }
}

/// Guesses the kind of a feed document from its text.
pub fn content_type_hint(text: &str) -> (r: FeedType)
    ensures
        r == feed_type_of(text@),
{
    let t = trim_start_chars(text);
    if starts_with(&t, &chars_of("<?xml")) {
        if contains(&t, &chars_of("<rss")) || contains(&t, &chars_of("<channel")) {
            return FeedType::Rss;
        }
        if contains(&t, &chars_of("<feed")) {
            return FeedType::Atom;
        }
        if contains(&t, &chars_of("http://www.w3.org/2005/Atom")) {
            return FeedType::Rss;
        }
    }
    if starts_with(&t, &chars_of("<rss")) || starts_with(&t, &chars_of("<channel")) {
        return FeedType::Rss;
    }
    if starts_with(&t, &chars_of("<feed")) {
        return FeedType::Atom;
    }
    if starts_with(&t, &chars_of("{")) {
        return FeedType::Json;
    }
    FeedType::Unknown
}

// ---------------------------------------------------------------------------
// Reading documents
// ---------------------------------------------------------------------------

/// What a reader gives: the articles of a document, or an error message.
pub type ParseResultV = Result<Seq<ArticleInputV>, Seq<char>>;

/// `r` is the reader outcome `s`: the same articles, or an internal error
/// with the same message.
pub open spec fn parse_matches(r: Result<Vec<ArticleInput>, AppError>, s: ParseResultV) -> bool {
    match s {
        Ok(v) => r matches Ok(a) && inputs_view(a@) == v,
        Err(m) => r matches Err(AppError::Internal(e)) && e@ == m,
    }
}

/// `s` where it parses as a URL, `fallback` otherwise.
pub open spec fn parsed_or(s: Seq<char>, fallback: Seq<char>) -> Seq<char> {
    if url_parse_result(s) is Ok {
        s
    } else {
        fallback
    }
}

fn parsed_or_else(s: String, fallback: &str) -> (r: String)
    ensures
        r@ == parsed_or(s@, fallback@),
{
    match url_parse(s.as_str()) {
        Ok(_) => s,
        Err(_) => to_string(fallback),
    }
}

proof fn lemma_inputs_push(v: Seq<ArticleInput>, a: ArticleInput)
    ensures
        inputs_view(v.push(a)) == inputs_view(v).push(a@),
{
    assert(inputs_view(v.push(a)) =~= inputs_view(v).push(a@));
}

// Titles ---------------------------------------------------------------------

/// `s` without the slashes at its end.
pub open spec fn trim_end_slashes(s: Seq<char>) -> Seq<char>
    decreases s.len(),
{
    if s.len() > 0 && s.last() == '/' {
        trim_end_slashes(s.drop_last())
    } else {
        s
    }
}

/// The part of `s` after its last slash (all of `s` where it has none).
pub open spec fn after_last_slash(s: Seq<char>) -> Seq<char>
    decreases s.len(),
{
    if s.len() == 0 {
        s
    } else if s.last() == '/' {
        Seq::empty()
    } else {
        after_last_slash(s.drop_last()).push(s.last())
    }
}

/// The last non-empty segment of a URL path (empty where it has none).
pub open spec fn last_segment(path: Seq<char>) -> Seq<char> {
    after_last_slash(trim_end_slashes(path))
}

/// The title of an article that has none: the last segment of its URL's
/// path, or `Untitled` where the URL does not parse or its path has no
/// segment.
pub open spec fn url_title(url: Seq<char>) -> Seq<char> {
    match url_path_result(url) {
        Some(p) => if last_segment(p).len() > 0 {
            last_segment(p)
        } else {
            "Untitled"@
        },
        None => "Untitled"@,
    }
}

/// The last non-empty segment of a path (see `last_segment`).
pub fn path_last_segment(path: &str) -> (r: String)
    ensures
        r@ == last_segment(path@),
{
    let v = chars_of(path);
    let mut end: usize = v.len();
    assert(v@.take(end as int) =~= v@);
    while end > 0 && v[end - 1] == '/'
        invariant
            end <= v@.len(),
            trim_end_slashes(v@) == trim_end_slashes(v@.take(end as int)),
        decreases end,
    {
        assert(v@.take(end as int).drop_last() =~= v@.take(end - 1));
        end = end - 1;
    }
    let ghost t = v@.take(end as int);
    assert(trim_end_slashes(t) == t);
    let mut start: usize = end;
    assert(t.subrange(start as int, end as int) =~= Seq::<char>::empty());
    assert(t.take(start as int) =~= t);
    while start > 0 && v[start - 1] != '/'
        invariant
            start <= end <= v@.len(),
            t == v@.take(end as int),
            after_last_slash(t) == after_last_slash(t.take(start as int)) + t.subrange(
                start as int,
                end as int,
            ),
        decreases start,
    {
        let ghost p = t.take(start as int);
        assert(p.drop_last() =~= t.take(start - 1));
        assert(p.last() == v@[start - 1]);
        assert(t.subrange(start - 1, end as int) =~= seq![v@[start - 1]] + t.subrange(
            start as int,
            end as int,
        ));
        assert(after_last_slash(p) == after_last_slash(t.take(start - 1)).push(v@[start - 1]));
        assert(after_last_slash(t.take(start - 1)).push(v@[start - 1]) + t.subrange(
            start as int,
            end as int,
        ) =~= after_last_slash(t.take(start - 1)) + t.subrange(start - 1, end as int));
        start = start - 1;
    }
    assert(after_last_slash(t.take(start as int)) =~= Seq::<char>::empty());
    let mut out: Vec<char> = Vec::new();
    let mut i: usize = start;
    while i < end
        invariant
            start <= i <= end <= v@.len(),
            out@ == v@.subrange(start as int, i as int),
        decreases end - i,
    {
        out.push(v[i]);
        i = i + 1;
        assert(out@ =~= v@.subrange(start as int, i as int));
    }
    assert(out@ =~= t.subrange(start as int, end as int));
    string_of(&out)
}

/// The title of an article without one (see `url_title`).
pub fn title_from_url(url: &str) -> (r: String)
    ensures
        r@ == url_title(url@),
{
    match url_path(url) {
        Some(p) => {
            let seg = path_last_segment(p.as_str());
            if seg.as_str().is_empty() {
                to_string("Untitled")
            } else {
                seg
            }
        },
        None => to_string("Untitled"),
    }
}

/// An article's title: its own, else the one its URL gives.
pub open spec fn title_or_url(title: Option<String>, url: Seq<char>) -> Seq<char> {
    match title {
        Some(t) => t@,
        None => url_title(url),
    }
}

fn title_or_from_url(title: &Option<String>, url: &str) -> (r: String)
    ensures
        r@ == title_or_url(*title, url@),
{
    match title {
        Some(t) => t.clone(),
        None => title_from_url(url),
    }
}

// RSS ------------------------------------------------------------------------

/// An RSS item's link: its `<link>`, else its `<guid>` where that is a
/// permalink, else empty.
pub open spec fn rss_item_url(item: RssItem) -> Seq<char> {
    match item.link {
        Some(l) => l@,
        None => match item.guid {
            Some(g) => if g.permalink {
                g.value@
            } else {
                Seq::empty()
            },
            None => Seq::empty(),
        },
    }
}

/// The article an RSS item describes, its link resolved against `base`;
/// without a title it is titled from that URL.
pub open spec fn rss_article(item: RssItem, base: Seq<char>) -> ArticleInputV {
    (
        resolved(rss_item_url(item), base),
        title_or_url(item.title, resolved(rss_item_url(item), base)),
        item.description.deep_view(),
        item.content.deep_view(),
        match item.pub_date {
            Some(d) => rfc2822_millis(d@),
            None => None,
        },
    )
}

/// The articles of RSS items, in order, leaving out items without a link.
pub open spec fn rss_articles(items: Seq<RssItem>, base: Seq<char>) -> Seq<ArticleInputV>
    decreases items.len(),
{
    if items.len() == 0 {
        Seq::empty()
    } else {
        let rest = rss_articles(items.drop_last(), base);
        if rss_item_url(items.last()).len() == 0 {
            rest
        } else {
            rest.push(rss_article(items.last(), base))
        }
    }
}

/// Each RSS item with a link becomes one article: after any items read
/// before it, an item whose `<link>` is non-empty adds exactly one article,
/// at that link resolved against the base, with the item's title where it
/// has one, its description as the summary, its `content:encoded` as the
/// content, and its RFC 2822 publication date. An item with neither a link
/// nor a permalink `<guid>` adds none.
pub proof fn lemma_rss_item_becomes_article(items: Seq<RssItem>, item: RssItem, base: Seq<char>)
    ensures
        match item.link {
            Some(l) => l@.len() > 0 ==> ({
                let out = rss_articles(items.push(item), base);
                &&& out.drop_last() == rss_articles(items, base)
                &&& out.last().0 == resolved(l@, base)
                &&& (item.title matches Some(t) ==> out.last().1 == t@)
                &&& out.last().2 == item.description.deep_view()
                &&& out.last().3 == item.content.deep_view()
                &&& out.last().4 == (match item.pub_date {
                    Some(d) => rfc2822_millis(d@),
                    None => None,
                })
            }),
            None => true,
        },
        item.link is None && (item.guid is None || !item.guid->0.permalink) ==> rss_articles(
            items.push(item),
            base,
        ) == rss_articles(items, base),
{
    assert(items.push(item).drop_last() =~= items);
    assert(items.push(item).last() == item);
}

/// The URL an RSS document's links are resolved against: the channel's
/// link, or the feed's URL where the link is empty; the response's final URL
/// where that does not parse.
pub open spec fn rss_base(link: Seq<char>, feed_url: Seq<char>, final_url: Seq<char>) -> Seq<char> {
    parsed_or(
        if link.len() == 0 {
            feed_url
        } else {
            link
        },
        final_url,
    )
}

/// What reading an RSS document gives.
pub open spec fn rss_result(bytes: Seq<u8>, feed_url: Seq<char>, final_url: Seq<char>) -> ParseResultV {
    match rss_read_result(bytes) {
        Err(e) => Err("rss parse: "@ + e@),
        Ok(ch) => Ok(rss_articles(ch.items@, rss_base(ch.link@, feed_url, final_url))),
    }
}

fn rss_url(item: &RssItem) -> (r: String)
    ensures
        r@ == rss_item_url(*item),
{
    match &item.link {
        Some(l) => l.clone(),
        None => match &item.guid {
            Some(g) => if g.permalink {
                g.value.clone()
            } else {
                String::new()
            },
            None => String::new(),
        },
    }
}

/// The articles of a read RSS channel: its items with a link, in order,
/// resolved against the channel's link, the feed's URL or the response's
/// final URL (see `rss_base`).
pub fn articles_of_rss(ch: &RssChannel, feed_url: &str, final_url: &str) -> (r: Vec<ArticleInput>)
    ensures
        inputs_view(r@) == rss_articles(ch.items@, rss_base(ch.link@, feed_url@, final_url@)),
{
    let chosen = if ch.link.as_str().is_empty() {
        to_string(feed_url)
    } else {
        ch.link.clone()
    };
    let base = parsed_or_else(chosen, final_url);
    let ghost items = ch.items@;
    let mut out: Vec<ArticleInput> = Vec::new();
    let mut i: usize = 0;
    while i < ch.items.len()
        invariant
            items == ch.items@,
            i <= items.len(),
            inputs_view(out@) == rss_articles(items.take(i as int), base@),
        decreases items.len() - i,
    {
        let item = &ch.items[i];
        proof {
            assert(items.take(i + 1).drop_last() =~= items.take(i as int));
            assert(items.take(i + 1).last() == items[i as int]);
        }
        let url = rss_url(item);
        if !url.as_str().is_empty() {
            let published_at = match &item.pub_date {
                Some(d) => parse_rfc2822_millis(d.as_str()),
                None => None,
            };
            let link = resolve_url(url.as_str(), base.as_str());
            let title = title_or_from_url(&item.title, link.as_str());
            let a = ArticleInput {
                url: link,
                title,
                summary: clone_opt(&item.description),
                content_html: clone_opt(&item.content),
                published_at,
            };
            proof {
                lemma_inputs_push(out@, a);
            }
            out.push(a);
        }
        i = i + 1;
    }
    assert(items.take(items.len() as int) =~= items);
    out
}

/// Reads an RSS document into articles.
pub fn parse_rss(bytes: &[u8], feed_url: &str, final_url: &str) -> (r: Result<Vec<ArticleInput>, AppError>)
    ensures
        parse_matches(r, rss_result(bytes@, feed_url@, final_url@)),
{
    match rss_read(bytes) {
        Ok(ch) => Ok(articles_of_rss(&ch, feed_url, final_url)),
        Err(e) => Err(AppError::Internal(concat("rss parse: ", e.as_str()))),
    }
}

// Atom -----------------------------------------------------------------------

/// The `href` of the first link whose `rel` is `alternate`.
pub open spec fn first_alternate(links: Seq<AtomLink>) -> Option<Seq<char>>
    decreases links.len(),
{
    if links.len() == 0 {
        None
    } else if links[0].0@ == "alternate"@ {
        Some(links[0].1@)
    } else {
        first_alternate(links.drop_first())
    }
}

/// The URL an Atom document's links are resolved against: its first
/// `alternate` link where that parses, else the response's final URL.
pub open spec fn atom_base(links: Seq<AtomLink>, final_url: Seq<char>) -> Seq<char> {
    match first_alternate(links) {
        Some(h) => parsed_or(h, final_url),
        None => final_url,
    }
}

/// An Atom entry's link: its first `alternate` link, else its first link,
/// else empty.
pub open spec fn atom_entry_url(e: AtomEntry) -> Seq<char> {
    match first_alternate(e.0@) {
        Some(h) => h,
        None => if e.0@.len() > 0 {
            e.0@[0].1@
        } else {
            Seq::empty()
        },
    }
}

/// The article an Atom entry describes: the summary falls back to the
/// content, the publication date to the update date.
pub open spec fn atom_article(e: AtomEntry, base: Seq<char>) -> ArticleInputV {
    (
        resolved(atom_entry_url(e), base),
        e.1@,
        match e.2 {
            Some(s) => Some(s@),
            None => e.3.deep_view(),
        },
        e.3.deep_view(),
        match e.4 {
            Some(p) => Some(p),
            None => Some(e.5),
        },
    )
}

/// The articles of Atom entries, in order, leaving out entries without a
/// link.
pub open spec fn atom_articles(entries: Seq<AtomEntry>, base: Seq<char>) -> Seq<ArticleInputV>
    decreases entries.len(),
{
    if entries.len() == 0 {
        Seq::empty()
    } else {
        let rest = atom_articles(entries.drop_last(), base);
        if atom_entry_url(entries.last()).len() == 0 {
            rest
        } else {
            rest.push(atom_article(entries.last(), base))
        }
    }
}

/// Each Atom entry with a link becomes one article: after any entries read
/// before it, an entry with an `alternate` link adds exactly one article at
/// that link resolved against the base, titled as the entry; its summary is
/// the entry's summary, else its content; its content is the entry's
/// content; its date is the publication date, else the update date.
pub proof fn lemma_atom_entry_becomes_article(entries: Seq<AtomEntry>, e: AtomEntry, base: Seq<char>)
    ensures
        match first_alternate(e.0@) {
            Some(h) => h.len() > 0 ==> ({
                let out = atom_articles(entries.push(e), base);
                &&& out.drop_last() == atom_articles(entries, base)
                &&& out.last().0 == resolved(h, base)
                &&& out.last().1 == e.1@
                &&& out.last().2 == (match e.2 {
                    Some(s) => Some(s@),
                    None => e.3.deep_view(),
                })
                &&& out.last().3 == e.3.deep_view()
                &&& out.last().4 == Some(
                    match e.4 {
                        Some(p) => p,
                        None => e.5,
                    },
                )
            }),
            None => true,
        },
        e.0@.len() == 0 ==> atom_articles(entries.push(e), base) == atom_articles(entries, base),
{
    assert(entries.push(e).drop_last() =~= entries);
    assert(entries.push(e).last() == e);
}

/// What reading an Atom document gives.
pub open spec fn atom_result(bytes: Seq<u8>, final_url: Seq<char>) -> ParseResultV {
    match atom_read_result(bytes) {
        Err(e) => Err("atom parse: "@ + e@),
        Ok(feed) => Ok(atom_articles(feed.2@, atom_base(feed.1@, final_url))),
    }
}

fn find_alternate(links: &Vec<AtomLink>) -> (r: Option<String>)
    ensures
        r.deep_view() == first_alternate(links@),
{
    let mut i: usize = 0;
    assert(links@.skip(0) =~= links@);
    while i < links.len()
        invariant
            i <= links@.len(),
            first_alternate(links@) == first_alternate(links@.skip(i as int)),
        decreases links@.len() - i,
    {
        assert(links@.skip(i as int)[0] == links@[i as int]);
        if str_eq(links[i].0.as_str(), "alternate") {
            return Some(links[i].1.clone());
        }
        assert(links@.skip(i as int).drop_first() =~= links@.skip(i + 1));
        i = i + 1;
    }
    assert(links@.skip(i as int).len() == 0);
    None
}

fn atom_url(e: &AtomEntry) -> (r: String)
    ensures
        r@ == atom_entry_url(*e),
{
    match find_alternate(&e.0) {
        Some(h) => h,
        None => if e.0.len() > 0 {
            e.0[0].1.clone()
        } else {
            String::new()
        },
    }
}

/// The articles of a read Atom feed: its entries with a link, in order,
/// resolved against the feed's `alternate` link or the response's final URL
/// (see `atom_base`).
pub fn articles_of_atom(feed: &AtomFeed, final_url: &str) -> (r: Vec<ArticleInput>)
    ensures
        inputs_view(r@) == atom_articles(feed.2@, atom_base(feed.1@, final_url@)),
{
    let base = match find_alternate(&feed.1) {
        Some(h) => parsed_or_else(h, final_url),
        None => to_string(final_url),
    };
    let ghost entries = feed.2@;
    let mut out: Vec<ArticleInput> = Vec::new();
    let mut i: usize = 0;
    while i < feed.2.len()
        invariant
            entries == feed.2@,
            i <= entries.len(),
            inputs_view(out@) == atom_articles(entries.take(i as int), base@),
        decreases entries.len() - i,
    {
        let e = &feed.2[i];
        proof {
            assert(entries.take(i + 1).drop_last() =~= entries.take(i as int));
            assert(entries.take(i + 1).last() == entries[i as int]);
        }
        let url = atom_url(e);
        if !url.as_str().is_empty() {
            let summary = match &e.2 {
                Some(s) => Some(s.clone()),
                None => clone_opt(&e.3),
            };
            let published_at = match e.4 {
                Some(p) => Some(p),
                None => Some(e.5),
            };
            let a = ArticleInput {
                url: resolve_url(url.as_str(), base.as_str()),
                title: e.1.clone(),
                summary,
                content_html: clone_opt(&e.3),
                published_at,
            };
            proof {
                lemma_inputs_push(out@, a);
            }
            out.push(a);
        }
        i = i + 1;
    }
    assert(entries.take(entries.len() as int) =~= entries);
    out
}

/// Reads an Atom document into articles.
pub fn parse_atom(bytes: &[u8], final_url: &str) -> (r: Result<Vec<ArticleInput>, AppError>)
    ensures
        parse_matches(r, atom_result(bytes@, final_url@)),
{
    match atom_read(bytes) {
        Ok(f) => Ok(articles_of_atom(&f, final_url)),
        Err(e) => Err(AppError::Internal(concat("atom parse: ", e.as_str()))),
    }
}

// JSON Feed ------------------------------------------------------------------

/// A JSON Feed item's `url`, empty where absent.
pub open spec fn json_item_url(it: JsonItem) -> Seq<char> {
    or_text(it.url, Seq::empty())
}

/// The article a JSON Feed item describes: the HTML content falls back to
/// the text content; without a title it is titled from its resolved URL.
pub open spec fn json_article(it: JsonItem, base: Seq<char>) -> ArticleInputV {
    (
        resolved(json_item_url(it), base),
        title_or_url(it.title, resolved(json_item_url(it), base)),
        it.summary.deep_view(),
        match it.content_html {
            Some(h) => Some(h@),
            None => it.content_text.deep_view(),
        },
        match it.date_published {
            Some(d) => rfc3339_millis(d@),
            None => None,
        },
    )
}

/// The articles of JSON Feed items, in order, leaving out items without a
/// URL.
pub open spec fn json_articles(items: Seq<JsonItem>, base: Seq<char>) -> Seq<ArticleInputV>
    decreases items.len(),
{
    if items.len() == 0 {
        Seq::empty()
    } else {
        let rest = json_articles(items.drop_last(), base);
        if json_item_url(items.last()).len() == 0 {
            rest
        } else {
            rest.push(json_article(items.last(), base))
        }
    }
}

/// The base a JSON Feed document's URLs are resolved against: its
/// `feed_url` (else the final URL) where that parses, else the final URL.
pub open spec fn json_base(doc: JsonFeedDoc, final_url: Seq<char>) -> Seq<char> {
    parsed_or(or_text(doc.feed_url, final_url), final_url)
}

/// The items of a JSON Feed document, none where it has no `items` array.
pub open spec fn json_items(doc: JsonFeedDoc) -> Seq<JsonItem> {
    match doc.items {
        Some(v) => v@,
        None => Seq::empty(),
    }
}

/// A JSON Feed item's HTML content is its article's content. After any
/// items read before it, an item with a non-empty URL adds exactly one
/// article; where the item has `content_html`, the article's content is that
/// HTML whatever `content_text` holds, and the text content stands in only
/// where there is no HTML content. The article's summary is the item's.
pub proof fn lemma_json_content_prefers_html(items: Seq<JsonItem>, it: JsonItem, base: Seq<char>)
    requires
        it.url matches Some(u) && u@.len() > 0,
    ensures
        json_articles(items.push(it), base).len() == json_articles(items, base).len() + 1,
        json_articles(items.push(it), base).drop_last() == json_articles(items, base),
        match it.content_html {
            Some(h) => json_articles(items.push(it), base).last().3 == Some(h@),
            None => json_articles(items.push(it), base).last().3 == it.content_text.deep_view(),
        },
        json_articles(items.push(it), base).last().2 == it.summary.deep_view(),
{
    assert(items.push(it).drop_last() =~= items);
    assert(items.push(it).last() == it);
}

/// An item without a URL adds no article.
pub proof fn lemma_json_items_without_url_are_skipped(items: Seq<JsonItem>, it: JsonItem, base: Seq<char>)
    requires
        match it.url {
            Some(u) => u@.len() == 0,
            None => true,
        },
    ensures
        json_articles(items.push(it), base) == json_articles(items, base),
{
    assert(items.push(it).drop_last() =~= items);
    assert(items.push(it).last() == it);
}

/// What reading a JSON Feed document gives: the text must be UTF-8 and
/// JSON; its items are resolved against `json_base`.
pub open spec fn json_result(bytes: Seq<u8>, final_url: Seq<char>) -> ParseResultV {
    if !valid_utf8(bytes) {
        Err("utf8: "@ + utf8_error_text(bytes))
    } else {
        match json_feed_result(decode_utf8(bytes)) {
            Err(e) => Err("json parse: "@ + e@),
            Ok(doc) => Ok(json_articles(json_items(doc), json_base(doc, final_url))),
        }
    }
}

/// The articles of a read JSON Feed document: its items with a URL, in
/// order, resolved against `json_base`.
pub fn articles_of_json(doc: &JsonFeedDoc, final_url: &str) -> (r: Vec<ArticleInput>)
    ensures
        inputs_view(r@) == json_articles(json_items(*doc), json_base(*doc, final_url@)),
{
    let base = parsed_or_else(text_or(&doc.feed_url, final_url), final_url);
    let empty: Vec<JsonItem> = Vec::new();
    let items_ref: &Vec<JsonItem> = match &doc.items {
        Some(v) => v,
        None => &empty,
    };
    let ghost items = items_ref@;
    assert(items == json_items(*doc));
    let mut out: Vec<ArticleInput> = Vec::new();
    let mut i: usize = 0;
    while i < items_ref.len()
        invariant
            items == items_ref@,
            i <= items.len(),
            inputs_view(out@) == json_articles(items.take(i as int), base@),
        decreases items.len() - i,
    {
        let it = &items_ref[i];
        proof {
            assert(items.take(i + 1).drop_last() =~= items.take(i as int));
            assert(items.take(i + 1).last() == items[i as int]);
        }
        let url = match &it.url {
            Some(u) => u.clone(),
            None => String::new(),
        };
        if !url.as_str().is_empty() {
            let content_html = match &it.content_html {
                Some(h) => Some(h.clone()),
                None => clone_opt(&it.content_text),
            };
            let published_at = match &it.date_published {
                Some(d) => parse_rfc3339_millis(d.as_str()),
                None => None,
            };
            let link = resolve_url(url.as_str(), base.as_str());
            let title = title_or_from_url(&it.title, link.as_str());
            let a = ArticleInput {
                url: link,
                title,
                summary: clone_opt(&it.summary),
                content_html,
                published_at,
            };
            proof {
                lemma_inputs_push(out@, a);
            }
            out.push(a);
        }
        i = i + 1;
    }
    assert(items.take(items.len() as int) =~= items);
    out
}

/// Reads a JSON Feed document into articles.
pub fn parse_json(bytes: &[u8], final_url: &str) -> (r: Result<Vec<ArticleInput>, AppError>)
    ensures
        parse_matches(r, json_result(bytes@, final_url@)),
{
    let text = match utf8_decode(bytes) {
        Ok(t) => t,
        Err(e) => {
            return Err(AppError::Internal(concat("utf8: ", e.as_str())));
        },
    };
    match json_feed_read(text.as_str()) {
        Ok(doc) => Ok(articles_of_json(&doc, final_url)),
        Err(e) => Err(AppError::Internal(concat("json parse: ", e.as_str()))),
    }
}

// Any document ---------------------------------------------------------------

/// What reading a feed's body gives: the reader its text points to, or,
/// where the kind is unknown, RSS, then Atom, then JSON Feed, the first that
/// reads it (the last one's error otherwise).
pub open spec fn feed_result(bytes: Seq<u8>, feed_url: Seq<char>, final_url: Seq<char>) -> ParseResultV {
    match feed_type_of(utf8_lossy(bytes)) {
        FeedType::Rss => rss_result(bytes, feed_url, final_url),
        FeedType::Atom => atom_result(bytes, final_url),
        FeedType::Json => json_result(bytes, final_url),
        FeedType::Unknown => if rss_result(bytes, feed_url, final_url) is Ok {
            rss_result(bytes, feed_url, final_url)
        } else if atom_result(bytes, final_url) is Ok {
            atom_result(bytes, final_url)
        } else {
            json_result(bytes, final_url)
        },
    }
}

/// Reads a feed's body, whatever its kind (see `feed_result`).
pub fn parse_feed(bytes: &[u8], feed_url: &str, final_url: &str) -> (r: Result<Vec<ArticleInput>, AppError>)
    ensures
        parse_matches(r, feed_result(bytes@, feed_url@, final_url@)),
{
    let text = utf8_decode_lossy(bytes);
    match content_type_hint(text.as_str()) {
        FeedType::Rss => parse_rss(bytes, feed_url, final_url),
        FeedType::Atom => parse_atom(bytes, final_url),
        FeedType::Json => parse_json(bytes, final_url),
        FeedType::Unknown => {
            let r = parse_rss(bytes, feed_url, final_url);
            if r.is_ok() {
                return r;
            }
            let a = parse_atom(bytes, final_url);
            if a.is_ok() {
                return a;
            }
            parse_json(bytes, final_url)
        },
    }
}

// ---------------------------------------------------------------------------
// Fetching
// ---------------------------------------------------------------------------

/// At most this many feeds are fetched at once.
pub const MAX_CONCURRENT: usize = 4;

/// Requests to the network start at least this many milliseconds apart.
pub const POLITENESS_MS: u64 = 500;

/// The longest backoff after failures: one day, in milliseconds.
pub const DAILY_MS: i64 = 86400000;

/// A feed that is due to be fetched, with the validators of its last fetch.
#[derive(Debug, Clone, PartialEq)]
pub struct FeedRow {
    pub id: i64,
    pub url: String,
    pub last_etag: Option<String>,
    pub last_modified: Option<String>,
}

/// The headers of a conditional request: `If-None-Match` with the last
/// `ETag` and `If-Modified-Since` with the last `Last-Modified`, each where
/// it is known.
pub open spec fn conditional_headers_of(etag: Option<Seq<char>>, last_modified: Option<Seq<char>>) -> Seq<
    (Seq<char>, Seq<char>),
> {
    (match etag {
        Some(e) => seq![("If-None-Match"@, e)],
        None => Seq::empty(),
    }) + (match last_modified {
        Some(l) => seq![("If-Modified-Since"@, l)],
        None => Seq::empty(),
    })
}

/// A conditional request carries each stored validator, independently of
/// the other: the stored `Last-Modified` value as `If-Modified-Since`
/// whether or not an ETag is stored, the stored ETag as `If-None-Match`
/// whether or not a `Last-Modified` value is, and no other header.
pub proof fn lemma_conditional_headers_carry_validators(
    etag: Option<Seq<char>>,
    last_modified: Option<Seq<char>>,
)
    ensures
        match last_modified {
            Some(l) => conditional_headers_of(etag, last_modified).contains(("If-Modified-Since"@, l)),
            None => true,
        },
        match etag {
            Some(e) => conditional_headers_of(etag, last_modified).contains(("If-None-Match"@, e)),
            None => true,
        },
        conditional_headers_of(etag, last_modified).len() == (if etag is Some {
            1int
        } else {
            0int
        }) + (if last_modified is Some {
            1int
        } else {
            0int
        }),
        forall|h: (Seq<char>, Seq<char>)|
            #![trigger conditional_headers_of(etag, last_modified).contains(h)]
            conditional_headers_of(etag, last_modified).contains(h) ==> (etag is Some && h == (
                "If-None-Match"@,
                etag->0,
            )) || (last_modified is Some && h == ("If-Modified-Since"@, last_modified->0)),
{
    let hs = conditional_headers_of(etag, last_modified);
    match (etag, last_modified) {
        (Some(e), Some(l)) => {
            assert(hs[0] == ("If-None-Match"@, e));
            assert(hs[1] == ("If-Modified-Since"@, l));
        },
        (Some(e), None) => {
            assert(hs[0] == ("If-None-Match"@, e));
        },
        (None, Some(l)) => {
            assert(hs[0] == ("If-Modified-Since"@, l));
        },
        (None, None) => {},
    }
}

/// The views of header pairs.
pub open spec fn headers_view(h: Seq<(String, String)>) -> Seq<(Seq<char>, Seq<char>)> {
    h.map_values(|p: (String, String)| (p.0@, p.1@))
}

/// The headers that make a fetch of `feed` conditional.
pub fn conditional_headers(feed: &FeedRow) -> (r: Vec<(String, String)>)
    ensures
        headers_view(r@) == conditional_headers_of(feed.last_etag.deep_view(), feed.last_modified.deep_view()),
{
    let mut r: Vec<(String, String)> = Vec::new();
    match &feed.last_etag {
        Some(e) => r.push((to_string("If-None-Match"), e.clone())),
        None => {},
    }
    match &feed.last_modified {
        Some(l) => r.push((to_string("If-Modified-Since"), l.clone())),
        None => {},
    }
    assert(headers_view(r@) =~= conditional_headers_of(
        feed.last_etag.deep_view(),
        feed.last_modified.deep_view(),
    ));
    r
}

/// A feed's response as the application received it.
#[derive(Debug)]
pub struct FetchedFeed {
    pub status: u16,
    /// The statuses of the redirects followed to reach the response, in
    /// order.
    pub redirects: Vec<u16>,
    /// The URL the response came from, after redirects.
    pub final_url: String,
    pub etag: Option<String>,
    pub last_modified: Option<String>,
    pub cache_control: Option<String>,
    pub expires: Option<String>,
    /// The body, or the error that reading it gave.
    pub body: Result<Vec<u8>, String>,
}

/// What a successful fetch writes to the feed's row besides the time: the
/// validators for the next conditional request, the URL the feed moved to
/// for good, and the cache headers that delay the next fetch.
#[derive(Debug)]
pub struct FetchSuccess {
    pub etag: Option<String>,
    pub last_modified: Option<String>,
    pub moved_to: Option<String>,
    pub cache_control: Option<String>,
    pub expires: Option<String>,
}

/// What a fetch comes to.
#[derive(Debug)]
pub enum FetchOutcome {
    /// `304 Not Modified`: a success with no articles.
    NotModified(FetchSuccess),
    /// A failure, with the message that is logged.
    Failed(String),
    /// The feed's articles.
    Parsed { articles: Vec<ArticleInput>, success: FetchSuccess },
}

/// Every redirect status is permanent (`301` or `308`).
pub open spec fn all_permanent(statuses: Seq<u16>) -> bool {
    forall|i: int| 0 <= i < statuses.len() ==> #[trigger] statuses[i] == 301 || statuses[i] == 308
}

/// Where the feed moved for good: the final URL, where the response was
/// reached through one or more redirects, all of them permanent.
pub open spec fn moved_to_of(f: FetchedFeed) -> Option<Seq<char>> {
    if f.redirects@.len() > 0 && all_permanent(f.redirects@) {
        Some(f.final_url@)
    } else {
        None
    }
}

/// `s` carries the validators `etag` and `last_modified`, and the new URL
/// and cache headers of the response `f`.
pub open spec fn success_ok(
    s: FetchSuccess,
    etag: Option<Seq<char>>,
    last_modified: Option<Seq<char>>,
    f: FetchedFeed,
) -> bool {
    &&& s.etag.deep_view() == etag
    &&& s.last_modified.deep_view() == last_modified
    &&& s.moved_to.deep_view() == moved_to_of(f)
    &&& s.cache_control.deep_view() == f.cache_control.deep_view()
    &&& s.expires.deep_view() == f.expires.deep_view()
}

/// `r` is a failure with the message `m`.
pub open spec fn failed_with(r: FetchOutcome, m: Seq<char>) -> bool {
    r matches FetchOutcome::Failed(msg) && msg@ == m
}

/// What a fetch of `feed` comes to: a failed request or body read, a 4xx
/// or 5xx status and a body that no reader takes are failures; `304` is a
/// success with nothing new that keeps the stored validators; otherwise the
/// articles read and the response's validators.
pub open spec fn fetch_outcome_ok(feed: FeedRow, fetched: Result<FetchedFeed, String>, r: FetchOutcome) -> bool {
    match fetched {
        Err(e) => failed_with(r, "fetch failed: "@ + e@),
        Ok(f) => response_outcome_ok(feed, f, r),
    }
}

/// What a response comes to (see `fetch_outcome_ok`).
pub open spec fn response_outcome_ok(feed: FeedRow, f: FetchedFeed, r: FetchOutcome) -> bool {
    if f.status == 304 {
        r matches FetchOutcome::NotModified(s) && success_ok(
            s,
            feed.last_etag.deep_view(),
            feed.last_modified.deep_view(),
            f,
        )
    } else {
        match f.body {
            Err(e) => failed_with(r, "read body failed: "@ + e@),
            Ok(b) => body_outcome_ok(feed.url@, f, b@, r),
        }
    }
}

/// What a response with the body `b` comes to (see `fetch_outcome_ok`).
pub open spec fn body_outcome_ok(feed_url: Seq<char>, f: FetchedFeed, b: Seq<u8>, r: FetchOutcome) -> bool {
    if 400 <= f.status <= 599 {
        failed_with(r, "http status "@ + crate::text::dec(f.status as nat))
    } else {
        match feed_result(b, feed_url, f.final_url@) {
            Err(_) => failed_with(r, "parse failed: "@ + "internal error"@),
            Ok(v) => {
                &&& r matches FetchOutcome::Parsed { articles, success }
                &&& inputs_view(articles@) == v
                &&& success_ok(success, f.etag.deep_view(), f.last_modified.deep_view(), f)
            },
        }
    }
}

fn moved_to(f: &FetchedFeed) -> (r: Option<String>)
    ensures
        r.deep_view() == moved_to_of(*f),
{
    if f.redirects.len() == 0 {
        return None;
    }
    let mut i: usize = 0;
    while i < f.redirects.len()
        invariant
            i <= f.redirects@.len(),
            forall|j: int| 0 <= j < i ==> #[trigger] f.redirects@[j] == 301 || f.redirects@[j] == 308,
        decreases f.redirects@.len() - i,
    {
        let st = f.redirects[i];
        if st != 301 && st != 308 {
            assert(!all_permanent(f.redirects@));
            return None;
        }
        i = i + 1;
    }
    Some(f.final_url.clone())
}

/// Decides what a fetch of `feed` comes to (see `fetch_outcome_ok`).
pub fn fetch_outcome(feed: &FeedRow, fetched: Result<FetchedFeed, String>) -> (r: FetchOutcome)
    ensures
        fetch_outcome_ok(*feed, fetched, r),
{
    let f = match fetched {
        Err(e) => {
            return FetchOutcome::Failed(concat("fetch failed: ", e.as_str()));
        },
        Ok(f) => f,
    };
    if f.status == 304 {
        let moved = moved_to(&f);
        return FetchOutcome::NotModified(
            FetchSuccess {
                etag: clone_opt(&feed.last_etag),
                last_modified: clone_opt(&feed.last_modified),
                moved_to: moved,
                cache_control: f.cache_control,
                expires: f.expires,
            },
        );
    }
    let bytes = match &f.body {
        Err(e) => {
            return FetchOutcome::Failed(concat("read body failed: ", e.as_str()));
        },
        Ok(b) => b,
    };
    if 400 <= f.status && f.status <= 599 {
        let mut m = to_string("http status ");
        crate::text::push_decimal(&mut m, f.status as u64);
        return FetchOutcome::Failed(m);
    }
    match parse_feed(bytes.as_slice(), feed.url.as_str(), f.final_url.as_str()) {
        Err(e) => {
            let text = e.message();
            FetchOutcome::Failed(concat("parse failed: ", text.as_str()))
        },
        Ok(articles) => {
            let moved = moved_to(&f);
            FetchOutcome::Parsed {
                articles,
                success: FetchSuccess {
                    etag: f.etag,
                    last_modified: f.last_modified,
                    moved_to: moved,
                    cache_control: f.cache_control,
                    expires: f.expires,
                },
            }
        },
    }
}

// Redirects ------------------------------------------------------------------

/// At most this many redirects are followed for one fetch.
pub const MAX_REDIRECTS: usize = 10;

/// The statuses of a redirect.
pub open spec fn is_redirect_status(status: u16) -> bool {
    status == 301 || status == 302 || status == 303 || status == 307 || status == 308
}

/// What to do with a response while following redirects.
#[derive(Debug, PartialEq, Eq)]
pub enum RedirectStep {
    /// Request this URL next.
    Follow(String),
    /// A redirect past the limit: the fetch fails.
    TooMany,
    /// The response is the one the fetch reads.
    Arrived,
}

/// The step after a response with `status` and `Location` header
/// `location`, from `current` after `hops` redirects: a redirect status
/// with a location is followed, its location resolved against `current`,
/// while fewer than `MAX_REDIRECTS` have been; past that the fetch fails;
/// any other response is the one read.
pub open spec fn redirect_step_ok(
    status: u16,
    location: Option<Seq<char>>,
    current: Seq<char>,
    hops: usize,
    r: RedirectStep,
) -> bool {
    match location {
        Some(l) => if is_redirect_status(status) {
            if hops < MAX_REDIRECTS {
                r matches RedirectStep::Follow(u) && u@ == resolved(l, current)
            } else {
                r is TooMany
            }
        } else {
            r is Arrived
        },
        None => r is Arrived,
    }
}

/// Decides the step after a response while following redirects (see
/// `redirect_step_ok`).
pub fn redirect_step(status: u16, location: &Option<String>, current: &str, hops: usize) -> (r: RedirectStep)
    ensures
        redirect_step_ok(status, location.deep_view(), current@, hops, r),
{
    let redirect = status == 301 || status == 302 || status == 303 || status == 307 || status == 308;
    match location {
        Some(l) => if redirect {
            if hops < MAX_REDIRECTS {
                RedirectStep::Follow(resolve_url(l.as_str(), current))
            } else {
                RedirectStep::TooMany
            }
        } else {
            RedirectStep::Arrived
        },
        None => RedirectStep::Arrived,
    }
}

// ---------------------------------------------------------------------------
// Scheduling
// ---------------------------------------------------------------------------

/// `x` saturated to `u64`.
pub open spec fn sat_u64(x: int) -> int {
    if x > u64::MAX {
        u64::MAX as int
    } else {
        x
    }
}

/// Two to the power `n`.
pub open spec fn pow2(n: nat) -> int
    decreases n,
{
    if n == 0 {
        1
    } else {
        2 * pow2((n - 1) as nat)
    }
}

/// The exponent of the backoff: the failure count as a `u32`, saturated.
pub open spec fn backoff_exponent(failures: i64) -> u32 {
    if 0 <= failures <= u32::MAX {
        failures as u32
    } else {
        u32::MAX
    }
}

/// The backoff after `n` failures in a row, in milliseconds: `2^n` times
/// five minutes, at most a day.
pub open spec fn backoff_ms(n: u32) -> i64 {
    if pow2(n as nat) * 300000 < DAILY_MS {
        (pow2(n as nat) * 300000) as i64
    } else {
        DAILY_MS
    }
}

proof fn lemma_pow2_at_least(n: nat, m: nat)
    requires
        m <= n,
    ensures
        pow2(m) <= pow2(n),
        pow2(m) >= 1,
    decreases n,
{
    if n > m {
        lemma_pow2_at_least((n - 1) as nat, m);
    } else if n > 0 {
        lemma_pow2_at_least((n - 1) as nat, (n - 1) as nat);
    }
}

proof fn lemma_pow2_64()
    ensures
        pow2(64) == 0x1_0000_0000_0000_0000,
{
    reveal_with_fuel(pow2, 65);
}

fn saturating_pow2(n: u32) -> (r: u64)
    ensures
        r == sat_u64(pow2(n as nat)),
{
    let mut r: u64 = 1;
    let mut i: u32 = 0;
    while i < n && i < 64
        invariant
            i <= n,
            i <= 64,
            r == sat_u64(pow2(i as nat)),
        decreases n - i,
    {
        proof {
            lemma_pow2_at_least(i as nat, i as nat);
        }
        if r > u64::MAX / 2 {
            r = u64::MAX;
        } else {
            r = r * 2;
        }
        i = i + 1;
    }
    proof {
        if i < n {
            assert(i == 64);
            lemma_pow2_64();
            lemma_pow2_at_least(n as nat, 64);
        }
    }
    r
}

/// What the feed's row becomes after a failed fetch: one more failure, and
/// the next fetch after the backoff.
#[derive(Debug)]
pub struct FailureUpdate {
    pub consecutive_failures: i64,
    pub backoff_until: i64,
    pub next_fetch_at: i64,
}

/// The row after a failure at `now_ms` following `consecutive_failures`
/// failures in a row.
pub open spec fn failure_update_ok(consecutive_failures: i64, now_ms: i64, r: FailureUpdate) -> bool {
    let f = consecutive_failures + 1;
    &&& r.consecutive_failures == f
    &&& r.backoff_until == now_ms + backoff_ms(backoff_exponent(f as i64))
    &&& r.next_fetch_at == r.backoff_until
}

/// Records a failed fetch: the failure count goes up by one and the feed
/// waits `2^failures * 300` seconds, at most a day.
pub fn failure_update(consecutive_failures: i64, now_ms: i64) -> (r: FailureUpdate)
    requires
        consecutive_failures < i64::MAX,
        i64::MIN <= now_ms + backoff_ms(backoff_exponent((consecutive_failures + 1) as i64)) <= i64::MAX,
    ensures
        failure_update_ok(consecutive_failures, now_ms, r),
{
    let failures = consecutive_failures + 1;
    let exponent: u32 = if 0 <= failures && failures <= 4294967295 {
        failures as u32
    } else {
        u32::MAX
    };
    let p = saturating_pow2(exponent);
    proof {
        lemma_pow2_at_least(exponent as nat, 0);
    }
    let backoff: i64 = if p < 288 {
        (p * 300000) as i64
    } else {
        DAILY_MS
    };
    let until = now_ms + backoff;
    FailureUpdate { consecutive_failures: failures, backoff_until: until, next_fetch_at: until }
}

// Cache lifetime -------------------------------------------------------------

/// The longest `max-age` read, in seconds; a longer one is read as this,
/// which already reaches past the last instant an `i64` of milliseconds
/// can hold.
pub const MAX_AGE_CAP: u64 = 100000000000000000;

/// The seconds a `Cache-Control` directive gives: a directive that reads
/// `max-age=` in any case, after surrounding whitespace is trimmed,
/// followed by one or more ASCII digits.
pub open spec fn max_age_directive(d: Seq<char>) -> Option<nat> {
    let t = trim_seq(d);
    if t.len() > 8 && lower_seq(t.take(8)) == lower_seq("max-age="@) && all_digits(t.skip(8)) {
        Some(digits_value(t.skip(8)))
    } else {
        None
    }
}

/// The pieces of `s` between commas, in order (one piece where `s` has no
/// comma).
pub open spec fn comma_split(s: Seq<char>) -> Seq<Seq<char>>
    decreases s.len(),
{
    if s.len() == 0 {
        seq![Seq::empty()]
    } else {
        let r = comma_split(s.drop_last());
        if s.last() == ',' {
            r.push(Seq::empty())
        } else {
            r.update(r.len() - 1, r.last().push(s.last()))
        }
    }
}

/// The seconds the first `max-age` directive among `ds` gives.
pub open spec fn first_max_age(ds: Seq<Seq<char>>) -> Option<nat>
    decreases ds.len(),
{
    if ds.len() == 0 {
        None
    } else {
        match first_max_age(ds.drop_last()) {
            Some(v) => Some(v),
            None => max_age_directive(ds.last()),
        }
    }
}

/// The `max-age` of a `Cache-Control` header value: that of its first
/// directive that is one.
pub open spec fn max_age_of(cache_control: Seq<char>) -> Option<nat> {
    first_max_age(comma_split(cache_control))
}

/// A number of seconds capped at `MAX_AGE_CAP`.
pub open spec fn capped(o: Option<nat>) -> Option<u64> {
    match o {
        Some(n) => Some(if n > MAX_AGE_CAP { MAX_AGE_CAP } else { n as u64 }),
        None => None,
    }
}

/// `x` saturated to the range of `i64`.
pub open spec fn sat_i64(x: int) -> i64 {
    if x > i64::MAX {
        i64::MAX
    } else if x < i64::MIN {
        i64::MIN
    } else {
        x as i64
    }
}

/// Until when a response may be served from cache, read at `now_ms` from
/// its `Cache-Control` and `Expires` headers: `max-age` seconds after now
/// (saturated) where `Cache-Control` has one, else the `Expires` date where
/// it parses as RFC 2822, else nothing.
pub open spec fn cache_until_of(cache_control: Option<Seq<char>>, expires: Option<Seq<char>>, now_ms: i64) -> Option<i64> {
    match (match cache_control {
        Some(c) => max_age_of(c),
        None => None,
    }) {
        Some(secs) => Some(sat_i64(now_ms + secs * 1000)),
        None => match expires {
            Some(e) => rfc2822_millis(e),
            None => None,
        },
    }
}

proof fn lemma_digits_push(s: Seq<char>, c: char)
    ensures
        digits_value(s.push(c)) == digits_value(s) * 10 + ((c as nat) - 48) as nat,
{
    assert(s.push(c).drop_last() =~= s);
}

/// The capped seconds a directive gives (see `max_age_directive`).
fn directive_max_age(d: &Vec<char>) -> (r: Option<u64>)
    ensures
        r == capped(max_age_directive(d@)),
{
    let trimmed = trim(string_of(d.as_slice()).as_str());
    let t = chars_of(trimmed.as_str());
    let key = chars_of("max-age=");
    proof {
        reveal_strlit("max-age=");
    }
    assert(t@ == trim_seq(d@));
    if t.len() <= 8 {
        return None;
    }
    let mut i: usize = 0;
    while i < 8
        invariant
            t@ == trim_seq(d@),
            i <= 8 < t@.len(),
            key@ == "max-age="@,
            key@.len() == 8,
            forall|j: int| 0 <= j < i ==> ascii_lower(t@[j]) == ascii_lower(key@[j]),
        decreases 8 - i,
    {
        if char_to_ascii_lowercase(t[i]) != char_to_ascii_lowercase(key[i]) {
            assert(lower_seq(t@.take(8))[i as int] != lower_seq(key@)[i as int]);
            assert(lower_seq(t@.take(8)) != lower_seq("max-age="@));
            return None;
        }
        i = i + 1;
    }
    assert(lower_seq(t@.take(8)) =~= lower_seq(key@));
    let ghost rest = t@.skip(8);
    let mut acc: u64 = 0;
    let mut j: usize = 8;
    assert(rest.take(0) =~= Seq::<char>::empty());
    while j < t.len()
        invariant
            t@ == trim_seq(d@),
            lower_seq(t@.take(8)) == lower_seq("max-age="@),
            8 <= j <= t@.len(),
            rest == t@.skip(8),
            all_digits(rest.take(j - 8)),
            acc as nat == (if digits_value(rest.take(j - 8)) > MAX_AGE_CAP {
                MAX_AGE_CAP as nat
            } else {
                digits_value(rest.take(j - 8))
            }),
        decreases t@.len() - j,
    {
        let c = t[j];
        if !char_is_ascii_digit(c) {
            assert(rest[j - 8] == c);
            assert(!all_digits(rest));
            return None;
        }
        let d: u64 = ((c as u8) - 48) as u64;
        proof {
            assert(rest.take(j - 8 + 1) =~= rest.take(j - 8).push(c));
            lemma_digits_push(rest.take(j - 8), c);
        }
        if acc >= MAX_AGE_CAP {
            acc = MAX_AGE_CAP;
        } else {
            let next = acc * 10 + d;
            acc = if next > MAX_AGE_CAP {
                MAX_AGE_CAP
            } else {
                next
            };
        }
        j = j + 1;
        proof {
            assert forall|k: int| 0 <= k < rest.take(j - 8).len() implies is_digit_ascii(
                #[trigger] rest.take(j - 8)[k],
            ) by {
                if k < j - 9 {
                    assert(rest.take(j - 8)[k] == rest.take(j - 9)[k]);
                }
            }
        }
    }
    assert(rest.take(j - 8) =~= rest);
    Some(acc)
}

/// The capped `max-age` of a `Cache-Control` header value (see
/// `max_age_of`).
pub fn max_age_seconds(cache_control: &str) -> (r: Option<u64>)
    ensures
        r == capped(max_age_of(cache_control@)),
{
    let v = chars_of(cache_control);
    let mut cur: Vec<char> = Vec::new();
    let ghost mut done: Seq<Seq<char>> = Seq::empty();
    let mut found: Option<u64> = None;
    let mut i: usize = 0;
    assert(v@.take(0) =~= Seq::<char>::empty());
    assert(comma_split(Seq::<char>::empty()) =~= done.push(cur@));
    while i < v.len()
        invariant
            v@ == cache_control@,
            i <= v@.len(),
            comma_split(v@.take(i as int)) == done.push(cur@),
            found == capped(first_max_age(done)),
        decreases v@.len() - i,
    {
        let c = v[i];
        let ghost before = v@.take(i as int);
        assert(v@.take(i + 1).drop_last() =~= before);
        assert(v@.take(i + 1).last() == c);
        if c == ',' {
            if found.is_none() {
                found = directive_max_age(&cur);
            }
            assert(done.push(cur@).drop_last() =~= done);
            proof {
                done = done.push(cur@);
            }
            cur = Vec::new();
            assert(comma_split(v@.take(i + 1)) =~= done.push(cur@));
        } else {
            cur.push(c);
            assert(comma_split(v@.take(i + 1)) =~= done.push(cur@));
        }
        i = i + 1;
    }
    assert(v@.take(v@.len() as int) =~= v@);
    assert(done.push(cur@).drop_last() =~= done);
    match found {
        Some(n) => Some(n),
        None => directive_max_age(&cur),
    }
}

/// Until when a response may be served from cache (see `cache_until_of`).
pub fn cache_until(cache_control: &Option<String>, expires: &Option<String>, now_ms: i64) -> (r: Option<i64>)
    ensures
        r == cache_until_of(cache_control.deep_view(), expires.deep_view(), now_ms),
{
    let secs = match cache_control {
        Some(c) => max_age_seconds(c.as_str()),
        None => None,
    };
    match secs {
        Some(n) => {
            let x: i128 = now_ms as i128 + (n as i128) * 1000;
            let r: i64 = if x > i64::MAX as i128 {
                i64::MAX
            } else {
                x as i64
            };
            Some(r)
        },
        None => match expires {
            Some(e) => parse_rfc2822_millis(e.as_str()),
            None => None,
        },
    }
}

/// The next fetch after a success at `now_ms`: one fetch interval later,
/// and not before the response's cache lifetime ends.
pub open spec fn next_fetch_of(interval_minutes: i64, now_ms: i64, cache_until: Option<i64>) -> int {
    let base = now_ms + interval_minutes * 60000;
    match cache_until {
        Some(u) => if u > base {
            u as int
        } else {
            base
        },
        None => base,
    }
}

/// The next fetch after a success (see `next_fetch_of`).
pub fn next_fetch_after_success(interval_minutes: i64, now_ms: i64, cache_until: Option<i64>) -> (r: i64)
    requires
        i64::MIN <= now_ms + interval_minutes * 60000 <= i64::MAX,
        i64::MIN <= interval_minutes * 60000 <= i64::MAX,
    ensures
        r == next_fetch_of(interval_minutes, now_ms, cache_until),
        r >= now_ms + interval_minutes * 60000,
{
    let interval_ms = interval_minutes * 60 * 1000;
    let base = now_ms + interval_ms;
    match cache_until {
        Some(u) => if u > base {
            u
        } else {
            base
        },
        None => base,
    }
}

/// A response's cache lifetime is honoured: after a success at `now_ms`
/// whose `Cache-Control` gives `max-age` seconds, the next fetch comes no
/// earlier than that many seconds later (where that instant fits in an
/// `i64`), and never earlier than one fetch interval later.
pub proof fn lemma_cache_lifetime_honoured(
    interval_minutes: i64,
    now_ms: i64,
    cache_control: Seq<char>,
    expires: Option<Seq<char>>,
)
    requires
        max_age_of(cache_control) is Some,
        now_ms + max_age_of(cache_control)->0 * 1000 <= i64::MAX,
    ensures
        next_fetch_of(interval_minutes, now_ms, cache_until_of(Some(cache_control), expires, now_ms))
            >= now_ms + max_age_of(cache_control)->0 * 1000,
        next_fetch_of(interval_minutes, now_ms, cache_until_of(Some(cache_control), expires, now_ms))
            >= now_ms + interval_minutes * 60000,
{
    let secs = max_age_of(cache_control)->0;
    assert(now_ms + secs * 1000 >= i64::MIN);
}

// ---------------------------------------------------------------------------
// Politeness
// ---------------------------------------------------------------------------

/// The wait before a request made at `now`, when the next request may start
/// at `last`.
pub open spec fn slot_wait(last: u64, now: u64) -> int {
    if last > now {
        last - now
    } else {
        0
    }
}

/// When the request after it may start.
pub open spec fn slot_next(last: u64, now: u64) -> int {
    now + slot_wait(last, now) + POLITENESS_MS
}

/// The wait before a request and when the one after it may start.
#[derive(Debug)]
pub struct PolitenessSlot {
    pub wait_ms: u64,
    pub next_free: u64,
}

/// Takes the next slot for a request made at `now` (milliseconds on a
/// monotonic clock) when the next request may start at `last`.
pub fn politeness_slot(last: u64, now: u64) -> (r: PolitenessSlot)
    requires
        slot_next(last, now) <= u64::MAX,
    ensures
        r.wait_ms == slot_wait(last, now),
        r.next_free == slot_next(last, now),
{
    let wait = if last > now {
        last - now
    } else {
        0
    };
    PolitenessSlot { wait_ms: wait, next_free: now + wait + POLITENESS_MS }
}

/// Requests through the politeness slots start at least `POLITENESS_MS`
/// apart: a request made at any time after another has taken its slot
/// starts no earlier than `POLITENESS_MS` after the other's start.
pub proof fn lemma_politeness_spacing(last: u64, now1: u64, now2: u64)
    requires
        slot_next(last, now1) <= u64::MAX,
    ensures
        now2 + slot_wait(slot_next(last, now1) as u64, now2) >= now1 + slot_wait(last, now1) + POLITENESS_MS,
        now1 + slot_wait(last, now1) >= now1,
        now1 + slot_wait(last, now1) >= last,
{
}

/// The backoff is `2^n` times five minutes capped at a day: always
/// positive, never above a day, a full day from 9 failures on, and never
/// shorter after more failures.
pub proof fn lemma_backoff_bounded(n: u32, m: u32)
    requires
        n <= m,
    ensures
        0 < backoff_ms(n) <= DAILY_MS,
        backoff_ms(n) <= backoff_ms(m),
        n >= 9 ==> backoff_ms(n) == DAILY_MS,
        n < 9 ==> backoff_ms(n) == pow2(n as nat) * 300000,
{
    lemma_pow2_at_least(m as nat, n as nat);
    lemma_pow2_at_least(n as nat, 0);
    lemma_pow2_9();
    if n >= 9 {
        lemma_pow2_at_least(n as nat, 9);
    } else {
        lemma_pow2_at_least(8, n as nat);
        lemma_pow2_8();
    }
}

/// The backoff after a failure, in the design's own terms: after `k`
/// failures in a row (`k >= 0`), one more failure at `now_ms` gives `k + 1`
/// failures and the next fetch at `now_ms + min(2^(k+1) * 300000, one day)`.
pub proof fn lemma_failure_backoff_formula(k: i64, now_ms: i64, r: FailureUpdate)
    requires
        0 <= k < i64::MAX,
        failure_update_ok(k, now_ms, r),
    ensures
        r.consecutive_failures == k + 1,
        r.next_fetch_at == r.backoff_until,
        r.backoff_until == now_ms + (if pow2((k + 1) as nat) * 300000 < DAILY_MS {
            pow2((k + 1) as nat) * 300000
        } else {
            DAILY_MS as int
        }),
{
    let f = (k + 1) as i64;
    assert(r.backoff_until == now_ms + backoff_ms(backoff_exponent(f)));
    if f <= u32::MAX {
        assert(backoff_exponent(f) == f as u32);
        assert((f as u32) as nat == (k + 1) as nat);
        lemma_pow2_at_least((k + 1) as nat, 0);
        assert(backoff_ms(f as u32) == (if pow2((k + 1) as nat) * 300000 < DAILY_MS {
            pow2((k + 1) as nat) * 300000
        } else {
            DAILY_MS as int
        }));
    } else {
        assert(backoff_exponent(f) == u32::MAX);
        lemma_pow2_9();
        lemma_pow2_at_least(u32::MAX as nat, 9);
        lemma_pow2_at_least((k + 1) as nat, 9);
    }
}

proof fn lemma_pow2_8()
    ensures
        pow2(8) == 256,
{
    reveal_with_fuel(pow2, 9);
}

proof fn lemma_pow2_9()
    ensures
        pow2(9) == 512,
{
    reveal_with_fuel(pow2, 10);
}

// ---------------------------------------------------------------------------
// Storing articles
// ---------------------------------------------------------------------------

/// The HTML an article is cleaned from: its content, else its summary.
pub open spec fn html_of(input: ArticleInput) -> Option<Seq<char>> {
    match input.content_html {
        Some(h) => Some(h@),
        None => input.summary.deep_view(),
    }
}

/// The HTML an article is cleaned from (see `html_of`).
pub fn article_html(input: &ArticleInput) -> (r: Option<String>)
    ensures
        r.deep_view() == html_of(*input),
{
    match &input.content_html {
        Some(h) => Some(h.clone()),
        None => clone_opt(&input.summary),
    }
}

/// An article as it is stored.
#[derive(Debug)]
pub struct ArticleRecord {
    pub url: String,
    pub title: String,
    pub summary: Option<String>,
    pub raw_html: Option<String>,
    pub markdown_content: String,
    pub published_at: Option<i64>,
}

/// The record of an article given its cleaned content (`None` where it has
/// no HTML): the cleaned HTML and Markdown; without content, the article's
/// own HTML and its summary as the Markdown.
pub open spec fn record_ok(input: ArticleInput, content: Option<crate::services::cleaner::CleanedContent>, r: ArticleRecord) -> bool {
    &&& r.url@ == input.url@
    &&& r.title@ == input.title@
    &&& r.summary.deep_view() == input.summary.deep_view()
    &&& r.published_at == input.published_at
    &&& match content {
        Some(c) => r.raw_html.deep_view() == Some(c.raw_html@) && r.markdown_content@ == c.markdown@,
        None => r.raw_html.deep_view() == input.content_html.deep_view() && r.markdown_content@ == or_text(
            input.summary,
            Seq::empty(),
        ),
    }
}

/// Builds the record of an article (see `record_ok`).
pub fn article_record(input: ArticleInput, content: Option<crate::services::cleaner::CleanedContent>) -> (r: ArticleRecord)
    ensures
        record_ok(input, content, r),
{
    let (raw_html, markdown_content) = match content {
        Some(c) => (Some(c.raw_html), c.markdown),
        None => (
            clone_opt(&input.content_html),
            match &input.summary {
                Some(s) => s.clone(),
                None => String::new(),
            },
        ),
    };
    ArticleRecord {
        url: input.url,
        title: input.title,
        summary: input.summary,
        raw_html,
        markdown_content,
        published_at: input.published_at,
    }
}

} // verus!
