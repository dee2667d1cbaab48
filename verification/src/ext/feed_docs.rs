//! Reading feed documents: RSS through `rss`, Atom through
//! `atom_syndication`, JSON Feed through `serde_json`, and UTF-8 decoding
//! from std. Each reader hands back the fields the library reads, as plain
//! values.

use atom_syndication::{Feed as AtomDocument, Link as AtomDocumentLink};
use chrono::DateTime;
use rss::Channel as RssDocument;
use serde_json::Value as JsonValue;
use vstd::prelude::*;
use vstd::utf8::{decode_utf8, valid_utf8};

verus! {

/// An RSS `<guid>`: its text and whether it is a permalink.
pub struct RssGuid {
    pub value: String,
    pub permalink: bool,
}

/// The fields of an RSS `<item>` the library reads.
pub struct RssItem {
    pub link: Option<String>,
    pub guid: Option<RssGuid>,
    pub title: Option<String>,
    pub description: Option<String>,
    pub content: Option<String>,
    pub pub_date: Option<String>,
}

/// The fields of an RSS `<channel>` the library reads.
pub struct RssChannel {
    pub title: String,
    pub link: String,
    pub items: Vec<RssItem>,
}

/// `rss::Channel::read_from(bytes)`: the channel, or the error's text.
pub uninterp spec fn rss_read_result(bytes: Seq<u8>) -> Result<RssChannel, String>;

/// `rss::Channel::read_from` with the channel's `title`, `link` and items'
/// `link`, `guid` (`value`, `is_permalink`), `title`, `description`,
/// `content` and `pub_date` copied out.
#[verifier::external_body]
pub(crate) fn rss_read(bytes: &[u8]) -> (r: Result<RssChannel, String>)
    ensures
        r == rss_read_result(bytes@),
{
    let ch = RssDocument::read_from(bytes).map_err(|e| e.to_string())?;
    let items = ch.items().iter().map(|it| RssItem {
        link: it.link().map(String::from),
        guid: it.guid().map(|g| RssGuid { value: g.value().into(), permalink: g.is_permalink() }),
        title: it.title().map(String::from),
        description: it.description().map(String::from),
        content: it.content().map(String::from),
        pub_date: it.pub_date().map(String::from),
    }).collect();
    Ok(RssChannel { title: ch.title().into(), link: ch.link().into(), items })
}

/// An Atom `<link>`: its `rel` and its `href`.
pub type AtomLink = (String, String);

/// The fields of an Atom `<entry>` the library reads, in this order: its
/// links, its title, its summary, the text of its `<content>` (where the
/// element is present and has text), and its publication and update dates
/// as Unix milliseconds.
pub struct AtomEntry(
    pub Vec<AtomLink>,
    pub String,
    pub Option<String>,
    pub Option<String>,
    pub Option<i64>,
    pub i64,
);

/// The fields of an Atom `<feed>` the library reads: its title, its links
/// and its entries.
pub struct AtomFeed(pub String, pub Vec<AtomLink>, pub Vec<AtomEntry>);

/// `atom_syndication::Feed::read_from(bytes)`: the feed, or the error's text.
pub uninterp spec fn atom_read_result(bytes: Seq<u8>) -> Result<AtomFeed, String>;

/// `atom_syndication::Feed::read_from` with the feed's title and links and
/// each entry's links, title, summary, content value and dates copied out.
#[verifier::external_body]
pub(crate) fn atom_read(bytes: &[u8]) -> (r: Result<AtomFeed, String>)
    ensures
        r == atom_read_result(bytes@),
{
    let f = AtomDocument::read_from(bytes).map_err(|e| e.to_string())?;
    let ls = |v: &[AtomDocumentLink]| v.iter().map(|l| (l.rel.clone(), l.href.clone())).collect();
    Ok(AtomFeed(f.title().to_string(), ls(f.links()), f.entries().iter().map(|e| AtomEntry(
        ls(e.links()),
        e.title().to_string(),
        e.summary().map(|t| t.to_string()),
        e.content().and_then(|c| c.value.clone()),
        e.published().map(DateTime::timestamp_millis),
        e.updated().timestamp_millis(),
    )).collect()))
}

/// The string-valued members of a JSON Feed item the library reads; a
/// member that is absent or not a string is `None`.
pub struct JsonItem {
    pub url: Option<String>,
    pub title: Option<String>,
    pub summary: Option<String>,
    pub content_html: Option<String>,
    pub content_text: Option<String>,
    pub date_published: Option<String>,
}

/// The members of a JSON Feed document the library reads. `items` is `None`
/// where the member is absent or not an array.
pub struct JsonFeedDoc {
    pub title: Option<String>,
    pub feed_url: Option<String>,
    pub items: Option<Vec<JsonItem>>,
}

/// `serde_json::from_str::<Value>(text)`: the members read, or the error's
/// text.
pub uninterp spec fn json_feed_result(text: Seq<char>) -> Result<JsonFeedDoc, String>;

/// `serde_json::from_str::<serde_json::Value>`, then `get` and `as_str` /
/// `as_array` on the members `title`, `feed_url`, `items` and, per item,
/// `url`, `title`, `summary`, `content_html`, `content_text`,
/// `date_published`.
#[verifier::external_body]
pub(crate) fn json_feed_read(text: &str) -> (r: Result<JsonFeedDoc, String>)
    ensures
        r == json_feed_result(text@),
{
    let v: JsonValue = serde_json::from_str(text).map_err(|e| e.to_string())?;
    let s = |v: &JsonValue, k: &str| v.get(k).and_then(|x| x.as_str()).map(String::from);
    let items = v.get("items").and_then(|x| x.as_array()).map(|a| a.iter().map(|i| JsonItem {
        url: s(i, "url"), title: s(i, "title"), summary: s(i, "summary"),
        content_html: s(i, "content_html"), content_text: s(i, "content_text"),
        date_published: s(i, "date_published"),
    }).collect());
    Ok(JsonFeedDoc { title: s(&v, "title"), feed_url: s(&v, "feed_url"), items })
}

/// The text of the `Utf8Error` that `std::str::from_utf8` reports.
pub uninterp spec fn utf8_error_text(bytes: Seq<u8>) -> Seq<char>;

/// `std::str::from_utf8`. Its documentation: `Ok` exactly for valid UTF-8,
/// with the decoded text; the error's message is named.
#[verifier::external_body]
pub(crate) fn utf8_decode(bytes: &[u8]) -> (r: Result<String, String>)
    ensures
        match r {
            Ok(s) => valid_utf8(bytes@) && s@ == decode_utf8(bytes@),
            Err(e) => !valid_utf8(bytes@) && e@ == utf8_error_text(bytes@),
        },
{
    std::str::from_utf8(bytes).map(String::from).map_err(|e| e.to_string())
}

/// What `String::from_utf8_lossy` gives: the bytes decoded with each
/// invalid sequence replaced by U+FFFD.
pub uninterp spec fn utf8_lossy(bytes: Seq<u8>) -> Seq<char>;

/// `String::from_utf8_lossy`. On valid UTF-8 it decodes without
/// replacement, which the contract states.
#[verifier::external_body]
pub(crate) fn utf8_decode_lossy(bytes: &[u8]) -> (r: String)
    ensures
        r@ == utf8_lossy(bytes@),
        valid_utf8(bytes@) ==> r@ == decode_utf8(bytes@),
{
    String::from_utf8_lossy(bytes).to_string()
}

} // verus!
