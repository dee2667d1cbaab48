//! Articles and article listing queries. Instants are Unix milliseconds.

use vstd::prelude::*;

use crate::text::{eq_ignore_ascii_case, lower_seq};

verus! {

/// An article as a user sees it: the article, its primary feed and the
/// user's read and star state.
#[derive(Debug, Clone, PartialEq)]
pub struct Article {
    pub id: i64,
    pub url: String,
    pub title: String,
    pub summary: Option<String>,
    pub markdown_content: String,
    pub published_at: Option<i64>,
    pub fetched_at: i64,
    pub feed_id: i64,
    pub feed_title: Option<String>,
    pub is_read: bool,
    pub is_starred: bool,
}

/// One page of a cursor-paginated article list.
#[derive(Debug, Clone, PartialEq)]
pub struct ArticlePage {
    pub items: Vec<Article>,
    pub next_cursor: Option<i64>,
    pub prev_cursor: Option<i64>,
    pub has_more: bool,
}

/// An article as a feed document describes it, before it is stored.
#[derive(Debug, Clone, PartialEq, Default)]
pub struct ArticleInput {
    pub url: String,
    pub title: String,
    pub summary: Option<String>,
    pub content_html: Option<String>,
    pub published_at: Option<i64>,
}

/// The fields of an `ArticleInput` as plain values.
pub type ArticleInputV = (Seq<char>, Seq<char>, Option<Seq<char>>, Option<Seq<char>>, Option<i64>);

impl View for ArticleInput {
    type V = ArticleInputV;

    open spec fn view(&self) -> ArticleInputV {
        (self.url@, self.title@, self.summary.deep_view(), self.content_html.deep_view(), self.published_at)
    }
}

/// The views of a sequence of article inputs.
pub open spec fn inputs_view(v: Seq<ArticleInput>) -> Seq<ArticleInputV> {
    v.map_values(|a: ArticleInput| a@)
}

/// The query parameters of an article list.
#[derive(Debug, Clone, PartialEq, Default)]
pub struct ListArticlesQuery {
    pub feed_id: Option<i64>,
    pub is_read: Option<bool>,
    pub is_starred: Option<bool>,
    /// `oldest_first` (the default) or `newest_first`.
    pub sort: Option<String>,
    pub cursor: Option<i64>,
    /// `next` (the default) or `prev`.
    pub direction: Option<String>,
    pub limit: Option<i64>,
}

/// `s` is present and equal to `word` ignoring ASCII case.
pub open spec fn opt_is_word(s: Option<String>, word: Seq<char>) -> bool {
    s matches Some(v) && lower_seq(v@) == lower_seq(word)
}

impl ListArticlesQuery {
    /// Whether the list runs from the newest article to the oldest: `sort`
    /// is `newest_first`, in any ASCII case.
    pub fn is_newest_first(&self) -> (r: bool)
        ensures
            r == opt_is_word(self.sort, "newest_first"@),
    {
        match &self.sort {
            Some(s) => eq_ignore_ascii_case(s.as_str(), "newest_first"),
            None => false,
        }
    }

    /// Whether the page is read backward from the cursor: `direction` is
    /// `prev`, in any ASCII case.
    pub fn is_backward(&self) -> (r: bool)
        ensures
            r == opt_is_word(self.direction, "prev"@),
    {
        match &self.direction {
            Some(s) => eq_ignore_ascii_case(s.as_str(), "prev"),
            None => false,
        }
    }
}

/// The filter of a bulk action: the articles of a feed, and with a read
/// and a star state, each where given.
#[derive(Debug, Clone, PartialEq, Default)]
pub struct BulkFilter {
    pub feed_id: Option<i64>,
    pub is_read: Option<bool>,
    pub is_starred: Option<bool>,
}

/// A bulk action on articles: `read`, `unread`, `star`, `unstar` or
/// `hide`, on the articles listed or on those a filter selects.
#[derive(Debug, Clone, PartialEq, Default)]
pub struct BulkArticlesRequest {
    pub action: String,
    pub article_ids: Option<Vec<i64>>,
    pub filter: Option<BulkFilter>,
}

} // verus!
