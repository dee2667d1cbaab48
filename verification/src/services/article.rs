//! Listing articles with keyset pagination, and search limits.
//!
//! A list page is produced in three steps. `plan_list` turns the query into
//! the parameters of the database query (which fetches one row more than the
//! page size, in query order). `draft_page` trims and orders the fetched rows
//! and says which edge of the page needs an existence check. `finish_page`
//! sets the cursors from that check.

use vstd::prelude::*;

use crate::errors::AppError;
use crate::models::article::{
    opt_is_word, Article, ArticlePage, BulkArticlesRequest, BulkFilter, ListArticlesQuery,
};
use crate::text::{str_eq, to_string};

verus! {

/// `n` clamped to `lo..=hi`.
pub open spec fn clamp(n: int, lo: int, hi: int) -> int {
    if n < lo {
        lo
    } else if n > hi {
        hi
    } else {
        n
    }
}

pub fn clamp_i64(n: i64, lo: i64, hi: i64) -> (r: i64)
    requires
        lo <= hi,
    ensures
        r == clamp(n as int, lo as int, hi as int),
{
    if n < lo {
        lo
    } else if n > hi {
        hi
    } else {
        n
    }
}

/// A read or star filter as the database stores flags: 1, 0 or no filter.
pub open spec fn flag_filter(f: Option<bool>) -> Option<i32> {
    match f {
        Some(true) => Some(1i32),
        Some(false) => Some(0i32),
        None => None,
    }
}

fn to_flag_filter(f: Option<bool>) -> (r: Option<i32>)
    ensures
        r == flag_filter(f),
{
    match f {
        Some(true) => Some(1),
        Some(false) => Some(0),
        None => None,
    }
}

/// The parameters of the list query.
#[derive(Debug, Clone, PartialEq)]
pub struct ListPlan {
    /// Display order runs from newest to oldest.
    pub newest_first: bool,
    /// The page is read backward from the cursor.
    pub backward: bool,
    /// The query orders descending: display order, flipped when reading
    /// backward.
    pub descending: bool,
    /// Page size, 1..=100 (default 20).
    pub limit: i64,
    /// Rows the query fetches: one more than the page size.
    pub fetch: i64,
    pub cursor: Option<i64>,
    pub feed_id: Option<i64>,
    pub is_read_filter: Option<i32>,
    pub is_starred_filter: Option<i32>,
}

/// The page size a query asks for: its `limit` (20 when absent) clamped to
/// 1..=100.
pub open spec fn page_limit(limit: Option<i64>) -> int {
    clamp(
        match limit {
            Some(l) => l as int,
            None => 20,
        },
        1,
        100,
    )
}

/// The query parameters for an article list.
pub fn plan_list(query: &ListArticlesQuery) -> (p: ListPlan)
    ensures
        p.newest_first == opt_is_word(query.sort, "newest_first"@),
        p.backward == opt_is_word(query.direction, "prev"@),
        p.descending == (p.newest_first != p.backward),
        p.limit == page_limit(query.limit),
        p.fetch == p.limit + 1,
        p.cursor == query.cursor,
        p.feed_id == query.feed_id,
        p.is_read_filter == flag_filter(query.is_read),
        p.is_starred_filter == flag_filter(query.is_starred),
{
    let newest_first = query.is_newest_first();
    let backward = query.is_backward();
    let requested: i64 = match query.limit {
        Some(l) => l,
        None => 20,
    };
    let limit = clamp_i64(requested, 1, 100);
    ListPlan {
        newest_first,
        backward,
        descending: newest_first != backward,
        limit,
        fetch: limit + 1,
        cursor: query.cursor,
        feed_id: query.feed_id,
        is_read_filter: to_flag_filter(query.is_read),
        is_starred_filter: to_flag_filter(query.is_starred),
    }
}

/// `s` in reverse order.
pub open spec fn reversed<T>(s: Seq<T>) -> Seq<T> {
    Seq::new(s.len(), |i: int| s[s.len() - 1 - i])
}

/// The rows of a page in display order: the fetched rows without the
/// over-fetched one, reversed when reading backward.
pub open spec fn page_rows(rows: Seq<Article>, limit: int, backward: bool) -> Seq<Article> {
    let kept = if rows.len() > limit {
        rows.drop_last()
    } else {
        rows
    };
    if backward {
        reversed(kept)
    } else {
        kept
    }
}

/// An existence check on the far side of a page edge: is there a matching
/// row beyond `edge_id`, below it in sort order when `less_than`.
#[derive(Debug, Clone, Copy, PartialEq)]
pub struct EdgeCheck {
    pub edge_id: i64,
    pub less_than: bool,
}

/// A page before its cursors are set.
#[derive(Debug, Clone, PartialEq)]
pub struct PageDraft {
    /// The page's articles in display order.
    pub items: Vec<Article>,
    /// The query found more rows than the page holds.
    pub more_in_query_direction: bool,
    /// The check that decides the cursor on the other side, where one is
    /// needed.
    pub edge_check: Option<EdgeCheck>,
}

/// The check a page needs: reading backward from a cursor, whether rows lie
/// beyond the last item in display order; reading forward from a cursor,
/// whether rows lie before the first. None without a cursor or items.
pub open spec fn edge_check_for(items: Seq<Article>, plan: ListPlan) -> Option<EdgeCheck> {
    if items.len() == 0 || plan.cursor is None {
        None
    } else if plan.backward {
        Some(EdgeCheck { edge_id: items.last().id, less_than: plan.newest_first })
    } else {
        Some(EdgeCheck { edge_id: items[0].id, less_than: !plan.newest_first })
    }
}

/// Trims and orders the fetched rows and names the edge check the page
/// needs.
pub fn draft_page(plan: &ListPlan, rows: Vec<Article>) -> (d: PageDraft)
    requires
        1 <= plan.limit <= 100,
    ensures
        d.items@ == page_rows(rows@, plan.limit as int, plan.backward),
        d.more_in_query_direction == (rows@.len() > plan.limit),
        d.edge_check == edge_check_for(d.items@, *plan),
{
    let mut rows = rows;
    let ghost fetched = rows@;
    let more = rows.len() > plan.limit as usize;
    if more {
        rows.pop();
    }
    let ghost kept = rows@;
    assert(kept =~= (if fetched.len() > plan.limit {
        fetched.drop_last()
    } else {
        fetched
    }));
    let items = if plan.backward {
        let mut out: Vec<Article> = Vec::new();
        while rows.len() > 0
            invariant
                kept.len() == rows@.len() + out@.len(),
                rows@ == kept.take(rows@.len() as int),
                forall|i: int| 0 <= i < out@.len() ==> #[trigger] out@[i] == kept[kept.len() - 1 - i],
            decreases rows@.len(),
        {
            let a = rows.pop().unwrap();
            proof {
                assert(a == kept[rows@.len() as int]);
            }
            out.push(a);
            assert(rows@ =~= kept.take(rows@.len() as int));
        }
        assert(out@ =~= reversed(kept));
        out
    } else {
        rows
    };
    let edge_check = if items.len() == 0 || plan.cursor.is_none() {
        None
    } else if plan.backward {
        Some(EdgeCheck { edge_id: items[items.len() - 1].id, less_than: plan.newest_first })
    } else {
        Some(EdgeCheck { edge_id: items[0].id, less_than: !plan.newest_first })
    };
    PageDraft { items, more_in_query_direction: more, edge_check }
}

/// The cursors of a finished page. Reading forward, `next` is the last item
/// where the query found more rows, and `prev` the first item where a cursor
/// was given and rows lie before it. Reading backward the roles swap: `prev`
/// is the first item where the query found more rows, `next` the last item
/// where rows lie beyond it. An empty page has no cursors.
pub open spec fn page_cursors(items: Seq<Article>, more: bool, plan: ListPlan, edge_found: bool) -> (
    Option<i64>,
    Option<i64>,
) {
    if items.len() == 0 {
        (None, None)
    } else if plan.backward {
        let next = if plan.cursor is Some && edge_found {
            Some(items.last().id)
        } else {
            None
        };
        let prev = if more {
            Some(items[0].id)
        } else {
            None
        };
        (next, prev)
    } else {
        let next = if more {
            Some(items.last().id)
        } else {
            None
        };
        let prev = if plan.cursor is Some && edge_found {
            Some(items[0].id)
        } else {
            None
        };
        (next, prev)
    }
}

/// Sets the cursors of a drafted page; `edge_found` is the answer of its
/// edge check (ignored where it needs none).
pub fn finish_page(plan: &ListPlan, draft: PageDraft, edge_found: bool) -> (p: ArticlePage)
    ensures
        p.items@ == draft.items@,
        (p.next_cursor, p.prev_cursor) == page_cursors(
            draft.items@,
            draft.more_in_query_direction,
            *plan,
            edge_found,
        ),
        p.has_more == (p.next_cursor is Some),
{
    let n = draft.items.len();
    let (next_cursor, prev_cursor) = if n == 0 {
        (None, None)
    } else {
        let first = draft.items[0].id;
        let last = draft.items[n - 1].id;
        if plan.backward {
            let next = if plan.cursor.is_some() && edge_found {
                Some(last)
            } else {
                None
            };
            let prev = if draft.more_in_query_direction {
                Some(first)
            } else {
                None
            };
            (next, prev)
        } else {
            let next = if draft.more_in_query_direction {
                Some(last)
            } else {
                None
            };
            let prev = if plan.cursor.is_some() && edge_found {
                Some(first)
            } else {
                None
            };
            (next, prev)
        }
    };
    ArticlePage { items: draft.items, has_more: next_cursor.is_some(), next_cursor, prev_cursor }
}

/// The shape of every article page: a query that fetched at most one row
/// more than the limit shows at most the limit; the next cursor is the id
/// of the last article shown and the previous cursor that of the first; an
/// empty page has neither; reading forward, a next cursor is given exactly
/// when the query found more rows, and reading backward a previous cursor
/// is.
pub proof fn lemma_page_shape(rows: Seq<Article>, plan: ListPlan, edge_found: bool)
    requires
        1 <= plan.limit <= 100,
    ensures
        rows.len() <= plan.limit + 1 ==> page_rows(rows, plan.limit as int, plan.backward).len()
            <= plan.limit,
        page_cursors(page_rows(rows, plan.limit as int, plan.backward), rows.len() > plan.limit, plan, edge_found).0 matches Some(id)
            ==> id == page_rows(rows, plan.limit as int, plan.backward).last().id,
        page_cursors(page_rows(rows, plan.limit as int, plan.backward), rows.len() > plan.limit, plan, edge_found).1 matches Some(id)
            ==> id == page_rows(rows, plan.limit as int, plan.backward)[0].id,
        page_rows(rows, plan.limit as int, plan.backward).len() == 0 ==> page_cursors(
            page_rows(rows, plan.limit as int, plan.backward),
            rows.len() > plan.limit,
            plan,
            edge_found,
        ) == (None::<i64>, None::<i64>),
        !plan.backward ==> (page_cursors(page_rows(rows, plan.limit as int, plan.backward), rows.len() > plan.limit, plan, edge_found).0 is Some
            <==> rows.len() > plan.limit),
        plan.backward ==> (page_cursors(page_rows(rows, plan.limit as int, plan.backward), rows.len() > plan.limit, plan, edge_found).1 is Some
            <==> rows.len() > plan.limit),
{
}

/// The first `n` elements of `s` (all of them where it has fewer).
pub open spec fn first_n<T>(s: Seq<T>, n: int) -> Seq<T> {
    if n < s.len() {
        s.take(n)
    } else {
        s
    }
}

/// The rows the list query fetches from the matching articles `all`, in
/// display order, for a page of `limit` articles: reading forward, up to
/// `limit + 1` of those after the cursor at position `k` (from the start
/// without a cursor); reading backward, up to `limit + 1` of those before
/// it, nearest first.
pub open spec fn keyset_rows(all: Seq<Article>, cursor_at: Option<int>, limit: int, backward: bool) -> Seq<
    Article,
> {
    match cursor_at {
        None => if backward {
            first_n(reversed(all), limit + 1)
        } else {
            first_n(all, limit + 1)
        },
        Some(k) => if backward {
            first_n(reversed(all.take(k)), limit + 1)
        } else {
            first_n(all.skip(k + 1), limit + 1)
        },
    }
}

/// Paging forward covers the articles without skipping or repeating any.
/// Over matching articles `all` in display order, the page read forward
/// from the cursor of the article at `start - 1` (from the start where
/// `start` is 0) shows exactly the articles from `start` up to `start +
/// limit`; it has a next cursor exactly when articles lie beyond it, and
/// that cursor is the article at `start + limit - 1`, so the next page
/// starts at `start + limit`, right after this one. A previous cursor is
/// given from the second page on (articles lie before it).
pub proof fn lemma_forward_pages_tile(all: Seq<Article>, limit: int, start: int, plan: ListPlan)
    requires
        1 <= limit,
        0 <= start <= all.len(),
        !plan.backward,
        plan.cursor == (if start == 0 {
            None
        } else {
            Some(all[start - 1].id)
        }),
    ensures
        ({
            let rows = keyset_rows(
                all,
                if start == 0 {
                    None
                } else {
                    Some(start - 1)
                },
                limit,
                false,
            );
            let p = page_rows(rows, limit, false);
            let c = page_cursors(p, rows.len() > limit, plan, start > 0);
            let end = if start + limit < all.len() {
                start + limit
            } else {
                all.len() as int
            };
            &&& p == all.subrange(start, end)
            &&& (c.0 is Some <==> start + limit < all.len())
            &&& (start + limit < all.len() ==> c.0 == Some(all[start + limit - 1].id))
            &&& (p.len() > 0 ==> (c.1 is Some <==> start > 0))
        }),
{
    let rest = all.skip(start);
    let rows = keyset_rows(
        all,
        if start == 0 {
            None
        } else {
            Some(start - 1)
        },
        limit,
        false,
    );
    assert(rest =~= all.subrange(start, all.len() as int));
    if start == 0 {
        assert(all.skip(0) =~= all);
    }
    assert(rows == first_n(rest, limit + 1));
    if start + limit < all.len() {
        assert(rows.drop_last() =~= all.subrange(start, start + limit));
        assert(rows.drop_last().last() == all[start + limit - 1]);
    } else {
        assert(rows =~= all.subrange(start, all.len() as int));
    }
}

/// Paging back from the second page rebuilds the first. Over matching
/// articles `all` (in display order) that fill more than one page of
/// `limit`: the first page shows the first `limit` articles and its next
/// cursor is the last of them; the second page, read forward from that
/// cursor, has the first article after it as its previous cursor (rows lie
/// before it); reading backward from that cursor (rows lie beyond the
/// page's last article) gives the first page again, with the same cursors.
pub proof fn lemma_paging_back_rebuilds_first_page(
    all: Seq<Article>,
    limit: int,
    plan1: ListPlan,
    plan2: ListPlan,
    plan3: ListPlan,
)
    requires
        1 <= limit,
        all.len() > limit,
        !plan1.backward && plan1.cursor is None,
        !plan2.backward && plan2.cursor == Some(all[limit - 1].id),
        plan3.backward && plan3.cursor == Some(all[limit].id),
    ensures
        ({
            let r1 = keyset_rows(all, None, limit, false);
            let p1 = page_rows(r1, limit, false);
            let c1 = page_cursors(p1, r1.len() > limit, plan1, false);
            let r2 = keyset_rows(all, Some(limit - 1), limit, false);
            let p2 = page_rows(r2, limit, false);
            let c2 = page_cursors(p2, r2.len() > limit, plan2, true);
            let r3 = keyset_rows(all, Some(limit), limit, true);
            let p3 = page_rows(r3, limit, true);
            let c3 = page_cursors(p3, r3.len() > limit, plan3, true);
            &&& p1 == all.take(limit)
            &&& c1 == (Some(all[limit - 1].id), None::<i64>)
            &&& p2[0] == all[limit]
            &&& c2.1 == Some(all[limit].id)
            &&& p3 == p1
            &&& c3 == c1
        }),
{
    let r1 = keyset_rows(all, None, limit, false);
    assert(r1.drop_last() =~= all.take(limit));
    let r2 = keyset_rows(all, Some(limit - 1), limit, false);
    let rest = all.skip(limit);
    assert(r2 == first_n(rest, limit + 1));
    assert(rest.len() > 0 && rest[0] == all[limit]);
    assert(r2.len() > 0);
    assert(r2[0] == rest[0]);
    let p2 = page_rows(r2, limit, false);
    assert(p2[0] == all[limit]);
    let r3 = keyset_rows(all, Some(limit), limit, true);
    assert(r3 =~= reversed(all.take(limit)));
    assert(reversed(reversed(all.take(limit))) =~= all.take(limit));
    let p3 = page_rows(r3, limit, true);
    assert(p3 =~= all.take(limit));
    assert(p3.last() == all[limit - 1]);
}

// ---------------------------------------------------------------------------
// Bulk actions
// ---------------------------------------------------------------------------

/// What a bulk action does to each article it reaches.
#[derive(Debug, Clone, Copy, PartialEq, Eq, Structural)]
pub enum BulkAction {
    Read,
    Unread,
    Star,
    Unstar,
    /// Leave the article out of the user's lists.
    Hide,
}

/// The action a name stands for.
pub open spec fn bulk_action_of(name: Seq<char>) -> Option<BulkAction> {
    if name == "read"@ {
        Some(BulkAction::Read)
    } else if name == "unread"@ {
        Some(BulkAction::Unread)
    } else if name == "star"@ {
        Some(BulkAction::Star)
    } else if name == "unstar"@ {
        Some(BulkAction::Unstar)
    } else if name == "hide"@ {
        Some(BulkAction::Hide)
    } else {
        None
    }
}

/// The articles a bulk action reaches.
#[derive(Debug, Clone, PartialEq)]
pub enum BulkTarget {
    /// These articles, each of which must be one the user subscribes to.
    Ids(Vec<i64>),
    /// The user's articles that the filter selects.
    Filter(BulkFilter),
}

/// An accepted bulk action.
#[derive(Debug, Clone, PartialEq)]
pub struct BulkPlan {
    pub action: BulkAction,
    pub target: BulkTarget,
}

/// Decides a bulk request: an action that is none of `read`, `unread`,
/// `star`, `unstar` and `hide` is a bad request, as is a request that gives
/// both or neither of `article_ids` and `filter`; otherwise the action on
/// the one given.
pub fn plan_bulk(req: BulkArticlesRequest) -> (r: Result<BulkPlan, AppError>)
    ensures
        match (bulk_action_of(req.action@), req.article_ids, req.filter) {
            (None, _, _) => r matches Err(AppError::BadRequest(m)) && m@ == "unknown bulk action"@,
            (Some(a), Some(ids), None) => r == Ok::<BulkPlan, AppError>(
                BulkPlan { action: a, target: BulkTarget::Ids(ids) },
            ),
            (Some(a), None, Some(f)) => r == Ok::<BulkPlan, AppError>(
                BulkPlan { action: a, target: BulkTarget::Filter(f) },
            ),
            _ => r matches Err(AppError::BadRequest(m)) && m@
                == "provide exactly one of article_ids or filter"@,
        },
{
    let name = req.action.as_str();
    let action = if str_eq(name, "read") {
        BulkAction::Read
    } else if str_eq(name, "unread") {
        BulkAction::Unread
    } else if str_eq(name, "star") {
        BulkAction::Star
    } else if str_eq(name, "unstar") {
        BulkAction::Unstar
    } else if str_eq(name, "hide") {
        BulkAction::Hide
    } else {
        return Err(AppError::BadRequest(to_string("unknown bulk action")));
    };
    match (req.article_ids, req.filter) {
        (Some(ids), None) => Ok(BulkPlan { action, target: BulkTarget::Ids(ids) }),
        (None, Some(f)) => Ok(BulkPlan { action, target: BulkTarget::Filter(f) }),
        _ => Err(AppError::BadRequest(to_string("provide exactly one of article_ids or filter"))),
    }
}

/// Search result limit: the requested one clamped to 1..=100.
pub fn search_limit(limit: i64) -> (r: i64)
    ensures
        r == clamp(limit as int, 1, 100),
{
    clamp_i64(limit, 1, 100)
}

/// A page of search results: ranked articles with no cursors.
pub fn search_page(items: Vec<Article>) -> (p: ArticlePage)
    ensures
        p.items@ == items@,
        p.next_cursor is None,
        p.prev_cursor is None,
        !p.has_more,
{
    ArticlePage { items, next_cursor: None, prev_cursor: None, has_more: false }
}

} // verus!
