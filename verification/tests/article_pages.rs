use rustrsssrv::errors::AppError;
use rustrsssrv::models::article::{Article, BulkArticlesRequest, BulkFilter, ListArticlesQuery};
use rustrsssrv::services::article::{
    clamp_i64, draft_page, finish_page, plan_bulk, plan_list, search_limit, search_page, BulkAction,
    BulkPlan, BulkTarget,
};

fn article(id: i64) -> Article {
    Article {
        id,
        url: format!("https://example.com/{}", id),
        title: format!("Post {}", id),
        summary: None,
        markdown_content: String::new(),
        published_at: Some(id * 1000),
        fetched_at: 0,
        feed_id: 1,
        feed_title: Some("Feed".into()),
        is_read: false,
        is_starred: false,
    }
}

fn ids(items: &[Article]) -> Vec<i64> {
    items.iter().map(|a| a.id).collect()
}

#[test]
fn list_plan_defaults_and_clamps() {
    let p = plan_list(&ListArticlesQuery::default());
    assert_eq!(p.limit, 20);
    assert_eq!(p.fetch, 21);
    assert!(!p.newest_first && !p.backward && !p.descending);
    assert_eq!(p.is_read_filter, None);
    let q = ListArticlesQuery {
        limit: Some(1000),
        is_read: Some(false),
        is_starred: Some(true),
        sort: Some("newest_first".into()),
        ..ListArticlesQuery::default()
    };
    let p = plan_list(&q);
    assert_eq!(p.limit, 100);
    assert_eq!(p.is_read_filter, Some(0));
    assert_eq!(p.is_starred_filter, Some(1));
    assert!(p.newest_first && p.descending);
    let back = ListArticlesQuery {
        limit: Some(0),
        sort: Some("newest_first".into()),
        direction: Some("prev".into()),
        cursor: Some(5),
        ..ListArticlesQuery::default()
    };
    let p = plan_list(&back);
    assert_eq!(p.limit, 1);
    assert!(p.backward && !p.descending);
    assert_eq!(p.cursor, Some(5));
    assert_eq!(clamp_i64(-5, 1, 100), 1);
    assert_eq!(clamp_i64(50, 1, 100), 50);
}

#[test]
fn forward_page_with_more_rows_has_next_cursor() {
    let plan = plan_list(&ListArticlesQuery { limit: Some(2), ..ListArticlesQuery::default() });
    let d = draft_page(&plan, vec![article(1), article(2), article(3)]);
    assert_eq!(ids(&d.items), vec![1, 2]);
    assert!(d.more_in_query_direction);
    assert!(d.edge_check.is_none());
    let page = finish_page(&plan, d, false);
    assert_eq!(page.next_cursor, Some(2));
    assert_eq!(page.prev_cursor, None);
    assert!(page.has_more);
}

#[test]
fn last_forward_page_from_a_cursor_checks_the_edge_before_it() {
    let plan = plan_list(&ListArticlesQuery {
        limit: Some(2),
        cursor: Some(2),
        ..ListArticlesQuery::default()
    });
    let d = draft_page(&plan, vec![article(3), article(4)]);
    let check = d.edge_check.unwrap();
    assert_eq!(check.edge_id, 3);
    assert!(check.less_than);
    let page = finish_page(&plan, d, true);
    assert_eq!(ids(&page.items), vec![3, 4]);
    assert_eq!(page.next_cursor, None);
    assert_eq!(page.prev_cursor, Some(3));
    assert!(!page.has_more);
}

#[test]
fn backward_page_is_reversed_into_display_order() {
    let plan = plan_list(&ListArticlesQuery {
        limit: Some(2),
        cursor: Some(10),
        direction: Some("prev".into()),
        ..ListArticlesQuery::default()
    });
    // Reading backward, the query returns rows nearest the cursor first.
    let d = draft_page(&plan, vec![article(9), article(8), article(7)]);
    assert_eq!(ids(&d.items), vec![8, 9]);
    let check = d.edge_check.unwrap();
    assert_eq!(check.edge_id, 9);
    assert!(!check.less_than);
    let page = finish_page(&plan, d, true);
    assert_eq!(page.prev_cursor, Some(8));
    assert_eq!(page.next_cursor, Some(9));
    assert!(page.has_more);
}

#[test]
fn empty_page_has_no_cursors() {
    let plan = plan_list(&ListArticlesQuery { cursor: Some(3), ..ListArticlesQuery::default() });
    let d = draft_page(&plan, vec![]);
    assert!(d.edge_check.is_none());
    let page = finish_page(&plan, d, true);
    assert!(page.items.is_empty());
    assert_eq!((page.next_cursor, page.prev_cursor, page.has_more), (None, None, false));
}

#[test]
fn search_pages_have_no_cursors() {
    assert_eq!(search_limit(500), 100);
    assert_eq!(search_limit(0), 1);
    assert_eq!(search_limit(50), 50);
    let p = search_page(vec![article(2), article(1)]);
    assert_eq!(ids(&p.items), vec![2, 1]);
    assert_eq!((p.next_cursor, p.prev_cursor, p.has_more), (None, None, false));
}

#[test]
fn paging_back_from_the_second_page_rebuilds_the_first() {
    // Three matching articles, two per page, oldest first.
    let all = vec![article(1), article(2), article(3)];
    let q1 = ListArticlesQuery { limit: Some(2), ..ListArticlesQuery::default() };
    let plan1 = plan_list(&q1);
    let p1 = finish_page(&plan1, draft_page(&plan1, all[..3].to_vec()), false);
    assert_eq!(ids(&p1.items), vec![1, 2]);
    assert_eq!((p1.next_cursor, p1.prev_cursor), (Some(2), None));
    let q2 = ListArticlesQuery { limit: Some(2), cursor: p1.next_cursor, ..ListArticlesQuery::default() };
    let plan2 = plan_list(&q2);
    // Rows after article 2; article 1 lies before the page.
    let p2 = finish_page(&plan2, draft_page(&plan2, all[2..].to_vec()), true);
    assert_eq!(ids(&p2.items), vec![3]);
    assert_eq!((p2.next_cursor, p2.prev_cursor), (None, Some(3)));
    let q3 = ListArticlesQuery {
        limit: Some(2),
        cursor: p2.prev_cursor,
        direction: Some("prev".into()),
        ..ListArticlesQuery::default()
    };
    let plan3 = plan_list(&q3);
    // Rows before article 3, nearest first; article 3 lies beyond the page.
    let p3 = finish_page(&plan3, draft_page(&plan3, vec![article(2), article(1)]), true);
    assert_eq!(ids(&p3.items), ids(&p1.items));
    assert_eq!((p3.next_cursor, p3.prev_cursor), (p1.next_cursor, p1.prev_cursor));
}

#[test]
fn bulk_requests_name_an_action_and_one_target() {
    let by_ids = BulkArticlesRequest { action: "read".into(), article_ids: Some(vec![1, 2]), filter: None };
    assert_eq!(
        plan_bulk(by_ids).unwrap(),
        BulkPlan { action: BulkAction::Read, target: BulkTarget::Ids(vec![1, 2]) }
    );
    let f = BulkFilter { feed_id: None, is_read: Some(false), is_starred: None };
    let by_filter = BulkArticlesRequest { action: "star".into(), article_ids: None, filter: Some(f.clone()) };
    assert_eq!(
        plan_bulk(by_filter).unwrap(),
        BulkPlan { action: BulkAction::Star, target: BulkTarget::Filter(f.clone()) }
    );
    let hide = BulkArticlesRequest { action: "hide".into(), article_ids: Some(vec![7]), filter: None };
    assert_eq!(plan_bulk(hide).unwrap().action, BulkAction::Hide);
    match plan_bulk(BulkArticlesRequest { action: "read".into(), article_ids: None, filter: None }) {
        Err(AppError::BadRequest(m)) => assert_eq!(m, "provide exactly one of article_ids or filter"),
        other => panic!("{:?}", other),
    }
    match plan_bulk(BulkArticlesRequest { action: "read".into(), article_ids: Some(vec![1]), filter: Some(f) }) {
        Err(AppError::BadRequest(m)) => assert_eq!(m, "provide exactly one of article_ids or filter"),
        other => panic!("{:?}", other),
    }
    match plan_bulk(BulkArticlesRequest { action: "delete".into(), article_ids: Some(vec![1]), filter: None }) {
        Err(AppError::BadRequest(m)) => assert_eq!(m, "unknown bulk action"),
        other => panic!("{:?}", other),
    }
    assert!(plan_bulk(BulkArticlesRequest { action: "unread".into(), article_ids: Some(vec![]), filter: None }).is_ok());
    assert!(plan_bulk(BulkArticlesRequest { action: "unstar".into(), article_ids: Some(vec![]), filter: None }).is_ok());
}

#[test]
fn forward_pages_cover_every_article_once() {
    let all: Vec<Article> = (1..=5).map(article).collect();
    let mut seen = Vec::new();
    let mut cursor = None;
    loop {
        let q = ListArticlesQuery { limit: Some(2), cursor, ..ListArticlesQuery::default() };
        let plan = plan_list(&q);
        let start = match cursor {
            None => 0,
            Some(c) => all.iter().position(|a| a.id == c).unwrap() + 1,
        };
        let rows: Vec<Article> = all[start..].iter().take(3).cloned().collect();
        let page = finish_page(&plan, draft_page(&plan, rows), start > 0);
        seen.extend(ids(&page.items));
        assert_eq!(page.prev_cursor.is_some(), start > 0);
        match page.next_cursor {
            Some(c) => cursor = Some(c),
            None => break,
        }
    }
    assert_eq!(seen, vec![1, 2, 3, 4, 5]);
}
