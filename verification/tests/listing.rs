use readdeck::events::EventQuery;
use readdeck::orders::{cancel_outcome, check_order_lines, order_list_plan};
use readdeck::pagination::{page_limit, paginate, rows_to_fetch};
use readdeck::error::AppError;

#[test]
fn page_limit_defaults_and_bounds() {
    assert_eq!(page_limit(None), 20);
    assert_eq!(page_limit(Some(0)), 1);
    assert_eq!(page_limit(Some(-7)), 1);
    assert_eq!(page_limit(Some(35)), 35);
    assert_eq!(page_limit(Some(500)), 50);
    assert_eq!(rows_to_fetch(20), 21);
}

#[test]
fn extra_row_signals_more() {
    let p = paginate(vec![1, 2, 3, 4], 3);
    assert!(p.has_more);
    assert_eq!(p.items, vec![1, 2, 3]);
    assert_eq!(p.cursor_index(), Some(2));
    let p = paginate(vec![1, 2, 3], 3);
    assert!(!p.has_more);
    assert_eq!(p.items, vec![1, 2, 3]);
    assert_eq!(p.cursor_index(), None);
    let p = paginate(Vec::<u8>::new(), 20);
    assert!(!p.has_more && p.items.is_empty() && p.cursor_index().is_none());
}

#[test]
fn only_first_order_page_is_cached() {
    let p = order_list_plan(None, false);
    assert_eq!((p.limit, p.use_cache), (20, true));
    let p = order_list_plan(Some(100), true);
    assert_eq!((p.limit, p.use_cache), (50, false));
}

#[test]
fn order_placement_and_cancellation() {
    assert_eq!(check_order_lines(2), Ok(()));
    assert_eq!(
        check_order_lines(0),
        Err(AppError::ValidationError("No cart items found for this bookstore".to_string()))
    );
    assert_eq!(cancel_outcome(1), Ok(()));
    assert_eq!(
        cancel_outcome(0),
        Err(AppError::ValidationError("Order not found or cannot be cancelled".to_string()))
    );
}

#[test]
fn event_cache_key_and_window() {
    let q = EventQuery { upcoming: Some(true), free: None, limit: Some(-5), offset: None };
    assert_eq!(q.cache_key(), "events:upcoming=Some(true):free=None:limit=Some(-5):offset=None");
    assert_eq!(q.window(), (-5, 0));
    let q = EventQuery { upcoming: None, free: Some(false), limit: Some(500), offset: Some(40) };
    assert_eq!(q.cache_key(), "events:upcoming=None:free=Some(false):limit=Some(500):offset=Some(40)");
    assert_eq!(q.window(), (100, 40));
    let q = EventQuery { upcoming: None, free: None, limit: None, offset: None };
    assert_eq!(q.cache_key(), "events:upcoming=None:free=None:limit=None:offset=None");
    assert_eq!(q.window(), (20, 0));
}

#[test]
fn event_cache_key_matches_debug_formatting() {
    for (u, f, l, o) in [(Some(false), Some(true), Some(0i64), Some(i64::MIN)), (None, None, Some(99), Some(7))] {
        let q = EventQuery { upcoming: u, free: f, limit: l, offset: o };
        assert_eq!(
            q.cache_key(),
            format!("events:upcoming={:?}:free={:?}:limit={:?}:offset={:?}", u, f, l, o)
        );
    }
}

#[test]
fn distinct_event_queries_have_distinct_cache_keys() {
    let queries = [
        EventQuery { upcoming: Some(true), free: None, limit: None, offset: None },
        EventQuery { upcoming: None, free: Some(true), limit: None, offset: None },
        EventQuery { upcoming: None, free: None, limit: Some(1), offset: Some(11) },
        EventQuery { upcoming: None, free: None, limit: Some(11), offset: Some(1) },
        EventQuery { upcoming: None, free: None, limit: Some(-1), offset: None },
        EventQuery { upcoming: None, free: None, limit: Some(1), offset: None },
    ];
    for (i, a) in queries.iter().enumerate() {
        for (j, b) in queries.iter().enumerate() {
            assert_eq!(i == j, a.cache_key() == b.cache_key());
        }
    }
}

#[test]
fn following_cursors_lists_every_order_once() {
    let placed_at: Vec<i64> = vec![90, 75, 60, 42, 41, 30, 12];
    for limit in 1..=8i64 {
        let mut listed: Vec<i64> = Vec::new();
        let mut cursor: Option<i64> = None;
        let mut pages = 0;
        loop {
            let rows: Vec<i64> = placed_at
                .iter()
                .copied()
                .filter(|t| cursor.map_or(true, |c| *t < c))
                .take(rows_to_fetch(limit) as usize)
                .collect();
            let page = paginate(rows, limit);
            cursor = page.cursor_index().map(|i| page.items[i]);
            listed.extend(page.items.iter().copied());
            pages += 1;
            if !page.has_more {
                assert!(cursor.is_none());
                break;
            }
            assert!(cursor.is_some());
        }
        assert_eq!(listed, placed_at, "limit {}", limit);
        assert_eq!(pages, (placed_at.len() as i64 + limit - 1) / limit);
    }
}
