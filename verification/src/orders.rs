//! Order rules: listing and caching of a user's orders, placing an order
//! from cart items, and cancelling it.

use vstd::prelude::*;
use crate::error::{AppError, AppErrorView};
use crate::pagination::{page_limit, page_limit_of};

verus! {

/// How a request for a user's orders is served.
pub struct OrderListPlan {
    /// Page size, within `[1, 50]`.
    pub limit: i64,
    /// Whether the answer is read from, and written to, the cache of first
    /// pages (kept per user, page size and status filter): only the first
    /// page (no cursor) is cached.
    pub use_cache: bool,
}

/// Plans an order listing from its `limit` and whether a cursor was sent.
pub fn order_list_plan(limit: Option<i64>, has_cursor: bool) -> (p: OrderListPlan)
    ensures
        p.limit == page_limit_of(limit),
        1 <= p.limit <= 50,
        p.use_cache == !has_cursor,
{
    OrderListPlan { limit: page_limit(limit), use_cache: !has_cursor }
}

/// An order needs at least one cart item from the chosen bookstore.
pub fn check_order_lines(line_count: usize) -> (r: Result<(), AppError>)
    ensures
        r is Ok <==> line_count > 0,
        r matches Err(e) ==> e@ == AppErrorView::ValidationError("No cart items found for this bookstore"@),
{
    if line_count == 0 {
        Err(AppError::ValidationError("No cart items found for this bookstore".to_owned()))
    } else {
        Ok(())
    }
}

/// The answer to a cancellation that changed `rows_updated` orders: only a
/// pending order of the user can be cancelled.
pub fn cancel_outcome(rows_updated: u64) -> (r: Result<(), AppError>)
    ensures
        r is Ok <==> rows_updated > 0,
        r matches Err(e) ==> e@ == AppErrorView::ValidationError("Order not found or cannot be cancelled"@),
{
    if rows_updated == 0 {
        Err(AppError::ValidationError("Order not found or cannot be cancelled".to_owned()))
    } else {
        Ok(())
    }
}

} // verus!
