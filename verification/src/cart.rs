//! Cart and wishlist rules: quantities, the item count of a cart, and
//! reusing a user's existing cart or wishlist.

use vstd::prelude::*;
use crate::error::{AppError, AppErrorView};

verus! {

/// Body of a request that adds copies of a book to the cart.
pub struct AddToCartRequest {
    pub book_id: u128,
    pub quantity: i32,
}

/// Body of a request that sets the quantity of a cart item.
pub struct UpdateQuantityRequest {
    pub quantity: i32,
}

/// Body of a request that adds a book to the wishlist.
pub struct AddToWishlistRequest {
    pub book_id: u128,
}

/// A quantity is accepted when it is at least one.
pub fn check_quantity(quantity: i32) -> (r: Result<(), AppError>)
    ensures
        r is Ok <==> quantity >= 1,
        r matches Err(e) ==> e@ == AppErrorView::ValidationError("Quantity must be at least 1"@),
{
    if quantity < 1 {
        Err(AppError::ValidationError("Quantity must be at least 1".to_owned()))
    } else {
        Ok(())
    }
}

impl AddToCartRequest {
    /// The request that moves one copy of a wishlisted book into the cart.
    pub fn one_copy(book_id: u128) -> (r: AddToCartRequest)
        ensures
            r.book_id == book_id,
            r.quantity == 1,
    {
        AddToCartRequest { book_id, quantity: 1 }
    }

    /// Checks the quantity of the request.
    pub fn check(&self) -> (r: Result<(), AppError>)
        ensures
            r is Ok <==> self.quantity >= 1,
            r matches Err(e) ==> e@ == AppErrorView::ValidationError("Quantity must be at least 1"@),
    {
        check_quantity(self.quantity)
    }
}

impl UpdateQuantityRequest {
    /// Checks the new quantity.
    pub fn check(&self) -> (r: Result<(), AppError>)
        ensures
            r is Ok <==> self.quantity >= 1,
            r matches Err(e) ==> e@ == AppErrorView::ValidationError("Quantity must be at least 1"@),
    {
        check_quantity(self.quantity)
    }
}

/// What to do for a user's active cart (or wishlist) given the id found.
pub enum Lookup {
    /// Reuse the one that exists.
    Existing(u128),
    /// Create one.
    Create,
}

/// A user's cart or wishlist is reused when it exists and created otherwise.
pub fn existing_or_create(found: Option<u128>) -> (l: Lookup)
    ensures
        match found {
            Some(id) => l == Lookup::Existing(id),
            None => l == Lookup::Create,
        },
{
    match found {
        Some(id) => Lookup::Existing(id),
        None => Lookup::Create,
    }
}

/// Sum of the quantities.
pub open spec fn sum_of(q: Seq<i32>) -> int
    decreases q.len(),
{
    if q.len() == 0 {
        0
    } else {
        sum_of(q.drop_last()) + q.last()
    }
}

/// Whether every running total of the quantities fits in an `i32`.
pub open spec fn running_totals_fit(q: Seq<i32>) -> bool {
    forall|k: int| 0 <= k <= q.len() ==> i32::MIN <= #[trigger] sum_of(q.take(k)) <= i32::MAX
}

/// The number of copies in a cart: the sum of its item quantities. `None`
/// when a running total leaves the `i32` range.
pub fn item_count(quantities: &Vec<i32>) -> (n: Option<i32>)
    ensures
        match n {
            Some(total) => running_totals_fit(quantities@) && total == sum_of(quantities@),
            None => !running_totals_fit(quantities@),
        },
{
    let mut total: i32 = 0;
    let mut i: usize = 0;
    assert(quantities@.take(0) =~= Seq::<i32>::empty());
    while i < quantities.len()
        invariant
            i <= quantities.len(),
            total == sum_of(quantities@.take(i as int)),
            forall|k: int| 0 <= k <= i ==> i32::MIN <= #[trigger] sum_of(quantities@.take(k)) <= i32::MAX,
        decreases quantities.len() - i,
    {
        let q = quantities[i];
        assert(quantities@.take(i + 1).drop_last() == quantities@.take(i as int));
        let next = total as i64 + q as i64;
        if next < i32::MIN as i64 || next > i32::MAX as i64 {
            assert(!(i32::MIN <= sum_of(quantities@.take(i + 1)) <= i32::MAX));
            return None;
        }
        total = next as i32;
        i = i + 1;
    }
    assert(quantities@.take(quantities@.len() as int) == quantities@);
    Some(total)
}

} // verus!
