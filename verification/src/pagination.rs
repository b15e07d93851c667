//! Cursor pagination: how many rows a page holds, and how a page and the
//! "more pages follow" flag are cut from one extra fetched row.

use vstd::prelude::*;

verus! {

/// The page size asked for, with a default of 20, kept within `[1, 50]`.
pub open spec fn page_limit_of(requested: Option<i64>) -> i64 {
    let l = match requested {
        Some(l) => l,
        None => 20,
    };
    if l < 1 {
        1
    } else if l > 50 {
        50
    } else {
        l
    }
}

/// The page size for a listing: 20 unless asked otherwise, never below 1
/// and never above 50.
pub fn page_limit(requested: Option<i64>) -> (l: i64)
    ensures
        l == page_limit_of(requested),
        1 <= l <= 50,
        requested is None ==> l == 20,
{
    let l = match requested {
        Some(l) => l,
        None => 20,
    };
    if l < 1 {
        1
    } else if l > 50 {
        50
    } else {
        l
    }
}

/// How many rows to fetch for a page of `limit`: one more than the page
/// holds, so that a further page can be detected.
pub fn rows_to_fetch(limit: i64) -> (n: i64)
    requires
        limit < i64::MAX,
    ensures
        n == limit + 1,
{
    limit + 1
}

/// One page of a listing and whether more rows follow it.
pub struct Page<T> {
    pub items: Vec<T>,
    pub has_more: bool,
}

/// Whether more rows follow a page cut from `rows`.
pub open spec fn page_has_more<T>(rows: Seq<T>, limit: int) -> bool {
    rows.len() > limit
}

/// The rows of a page cut from `rows`: the first `limit` of them.
pub open spec fn page_items<T>(rows: Seq<T>, limit: int) -> Seq<T> {
    if page_has_more(rows, limit) {
        rows.take(limit)
    } else {
        rows
    }
}

/// Cuts a page of at most `limit` rows from the rows fetched; more rows
/// follow exactly when more than `limit` were fetched.
pub fn paginate<T>(rows: Vec<T>, limit: i64) -> (p: Page<T>)
    requires
        limit >= 0,
    ensures
        p.items@ == page_items(rows@, limit as int),
        p.has_more == page_has_more(rows@, limit as int),
        p.has_more == (rows.len() > limit),
        p.has_more ==> p.items@ == rows@.take(limit as int),
        !p.has_more ==> p.items@ == rows@,
        p.items.len() <= limit,
{
    let mut items = rows;
    let has_more = (limit as u64) < (items.len() as u64);
    if has_more {
        items.truncate(limit as usize);
    }
    Page { items, has_more }
}

impl<T> Page<T> {
    /// Position of the row whose key becomes the next cursor: the last row
    /// of the page when more rows follow, and none otherwise.
    pub fn cursor_index(&self) -> (i: Option<usize>)
        ensures
            match i {
                Some(k) => self.has_more && self.items.len() > 0 && k == self.items.len() - 1,
                None => !self.has_more || self.items.len() == 0,
            },
    {
        if self.has_more && self.items.len() > 0 {
            Some(self.items.len() - 1)
        } else {
            None
        }
    }
}

/// A page of a positive size that is followed by more rows is full, so it
/// has a last row to continue from; a page with no rows after it yields no
/// cursor.
pub proof fn lemma_cursor_exactly_when_more<T>(rows: Seq<T>, limit: int, items: Seq<T>, has_more: bool)
    requires
        limit >= 1,
        has_more == (rows.len() > limit),
        has_more ==> items == rows.take(limit),
        !has_more ==> items == rows,
    ensures
        has_more ==> items.len() == limit && items.len() > 0,
        has_more ==> items.last() == rows[limit - 1],
{
}

// ── Following the cursors ──────────────────────────────────────────────────
//
// A listing is modelled by the keys of the rows that match it, newest
// first (for orders: the placing times). A page request with a cursor asks
// for the rows with a key below the cursor, newest first, and fetches one
// row more than the page holds; the key of a page's last row is the next
// cursor when more rows follow.

/// Keys in strictly descending order (so no two rows share a key).
pub open spec fn strictly_descending(keys: Seq<int>) -> bool {
    forall|i: int, j: int| 0 <= i < j < keys.len() ==> keys[i] > keys[j]
}

/// The test "key below `c`" that a cursor adds to the query.
pub open spec fn below(c: int) -> spec_fn(int) -> bool {
    |k: int| k < c
}

/// The matching keys that a request with this cursor may return.
pub open spec fn after_cursor(keys: Seq<int>, cursor: Option<int>) -> Seq<int> {
    match cursor {
        None => keys,
        Some(c) => keys.filter(below(c)),
    }
}

/// At most the first `n` elements of `s`.
pub open spec fn first_n<T>(s: Seq<T>, n: int) -> Seq<T> {
    if s.len() <= n {
        s
    } else {
        s.take(n)
    }
}

/// The rows a page request fetches: `limit + 1` of them at most.
pub open spec fn fetched(keys: Seq<int>, cursor: Option<int>, limit: int) -> Seq<int> {
    first_n(after_cursor(keys, cursor), limit + 1)
}

/// The cursor a page hands out: its last key, when more rows follow.
pub open spec fn next_cursor_of(items: Seq<int>, has_more: bool) -> Option<int> {
    if has_more && items.len() > 0 {
        Some(items.last())
    } else {
        None
    }
}

/// The keys listed by requesting a page with `cursor` and then following
/// the cursors handed out, for at most `steps` further pages.
pub open spec fn walk(keys: Seq<int>, cursor: Option<int>, limit: int, steps: nat) -> Seq<int>
    decreases steps,
{
    let rows = fetched(keys, cursor, limit);
    let items = page_items(rows, limit);
    let more = page_has_more(rows, limit);
    if more && steps > 0 {
        items + walk(keys, next_cursor_of(items, more), limit, (steps - 1) as nat)
    } else {
        items
    }
}

/// Whether that walk ends on a page after which no rows follow.
pub open spec fn walk_ends(keys: Seq<int>, cursor: Option<int>, limit: int, steps: nat) -> bool
    decreases steps,
{
    let rows = fetched(keys, cursor, limit);
    let items = page_items(rows, limit);
    let more = page_has_more(rows, limit);
    if more {
        steps > 0 && walk_ends(keys, next_cursor_of(items, more), limit, (steps - 1) as nat)
    } else {
        true
    }
}

/// The cursor that leads to position `m` of the listing.
pub open spec fn cursor_at(keys: Seq<int>, m: int) -> Option<int> {
    if m == 0 {
        None
    } else {
        Some(keys[m - 1])
    }
}

/// With the keys split at `m` into those at or above `c` and those below,
/// the keys below `c` are the ones from `m` on.
proof fn lemma_filter_below(keys: Seq<int>, c: int, m: int)
    requires
        0 <= m <= keys.len(),
        forall|i: int| 0 <= i < m ==> keys[i] >= c,
        forall|i: int| m <= i < keys.len() ==> keys[i] < c,
    ensures
        keys.filter(below(c)) == keys.skip(m),
    decreases keys.len(),
{
    reveal(Seq::filter);
    if keys.len() == 0 {
        assert(keys.skip(m) =~= keys);
    } else if keys.len() > m {
        lemma_filter_below(keys.drop_last(), c, m);
        assert(below(c)(keys.last()));
        assert(keys.skip(m) =~= keys.drop_last().skip(m).push(keys.last()));
    } else {
        lemma_filter_below(keys.drop_last(), c, m - 1);
        assert(!below(c)(keys.last()));
        assert(keys.drop_last().skip(m - 1) =~= Seq::<int>::empty());
        assert(keys.skip(m) =~= Seq::<int>::empty());
    }
}

/// The cursor for position `m` selects exactly the keys from `m` on.
proof fn lemma_after_cursor_at(keys: Seq<int>, m: int)
    requires
        strictly_descending(keys),
        0 <= m <= keys.len(),
    ensures
        after_cursor(keys, cursor_at(keys, m)) == keys.skip(m),
{
    if m == 0 {
        assert(keys.skip(0) =~= keys);
    } else {
        lemma_filter_below(keys, keys[m - 1], m);
    }
}

/// From position `m`, following the cursors lists the keys from `m` on and
/// ends on a last page, given a step for each remaining key.
proof fn lemma_walk_from(keys: Seq<int>, m: int, limit: int, steps: nat)
    requires
        strictly_descending(keys),
        0 <= m <= keys.len(),
        limit >= 1,
        steps >= keys.len() - m,
    ensures
        walk(keys, cursor_at(keys, m), limit, steps) == keys.skip(m),
        walk_ends(keys, cursor_at(keys, m), limit, steps),
    decreases steps,
{
    lemma_after_cursor_at(keys, m);
    let rows = fetched(keys, cursor_at(keys, m), limit);
    let items = page_items(rows, limit);
    if keys.len() - m > limit {
        assert(rows =~= keys.subrange(m, m + limit + 1));
        assert(page_has_more(rows, limit));
        assert(items =~= keys.subrange(m, m + limit));
        assert(next_cursor_of(items, true) == cursor_at(keys, m + limit));
        lemma_walk_from(keys, m + limit, limit, (steps - 1) as nat);
        assert(keys.skip(m) =~= items + keys.skip(m + limit));
    } else {
        assert(rows =~= keys.skip(m));
        assert(!page_has_more(rows, limit));
    }
}

/// Following the cursors from the first page lists every matching row
/// exactly once, newest first, and ends on a page that reports no more
/// rows (given distinct keys and a positive page size).
pub proof fn lemma_cursor_walk_lists_every_row(keys: Seq<int>, limit: int)
    requires
        strictly_descending(keys),
        limit >= 1,
    ensures
        walk(keys, None, limit, keys.len()) == keys,
        walk_ends(keys, None, limit, keys.len()),
{
    lemma_walk_from(keys, 0, limit, keys.len());
    assert(keys.skip(0) =~= keys);
}

} // verus!
