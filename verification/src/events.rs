//! Event listings: the query's window and the key under which a listing
//! is cached.

use vstd::prelude::*;
use vstd::seq_lib::lemma_concat_associative;
use crate::text::{push_int, int_decimal, lemma_int_decimal_chars, lemma_int_decimal_injective};

verus! {

/// Query parameters of the event listing.
pub struct EventQuery {
    pub upcoming: Option<bool>,
    pub free: Option<bool>,
    pub limit: Option<i64>,
    pub offset: Option<i64>,
}

/// `{:?}` of an optional flag.
pub open spec fn bool_option_text(o: Option<bool>) -> Seq<char> {
    match o {
        Some(true) => "Some(true)"@,
        Some(false) => "Some(false)"@,
        None => "None"@,
    }
}

/// `{:?}` of an optional integer.
pub open spec fn int_option_text(o: Option<i64>) -> Seq<char> {
    match o {
        Some(n) => "Some("@ + int_decimal(n as int) + ")"@,
        None => "None"@,
    }
}

/// The cache key of a listing query.
pub open spec fn cache_key_of(q: EventQuery) -> Seq<char> {
    "events:upcoming="@ + bool_option_text(q.upcoming) + ":free="@ + bool_option_text(q.free)
        + ":limit="@ + int_option_text(q.limit) + ":offset="@ + int_option_text(q.offset)
}

/// A flag's text can be read back from the front of a longer string.
proof fn lemma_bool_text_prefix(a: Option<bool>, b: Option<bool>, r1: Seq<char>, r2: Seq<char>)
    requires
        bool_option_text(a) + r1 == bool_option_text(b) + r2,
    ensures
        a == b,
        r1 == r2,
{
    reveal_strlit("Some(true)");
    reveal_strlit("Some(false)");
    reveal_strlit("None");
    let s = bool_option_text(a) + r1;
    assert(s[0] == bool_option_text(a)[0]);
    assert(s[0] == bool_option_text(b)[0]);
    if a is Some && b is Some {
        assert(s[5] == bool_option_text(a)[5]);
        assert(s[5] == bool_option_text(b)[5]);
    }
    assert(a == b);
    let n = bool_option_text(a).len() as int;
    assert(r1 == s.skip(n));
    assert(r2 == (bool_option_text(b) + r2).skip(n));
}

/// An optional integer's text can be read back from the front of a longer
/// string: its closing `)` is the first one.
proof fn lemma_int_text_prefix(a: Option<i64>, b: Option<i64>, r1: Seq<char>, r2: Seq<char>)
    requires
        int_option_text(a) + r1 == int_option_text(b) + r2,
    ensures
        a == b,
        r1 == r2,
{
    reveal_strlit("Some(");
    reveal_strlit(")");
    reveal_strlit("None");
    let s = int_option_text(a) + r1;
    let t = int_option_text(b) + r2;
    assert(s[0] == int_option_text(a)[0]);
    assert(t[0] == int_option_text(b)[0]);
    if a is Some && b is Some {
        let x = a->0;
        let y = b->0;
        let d1 = int_decimal(x as int);
        let d2 = int_decimal(y as int);
        lemma_int_decimal_chars(x as int);
        lemma_int_decimal_chars(y as int);
        assert(int_option_text(a) == "Some("@ + d1 + ")"@);
        assert(int_option_text(b) == "Some("@ + d2 + ")"@);
        if d1.len() < d2.len() {
            assert(s[5 + d1.len() as int] == ')');
            assert(t[5 + d1.len() as int] == d2[d1.len() as int]);
        } else if d2.len() < d1.len() {
            assert(t[5 + d2.len() as int] == ')');
            assert(s[5 + d2.len() as int] == d1[d2.len() as int]);
        }
        assert(d1.len() == d2.len());
        assert(d1 =~= s.subrange(5, 5 + d1.len() as int));
        assert(d2 =~= t.subrange(5, 5 + d2.len() as int));
        lemma_int_decimal_injective(x as int, y as int);
    }
    assert(a == b);
    let n = int_option_text(a).len() as int;
    assert(r1 == s.skip(n));
    assert(r2 == t.skip(n));
}

/// Distinct listing queries are cached under distinct keys, so a cached
/// listing is only ever served for the query that produced it.
pub proof fn lemma_cache_key_injective(q1: EventQuery, q2: EventQuery)
    requires
        cache_key_of(q1) == cache_key_of(q2),
    ensures
        q1.upcoming == q2.upcoming,
        q1.free == q2.free,
        q1.limit == q2.limit,
        q1.offset == q2.offset,
{
    let (a1, b1, c1, d1) = key_parts(q1);
    let (a2, b2, c2, d2) = key_parts(q2);
    lemma_key_parts(q1);
    lemma_key_parts(q2);
    lemma_cancel_prefix("events:upcoming="@, a1, a2);
    lemma_bool_text_prefix(q1.upcoming, q2.upcoming, b1, b2);
    lemma_cancel_prefix(":free="@, bool_option_text(q1.free) + c1, bool_option_text(q2.free) + c2);
    lemma_bool_text_prefix(q1.free, q2.free, c1, c2);
    lemma_cancel_prefix(":limit="@, int_option_text(q1.limit) + d1, int_option_text(q2.limit) + d2);
    lemma_int_text_prefix(q1.limit, q2.limit, d1, d2);
    lemma_cancel_prefix(":offset="@, int_option_text(q1.offset), int_option_text(q2.offset));
    assert(int_option_text(q1.offset) + Seq::<char>::empty() == int_option_text(q1.offset));
    assert(int_option_text(q2.offset) + Seq::<char>::empty() == int_option_text(q2.offset));
    lemma_int_text_prefix(q1.offset, q2.offset, Seq::<char>::empty(), Seq::<char>::empty());
}

/// The nested tails of a cache key: after the first label, after the first
/// flag, after the second flag, and after the limit.
spec fn key_parts(q: EventQuery) -> (Seq<char>, Seq<char>, Seq<char>, Seq<char>) {
    let d = ":offset="@ + int_option_text(q.offset);
    let c = ":limit="@ + (int_option_text(q.limit) + d);
    let b = ":free="@ + (bool_option_text(q.free) + c);
    let a = bool_option_text(q.upcoming) + b;
    (a, b, c, d)
}

proof fn lemma_key_parts(q: EventQuery)
    ensures
        cache_key_of(q) == "events:upcoming="@ + key_parts(q).0,
{
    let p0 = "events:upcoming="@;
    let p1 = ":free="@;
    let p2 = ":limit="@;
    let p3 = ":offset="@;
    let u = bool_option_text(q.upcoming);
    let f = bool_option_text(q.free);
    let l = int_option_text(q.limit);
    let o = int_option_text(q.offset);
    let d = p3 + o;
    let c = p2 + (l + d);
    let b = p1 + (f + c);
    let a = u + b;
    // Regroup the left-nested concatenation, one operator at a time.
    lemma_concat_associative(p0 + u + p1 + f + p2 + l, p3, o);
    lemma_concat_associative(p0 + u + p1 + f + p2, l, d);
    lemma_concat_associative(p0 + u + p1 + f, p2, l + d);
    lemma_concat_associative(p0 + u + p1, f, c);
    lemma_concat_associative(p0 + u, p1, f + c);
    lemma_concat_associative(p0, u, b);
}

/// A common prefix can be cancelled.
proof fn lemma_cancel_prefix(p: Seq<char>, x: Seq<char>, y: Seq<char>)
    requires
        p + x == p + y,
    ensures
        x == y,
{
    assert(x =~= (p + x).skip(p.len() as int));
    assert(y =~= (p + y).skip(p.len() as int));
}

fn push_bool_option(s: &mut String, o: Option<bool>)
    ensures
        final(s)@ == old(s)@ + bool_option_text(o),
{
    match o {
        Some(true) => s.append("Some(true)"),
        Some(false) => s.append("Some(false)"),
        None => s.append("None"),
    }
}

fn push_int_option(s: &mut String, o: Option<i64>)
    ensures
        final(s)@ == old(s)@ + int_option_text(o),
{
    match o {
        Some(n) => {
            s.append("Some(");
            push_int(s, n);
            s.append(")");
            assert(final(s)@ =~= old(s)@ + int_option_text(o));
        },
        None => s.append("None"),
    }
}

impl EventQuery {
    /// The key under which the listing for this query is cached.
    pub fn cache_key(&self) -> (k: String)
        ensures
            k@ == cache_key_of(*self),
    {
        let mut k = "events:upcoming=".to_owned();
        push_bool_option(&mut k, self.upcoming);
        k.append(":free=");
        push_bool_option(&mut k, self.free);
        k.append(":limit=");
        push_int_option(&mut k, self.limit);
        k.append(":offset=");
        push_int_option(&mut k, self.offset);
        assert(k@ =~= cache_key_of(*self));
        k
    }

    /// The page size (default 20, at most 100) and the number of events to skip
    /// (default 0).
    pub fn window(&self) -> (w: (i64, i64))
        ensures
            w.0 == match self.limit {
                Some(l) => if l < 100 { l } else { 100 },
                None => 20,
            },
            w.1 == match self.offset {
                Some(o) => o,
                None => 0,
            },
    {
        let limit = match self.limit {
            Some(l) => if l < 100 { l } else { 100 },
            None => 20,
        };
        let offset = match self.offset {
            Some(o) => o,
            None => 0,
        };
        (limit, offset)
    }
}

} // verus!
