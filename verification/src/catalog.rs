//! Book and bookstore browsing: which listing a bookstore query selects,
//! and how a book's cover image is found on Open Library.

use vstd::prelude::*;
use crate::text::{joined, push_char, push_int, int_decimal, same_text};

verus! {

// ── Bookstore listing ──────────────────────────────────────────────────────

/// Query parameters of the bookstore listing.
pub struct BookstoreQuery {
    pub city: Option<String>,
    pub district: Option<String>,
}

/// Which bookstores a listing shows.
pub enum BookstoreFilter {
    /// Those in the given city and district (case-insensitive).
    CityAndDistrict(String, String),
    /// Those in the given city (case-insensitive).
    City(String),
    /// All of them.
    All,
}

impl BookstoreQuery {
    /// The listing a query selects: a district narrows a city, and a
    /// district without a city is ignored.
    pub fn filter(&self) -> (f: BookstoreFilter)
        ensures
            match (self.city, self.district) {
                (Some(c), Some(d)) => f == BookstoreFilter::CityAndDistrict(c, d),
                (Some(c), None) => f == BookstoreFilter::City(c),
                (None, _) => f == BookstoreFilter::All,
            },
    {
        match (&self.city, &self.district) {
            (Some(c), Some(d)) => BookstoreFilter::CityAndDistrict(c.clone(), d.clone()),
            (Some(c), None) => BookstoreFilter::City(c.clone()),
            (None, _) => BookstoreFilter::All,
        }
    }
}

// ── Cover images ───────────────────────────────────────────────────────────

/// Whether percent-encoding leaves a byte as it is: ASCII letters, digits
/// and `-`, `.`, `_`, `~`.
pub open spec fn url_safe(b: u8) -> bool {
    (48 <= b <= 57) || (65 <= b <= 90) || (97 <= b <= 122) || b == 45 || b == 46 || b == 95 || b == 126
}

/// The upper-case hexadecimal digit of `d < 16`.
pub open spec fn hex_digit(d: u8) -> char {
    if d < 10 {
        ((48 + d) as u8) as char
    } else {
        ((55 + d) as u8) as char
    }
}

/// Percent-encoding of a byte string, as `urlencoding::encode` does it:
/// safe bytes stay, every other byte becomes `%` and two upper-case hex
/// digits.
pub open spec fn percent_encode(bytes: Seq<u8>) -> Seq<char>
    decreases bytes.len(),
{
    if bytes.len() == 0 {
        Seq::empty()
    } else {
        let b = bytes[0];
        let head = if url_safe(b) {
            seq![b as char]
        } else {
            seq!['%', hex_digit(b / 16), hex_digit(b % 16)]
        };
        head + percent_encode(bytes.drop_first())
    }
}

/// A character that may stand unescaped in an encoded query value: an
/// ASCII letter or digit, or one of `-`, `.`, `_`, `~`.
pub open spec fn unreserved_char(c: char) -> bool {
    let n = c as u32;
    (48 <= n <= 57) || (65 <= n <= 90) || (97 <= n <= 122) || n == 45 || n == 46 || n == 95 || n == 126
}

/// An upper-case hexadecimal digit.
pub open spec fn upper_hex_char(c: char) -> bool {
    let n = c as u32;
    (48 <= n <= 57) || (65 <= n <= 70)
}

/// The value of an upper-case hexadecimal digit.
pub open spec fn upper_hex_value(c: char) -> int {
    let n = c as u32;
    if n <= 57 { n - 48 } else { n - 55 }
}

/// Encoding works byte by byte: the encoding of two byte strings one after
/// the other is the two encodings one after the other.
pub proof fn lemma_percent_encode_concat(a: Seq<u8>, b: Seq<u8>)
    ensures
        percent_encode(a + b) == percent_encode(a) + percent_encode(b),
    decreases a.len(),
{
    if a.len() == 0 {
        assert(a + b =~= b);
    } else {
        assert((a + b).drop_first() =~= a.drop_first() + b);
        lemma_percent_encode_concat(a.drop_first(), b);
        assert((a + b)[0] == a[0]);
    }
}

/// How one byte is encoded: an ASCII letter or digit, `-`, `.`, `_` or `~`
/// stays as that character; any other byte (`&`, `=`, `#`, `+`, a space, a
/// byte of a non-ASCII character...) becomes `%` followed by the two
/// upper-case hexadecimal digits of its value.
pub proof fn lemma_percent_encode_byte(b: u8)
    ensures
        (48 <= b <= 57) || (65 <= b <= 90) || (97 <= b <= 122) || b == 45 || b == 46 || b == 95 || b == 126
            ==> percent_encode(seq![b]).len() == 1 && percent_encode(seq![b])[0] as u32 == b,
        !((48 <= b <= 57) || (65 <= b <= 90) || (97 <= b <= 122) || b == 45 || b == 46 || b == 95 || b == 126)
            ==> {
                let e = percent_encode(seq![b]);
                &&& e.len() == 3
                &&& e[0] == '%'
                &&& upper_hex_char(e[1])
                &&& upper_hex_char(e[2])
                &&& upper_hex_value(e[1]) * 16 + upper_hex_value(e[2]) == b
            },
{
    let one = seq![b];
    let e = percent_encode(one);
    assert(one[0] == b);
    assert(one.drop_first() =~= Seq::<u8>::empty());
    assert(percent_encode(one.drop_first()) =~= Seq::<char>::empty());
    let hi: u8 = b / 16;
    let lo: u8 = b % 16;
    assert(hi < 16 && lo < 16);
    assert(hi as int * 16 + lo as int == b as int);
    if !url_safe(b) {
        assert(e =~= seq!['%', hex_digit(hi), hex_digit(lo)]);
        assert(hi < 10 ==> (((48 + hi) as u8) as char) as u32 == 48 + hi);
        assert(hi >= 10 ==> (((55 + hi) as u8) as char) as u32 == 55 + hi);
        assert(lo < 10 ==> (((48 + lo) as u8) as char) as u32 == 48 + lo);
        assert(lo >= 10 ==> (((55 + lo) as u8) as char) as u32 == 55 + lo);
    } else {
        assert(e =~= seq![b as char]);
    }
}

/// An encoded value holds only unreserved characters, `%` signs and
/// upper-case hexadecimal digits: never a bare `&`, `=`, `#`, `+`, `?` or
/// space that would change the meaning of the query string.
pub proof fn lemma_percent_encode_charset(bytes: Seq<u8>)
    ensures
        forall|i: int| 0 <= i < percent_encode(bytes).len() ==> {
            let c = #[trigger] percent_encode(bytes)[i];
            unreserved_char(c) || c == '%' || upper_hex_char(c)
        },
    decreases bytes.len(),
{
    if bytes.len() > 0 {
        let b = bytes[0];
        lemma_percent_encode_byte(b);
        lemma_percent_encode_charset(bytes.drop_first());
        let head = percent_encode(seq![b]);
        assert(seq![b].drop_first() =~= Seq::<u8>::empty());
        assert(head + percent_encode(Seq::<u8>::empty()) == head);
        assert(percent_encode(bytes) == head + percent_encode(bytes.drop_first()));
        let all = percent_encode(bytes);
        assert forall|i: int| 0 <= i < all.len() implies {
            let c = #[trigger] all[i];
            unreserved_char(c) || c == '%' || upper_hex_char(c)
        } by {
            if i >= head.len() {
                assert(all[i] == percent_encode(bytes.drop_first())[i - head.len()]);
            }
        }
    }
}

fn hex(d: u8) -> (c: char)
    requires
        d < 16,
    ensures
        c == hex_digit(d),
{
    if d < 10 {
        (48 + d) as char
    } else {
        (55 + d) as char
    }
}

/// Percent-encodes the UTF-8 bytes of `s` (every byte but ASCII
/// alphanumerics and `-`, `_`, `.`, `~`).
pub fn url_encode(s: &str) -> (r: String)
    ensures
        r@ == percent_encode(vstd::utf8::encode_utf8(s@)),
{
    let bytes = s.as_bytes();
    let ghost all = bytes@;
    assert(all == vstd::utf8::encode_utf8(s@));
    let mut r = String::new();
    let mut i: usize = 0;
    assert(all.skip(0) == all);
    while i < bytes.len()
        invariant
            i <= bytes@.len(),
            all == bytes@,
            percent_encode(all) == r@ + percent_encode(all.skip(i as int)),
        decreases bytes.len() - i,
    {
        let b = bytes[i];
        assert(all.skip(i as int)[0] == b);
        assert(all.skip(i as int).drop_first() == all.skip(i + 1));
        let ghost before = r@;
        if (48 <= b && b <= 57) || (65 <= b && b <= 90) || (97 <= b && b <= 122) || b == 45 || b == 46
            || b == 95 || b == 126 {
            push_char(&mut r, b as char);
            assert(r@ == before + seq![b as char]);
        } else {
            push_char(&mut r, '%');
            push_char(&mut r, hex(b / 16));
            push_char(&mut r, hex(b % 16));
            assert(r@ =~= before + seq!['%', hex_digit(b / 16), hex_digit(b % 16)]);
        }
        i = i + 1;
    }
    assert(all.skip(i as int).len() == 0);
    assert(r@ + Seq::<char>::empty() == r@);
    r
}

/// The URL of the large cover image with the given Open Library cover id.
pub open spec fn cover_url_of(cover_i: i64) -> Seq<char> {
    "https://covers.openlibrary.org/b/id/"@ + int_decimal(cover_i as int) + "-L.jpg"@
}

/// The URL of the large cover image with the given Open Library cover id.
pub fn cover_url_from_id(cover_i: i64) -> (url: String)
    ensures
        url@ == cover_url_of(cover_i),
{
    let mut url = "https://covers.openlibrary.org/b/id/".to_owned();
    push_int(&mut url, cover_i);
    url.append("-L.jpg");
    url
}

/// The Open Library search request for a title and an author.
pub open spec fn search_url_of(title: &str, author: &str) -> Seq<char> {
    "https://openlibrary.org/search.json?title="@ + percent_encode(vstd::utf8::encode_utf8(title@))
        + "&author="@ + percent_encode(vstd::utf8::encode_utf8(author@))
        + "&limit=3&fields=cover_i,title,author_name"@
}

/// The Open Library search request for a title and an author. It asks for
/// up to three results (with their cover ids, titles and authors), as the
/// cover search sends it, not the single result that the seeding command's
/// header describes: the cover is then chosen among those three.
pub fn search_url(title: &str, author: &str) -> (url: String)
    ensures
        url@ == search_url_of(title, author),
{
    let t = url_encode(title);
    let a = url_encode(author);
    let mut url = joined("https://openlibrary.org/search.json?title=", t.as_str());
    url.append("&author=");
    url.append(a.as_str());
    url.append("&limit=3&fields=cover_i,title,author_name");
    url
}

/// One search result: its cover id and title, when present.
pub struct SearchDoc {
    pub cover_i: Option<i64>,
    pub title: Option<String>,
}

/// A result with a cover whose title is exactly the book's title.
pub open spec fn title_matches(d: SearchDoc, title: Seq<char>) -> bool {
    d.cover_i is Some && match d.title {
        Some(t) => t@ == title,
        None => false,
    }
}

/// Cover id of the first result whose title matches.
pub open spec fn first_title_match(docs: Seq<SearchDoc>, title: Seq<char>) -> Option<i64>
    decreases docs.len(),
{
    if docs.len() == 0 {
        None
    } else if title_matches(docs[0], title) {
        docs[0].cover_i
    } else {
        first_title_match(docs.drop_first(), title)
    }
}

/// Cover id of the first result that has one.
pub open spec fn first_with_cover(docs: Seq<SearchDoc>) -> Option<i64>
    decreases docs.len(),
{
    if docs.len() == 0 {
        None
    } else if docs[0].cover_i is Some {
        docs[0].cover_i
    } else {
        first_with_cover(docs.drop_first())
    }
}

/// The cover chosen for a book: the first result with a cover whose title
/// is exactly the book's title, else the first result with a cover.
pub open spec fn best_cover_of(docs: Seq<SearchDoc>, title: Seq<char>) -> Option<i64> {
    match first_title_match(docs, title) {
        Some(c) => Some(c),
        None => first_with_cover(docs),
    }
}

fn title_match(d: &SearchDoc, title: &str) -> (b: bool)
    ensures
        b == title_matches(*d, title@),
{
    if d.cover_i.is_none() {
        return false;
    }
    match &d.title {
        Some(t) => same_text(t.as_str(), title),
        None => false,
    }
}

/// Picks the cover id among the search results for a book with this title:
/// an exact title match is preferred, as the cover search intends; failing
/// that, the first result that has a cover.
pub fn best_cover(docs: &Vec<SearchDoc>, title: &str) -> (c: Option<i64>)
    ensures
        c == best_cover_of(docs@, title@),
{
    let mut i: usize = 0;
    assert(docs@.skip(0) == docs@);
    while i < docs.len()
        invariant
            i <= docs.len(),
            first_title_match(docs@, title@) == first_title_match(docs@.skip(i as int), title@),
        decreases docs.len() - i,
    {
        assert(docs@.skip(i as int)[0] == docs@[i as int]);
        assert(docs@.skip(i as int).drop_first() == docs@.skip(i + 1));
        if title_match(&docs[i], title) {
            return docs[i].cover_i;
        }
        i = i + 1;
    }
    assert(docs@.skip(i as int).len() == 0);
    let mut k: usize = 0;
    while k < docs.len()
        invariant
            k <= docs.len(),
            first_title_match(docs@, title@) is None,
            first_with_cover(docs@) == first_with_cover(docs@.skip(k as int)),
        decreases docs.len() - k,
    {
        assert(docs@.skip(k as int)[0] == docs@[k as int]);
        assert(docs@.skip(k as int).drop_first() == docs@.skip(k + 1));
        if docs[k].cover_i.is_some() {
            return docs[k].cover_i;
        }
        k = k + 1;
    }
    None
}

/// The cover URL for a book, from the search results for it.
pub fn cover_for(docs: &Vec<SearchDoc>, title: &str) -> (url: Option<String>)
    ensures
        match best_cover_of(docs@, title@) {
            Some(c) => url matches Some(u) && u@ == cover_url_of(c),
            None => url is None,
        },
{
    match best_cover(docs, title) {
        Some(c) => Some(cover_url_from_id(c)),
        None => None,
    }
}

} // verus!
