//! The key by which requests are rate-limited: the user id from a valid
//! access-token cookie, or else the client's address.

use vstd::prelude::*;
use jsonwebtoken::{decode, Algorithm, DecodingKey, Validation};
use crate::text::{
    chars_of, joined, split_chars, split_on, views, trim, trim_bounds, sub_vec, starts_with_at,
    string_of_range, has_prefix, lemma_split_nonempty,
};

verus! {

/// The subject (`sub` claim, when it is a string) of an HS256 token signed
/// with `secret`, with expiry not checked, as `jsonwebtoken::decode` reads it.
pub uninterp spec fn jwt_subject(token: Seq<char>, secret: Seq<char>) -> Option<Seq<char>>;

/// Calls `jsonwebtoken::decode` (HS256, expiry not validated) into a JSON
/// value and takes its `sub` field when that is a string. With expiry
/// checking off the outcome depends on the token and the secret alone; it
/// is named, not described.
#[verifier::external_body]
fn decode_subject(token: &str, secret: &str) -> (r: Option<String>)
    ensures
        match r {
            Some(s) => jwt_subject(token@, secret@) == Some(s@),
            None => jwt_subject(token@, secret@) is None,
        },
{
    let mut validation = Validation::new(Algorithm::HS256);
    validation.validate_exp = false;
    let key = DecodingKey::from_secret(secret.as_bytes());
    match decode::<serde_json::Value>(token, &key, &validation) {
        Ok(data) => data.claims.get("sub").and_then(|v| v.as_str()).map(|s| s.to_string()),
        Err(_) => None,
    }
}

/// Rate-limit key extractor: per user when the request carries a valid
/// access-token cookie, per client address otherwise.
pub struct JwtUserKeyExtractor;

pub open spec fn cookie_name_prefix() -> Seq<char> {
    "access_token="@
}

/// The key that one `;`-separated piece of the cookie header gives, if any.
pub open spec fn piece_key(piece: Seq<char>, secret: Option<Seq<char>>) -> Option<Seq<char>> {
    let t = trim(piece);
    if has_prefix(t, cookie_name_prefix()) {
        match secret {
            Some(k) => match jwt_subject(t.skip(cookie_name_prefix().len() as int), k) {
                Some(sub) => Some("user:"@ + sub),
                None => None,
            },
            None => None,
        }
    } else {
        None
    }
}

/// The key of the first piece that gives one.
pub open spec fn first_key(pieces: Seq<Seq<char>>, secret: Option<Seq<char>>) -> Option<Seq<char>>
    decreases pieces.len(),
{
    if pieces.len() == 0 {
        None
    } else {
        match piece_key(pieces[0], secret) {
            Some(k) => Some(k),
            None => first_key(pieces.drop_first(), secret),
        }
    }
}

/// The per-user key for a request with this cookie header and signing secret.
pub open spec fn user_key_of(cookie_header: Option<Seq<char>>, secret: Option<Seq<char>>) -> Option<Seq<char>> {
    match cookie_header {
        Some(c) => first_key(split_on(c, ';'), secret),
        None => None,
    }
}

pub open spec fn opt_str_view(o: Option<&str>) -> Option<Seq<char>> {
    match o {
        Some(s) => Some(s@),
        None => None,
    }
}

pub open spec fn opt_string_view(o: Option<String>) -> Option<Seq<char>> {
    match o {
        Some(s) => Some(s@),
        None => None,
    }
}

fn piece_user_key(piece: &Vec<char>, secret: Option<&str>) -> (r: Option<String>)
    ensures
        opt_string_view(r) == piece_key(piece@, opt_str_view(secret)),
{
    let (i, j) = trim_bounds(piece);
    let t = sub_vec(piece, i, j);
    let p = chars_of("access_token=");
    assert(t@.subrange(0, t@.len() as int) == t@);
    if !starts_with_at(&t, 0, &p) {
        return None;
    }
    match secret {
        Some(k) => {
            let token = string_of_range(&t, p.len(), t.len());
            assert(token@ == t@.skip(cookie_name_prefix().len() as int));
            match decode_subject(token.as_str(), k) {
                Some(sub) => Some(joined("user:", sub.as_str())),
                None => None,
            }
        },
        None => None,
    }
}

/// A per-user key and a per-address key are never the same, so a user and
/// an anonymous client never share a budget.
pub proof fn lemma_user_and_address_keys_differ(sub: Seq<char>, address: Seq<char>)
    ensures
        "user:"@ + sub != "ip:"@ + address,
{
    reveal_strlit("user:");
    reveal_strlit("ip:");
    assert(("user:"@ + sub)[0] == 'u');
    assert(("ip:"@ + address)[0] == 'i');
}

/// Each key names one user or one address: equal keys of the same kind
/// come from the same subject, or the same address.
pub proof fn lemma_keys_identify_their_owner(a: Seq<char>, b: Seq<char>)
    ensures
        "user:"@ + a == "user:"@ + b ==> a == b,
        "ip:"@ + a == "ip:"@ + b ==> a == b,
{
    assert(("user:"@ + a).skip(("user:"@).len() as int) =~= a);
    assert(("user:"@ + b).skip(("user:"@).len() as int) =~= b);
    assert(("ip:"@ + a).skip(("ip:"@).len() as int) =~= a);
    assert(("ip:"@ + b).skip(("ip:"@).len() as int) =~= b);
}

impl JwtUserKeyExtractor {
    /// `user:<id>` for the first `access_token` cookie whose token decodes
    /// (with the given secret) to a string subject; `None` when there is no
    /// cookie header, no secret, or no such cookie.
    pub fn user_key(&self, cookie_header: Option<&str>, secret: Option<&str>) -> (r: Option<String>)
        ensures
            opt_string_view(r) == user_key_of(opt_str_view(cookie_header), opt_str_view(secret)),
    {
        match cookie_header {
            None => None,
            Some(c) => {
                let v = chars_of(c);
                let pieces = split_chars(&v, ';');
                let ghost all = views(pieces@);
                let mut i: usize = 0;
                assert(all.skip(0) == all);
                while i < pieces.len()
                    invariant
                        i <= pieces.len(),
                        all == views(pieces@),
                        all == split_on(c@, ';'),
                        cookie_header == Some(c),
                        all.len() == pieces.len(),
                        first_key(all, opt_str_view(secret)) == first_key(all.skip(i as int), opt_str_view(secret)),
                    decreases pieces.len() - i,
                {
                    let k = piece_user_key(&pieces[i], secret);
                    assert(all.skip(i as int)[0] == pieces@[i as int]@);
                    assert(all.skip(i as int).drop_first() == all.skip(i + 1));
                    if k.is_some() {
                        assert(all.skip(i as int).len() > 0);
                        assert(first_key(all.skip(i as int), opt_str_view(secret))
                            == opt_string_view(k));
                        return k;
                    }
                    i = i + 1;
                }
                None
            },
        }
    }

    /// The client address to try when there is no user key: the first
    /// comma-separated entry of `X-Forwarded-For`, trimmed.
    pub fn forwarded_address(&self, forwarded_for: Option<&str>) -> (r: Option<String>)
        ensures
            match forwarded_for {
                Some(h) => r matches Some(s) && s@ == trim(split_on(h@, ',')[0]),
                None => r is None,
            },
    {
        match forwarded_for {
            None => None,
            Some(h) => {
                let v = chars_of(h);
                let pieces = split_chars(&v, ',');
                proof {
                    lemma_split_nonempty(h@, ',');
                }
                assert(views(pieces@)[0] == pieces@[0]@);
                let (i, j) = trim_bounds(&pieces[0]);
                Some(string_of_range(&pieces[0], i, j))
            },
        }
    }

    /// The per-address key `ip:<address>`.
    pub fn address_key(&self, address: &str) -> (k: String)
        ensures
            k@ == "ip:"@ + address@,
    {
        joined("ip:", address)
    }
}

} // verus!
