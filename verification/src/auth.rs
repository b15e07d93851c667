//! Authentication: where the access token is taken from, how the user id
//! is read from the token's subject, and how passwords are checked.

use vstd::prelude::*;
use crate::error::{AppError, AppErrorView};
use crate::text::{chars_of, starts_with_at, string_of_range, has_prefix};

verus! {

// ── Outside calls ──────────────────────────────────────────────────────────

/// What `uuid::Uuid::parse_str` yields for a string with these characters,
/// as the UUID's 128-bit value (`None` when it is rejected).
pub uninterp spec fn uuid_parse(s: Seq<char>) -> Option<u128>;

/// Calls `uuid::Uuid::parse_str` and keeps the 128-bit value of the result.
/// Which strings parse is only named here, not described.
#[verifier::external_body]
fn parse_uuid(s: &str) -> (r: Option<u128>)
    ensures
        r == uuid_parse(s@),
{
    match uuid::Uuid::parse_str(s) {
        Ok(u) => Some(u.as_u128()),
        Err(_) => None,
    }
}

/// What `bcrypt::verify` returns for a password and a stored hash: whether
/// they match, or the text of the error when the hash cannot be read.
pub uninterp spec fn bcrypt_verify_outcome(password: Seq<char>, hash: Seq<char>) -> Result<bool, Seq<char>>;

/// Calls `bcrypt::verify`, a deterministic function of the password and the
/// stored hash; its result (and error text) is only named here.
#[verifier::external_body]
fn bcrypt_verify(password: &str, hash: &str) -> (r: Result<bool, String>)
    ensures
        match r {
            Ok(b) => bcrypt_verify_outcome(password@, hash@) == Ok::<bool, Seq<char>>(b),
            Err(e) => bcrypt_verify_outcome(password@, hash@) == Err::<bool, Seq<char>>(e@),
        },
{
    bcrypt::verify(password, hash).map_err(|e| e.to_string())
}

/// The head of every hash that `bcrypt::hash` writes at the default cost:
/// the `2b` version and the cost 12, each between `$` signs.
pub open spec fn bcrypt_default_head() -> Seq<char> {
    seq!['$', '2', 'b', '$', '1', '2', '$']
}

/// Calls `bcrypt::hash` with the default cost (12). The salt is random, so
/// the rest of the hash is not described; the contract states what the
/// source shows of it: the hash is 60 characters long, begins with
/// `$2b$12$`, and `bcrypt::verify` accepts the same password against it
/// (both derive the digest from the password, the cost and the salt stored
/// in the hash).
#[verifier::external_body]
fn bcrypt_hash(password: &str) -> (r: Result<String, String>)
    ensures
        match r {
            Ok(h) => h@.len() == 60 && h@.take(7) == bcrypt_default_head()
                && bcrypt_verify_outcome(password@, h@) == Ok::<bool, Seq<char>>(true),
            Err(_) => true,
        },
{
    bcrypt::hash(password, bcrypt::DEFAULT_COST).map_err(|e| e.to_string())
}

// ── Claims and the authenticated user ──────────────────────────────────────

/// What an access token carries: the user id as text, the username and the
/// expiry time in seconds since the epoch.
pub struct Claims {
    pub sub: String,
    pub username: String,
    pub exp: usize,
}

/// Lifetime of an access token, in seconds (15 minutes).
pub const ACCESS_TOKEN_SECONDS: i64 = 900;

/// Lifetime of a refresh token, in seconds (7 days).
pub const REFRESH_TOKEN_SECONDS: i64 = 604800;

impl Claims {
    /// The claims of an access token issued at `now_seconds` for a user:
    /// it expires 15 minutes later (the expiry is that instant's timestamp
    /// taken as a `usize`).
    pub fn issue(sub: String, username: String, now_seconds: i64) -> (c: Claims)
        requires
            now_seconds <= i64::MAX - 900,
        ensures
            c.sub == sub,
            c.username == username,
            c.exp == (now_seconds + 900) as usize,
    {
        let exp = #[verifier::truncate] ((now_seconds + ACCESS_TOKEN_SECONDS) as usize);
        Claims { sub, username, exp }
    }
}

/// A request whose access token was accepted, with the token's claims.
pub struct AuthUser(pub Claims);

/// Where the access token of a request is read from.
pub enum TokenSource {
    /// The `Authorization: Bearer <token>` header carried this token.
    Bearer(String),
    /// No bearer token: the `access_token` cookie must be read.
    Cookie,
}

pub open spec fn bearer_prefix() -> Seq<char> {
    "Bearer "@
}

/// The first step of authentication: the signing secret must be configured,
/// and a bearer token in the `Authorization` header wins over the cookie.
pub fn token_source(secret_configured: bool, authorization: Option<&str>) -> (r: Result<TokenSource, AppError>)
    ensures
        !secret_configured ==> (r matches Err(e) && e@ == AppErrorView::TokenError("JWT_SECRET not set"@)),
        secret_configured ==> match authorization {
            Some(h) => if has_prefix(h@, bearer_prefix()) {
                r matches Ok(TokenSource::Bearer(t)) && t@ == h@.skip(bearer_prefix().len() as int)
            } else {
                r matches Ok(TokenSource::Cookie)
            },
            None => r matches Ok(TokenSource::Cookie),
        },
{
    if !secret_configured {
        return Err(AppError::TokenError("JWT_SECRET not set".to_owned()));
    }
    match authorization {
        Some(h) => {
            let v = chars_of(h);
            let p = chars_of("Bearer ");
            if starts_with_at(&v, 0, &p) {
                assert(v@.subrange(0, v@.len() as int) == v@);
                let t = string_of_range(&v, p.len(), v.len());
                assert(v@.subrange(p@.len() as int, v@.len() as int) == h@.skip(bearer_prefix().len() as int));
                Ok(TokenSource::Bearer(t))
            } else {
                assert(v@.subrange(0, v@.len() as int) == v@);
                Ok(TokenSource::Cookie)
            }
        },
        None => Ok(TokenSource::Cookie),
    }
}

/// The second step when no bearer token was sent: the cookie jar must be
/// readable and hold an `access_token` cookie.
pub fn cookie_token(cookies_readable: bool, access_token: Option<String>) -> (r: Result<String, AppError>)
    ensures
        !cookies_readable ==> (r matches Err(e) && e@ == AppErrorView::Unauthorized("Could not read cookies"@)),
        cookies_readable ==> match access_token {
            Some(t) => r matches Ok(s) && s == t,
            None => r matches Err(e) && e@ == AppErrorView::Unauthorized("No access token"@),
        },
{
    if !cookies_readable {
        return Err(AppError::Unauthorized("Could not read cookies".to_owned()));
    }
    match access_token {
        Some(t) => Ok(t),
        None => Err(AppError::Unauthorized("No access token".to_owned())),
    }
}

impl AuthUser {
    /// The last step: a token that decoded gives the user, and a rejected
    /// token is answered with the decoder's reason.
    pub fn from_decoded(decoded: Result<Claims, String>) -> (r: Result<AuthUser, AppError>)
        ensures
            match decoded {
                Ok(c) => r matches Ok(u) && u.0 == c,
                Err(m) => r matches Err(e) && e@ == AppErrorView::Unauthorized(m@),
            },
    {
        match decoded {
            Ok(c) => Ok(AuthUser(c)),
            Err(m) => Err(AppError::Unauthorized(m)),
        }
    }

    /// The user id carried in the token's subject; a subject that is not a
    /// UUID is an unauthorized request.
    pub fn user_id(&self) -> (r: Result<u128, AppError>)
        ensures
            match uuid_parse(self.0.sub@) {
                Some(id) => r == Ok::<u128, AppError>(id),
                None => r matches Err(e) && e@ == AppErrorView::Unauthorized("Invalid user ID in token"@),
            },
    {
        subject_user_id(&self.0, AppError::Unauthorized("Invalid user ID in token".to_owned()))
    }
}

/// The user id in the subject of `claims`, or `on_error` when the subject
/// is not a UUID.
pub fn subject_user_id(claims: &Claims, on_error: AppError) -> (r: Result<u128, AppError>)
    ensures
        match uuid_parse(claims.sub@) {
            Some(id) => r == Ok::<u128, AppError>(id),
            None => r == Err::<u128, AppError>(on_error),
        },
{
    match parse_uuid(claims.sub.as_str()) {
        Some(id) => Ok(id),
        None => Err(on_error),
    }
}

// ── Session cookies ────────────────────────────────────────────────────────

/// The signing secret, which must be configured before any token is issued
/// or checked.
pub fn signing_secret(configured: Option<String>) -> (r: Result<String, AppError>)
    ensures
        match configured {
            Some(s) => r == Ok::<String, AppError>(s),
            None => r matches Err(e) && e@ == AppErrorView::TokenError("JWT_SECRET not set"@),
        },
{
    match configured {
        Some(s) => Ok(s),
        None => Err(AppError::TokenError("JWT_SECRET not set".to_owned())),
    }
}

/// How a cookie that carries a token is set.
pub struct TokenCookie {
    pub name: String,
    pub value: String,
    pub path: String,
    pub max_age_seconds: i64,
    pub http_only: bool,
}

/// The two cookies that a login or a sign-up sets.
pub struct SessionCookies {
    pub access: TokenCookie,
    pub refresh: TokenCookie,
}

/// The session cookies for a pair of tokens: the access token, readable on
/// every path for 15 minutes, and the refresh token, sent only to
/// `/auth/refresh` and kept for 7 days; scripts can read neither.
pub fn session_cookies(access_token: String, refresh_token: String) -> (c: SessionCookies)
    ensures
        c.access.name@ == "access_token"@,
        c.access.value == access_token,
        c.access.path@ == "/"@,
        c.access.max_age_seconds == 900,
        c.access.http_only,
        c.refresh.name@ == "refresh_token"@,
        c.refresh.value == refresh_token,
        c.refresh.path@ == "/auth/refresh"@,
        c.refresh.max_age_seconds == 604800,
        c.refresh.http_only,
{
    SessionCookies {
        access: TokenCookie {
            name: "access_token".to_owned(),
            value: access_token,
            path: "/".to_owned(),
            max_age_seconds: ACCESS_TOKEN_SECONDS,
            http_only: true,
        },
        refresh: TokenCookie {
            name: "refresh_token".to_owned(),
            value: refresh_token,
            path: "/auth/refresh".to_owned(),
            max_age_seconds: REFRESH_TOKEN_SECONDS,
            http_only: true,
        },
    }
}

// ── Passwords ──────────────────────────────────────────────────────────────

/// The answer to a login attempt, given the stored hash of the account with
/// that e-mail (if there is one) and the password sent.
pub open spec fn login_outcome(stored_hash: Option<Seq<char>>, password: Seq<char>) -> Result<(), AppErrorView> {
    match stored_hash {
        None => Err(AppErrorView::InvalidCredentials),
        Some(h) => match bcrypt_verify_outcome(password, h) {
            Err(m) => Err(AppErrorView::HashingError(m)),
            Ok(false) => Err(AppErrorView::InvalidCredentials),
            Ok(true) => Ok(()),
        },
    }
}

pub open spec fn unit_result_view(r: Result<(), AppError>) -> Result<(), AppErrorView> {
    match r {
        Ok(()) => Ok(()),
        Err(e) => Err(e@),
    }
}

/// Checks a login attempt: an unknown account and a wrong password are both
/// answered with invalid credentials.
pub fn check_login(stored_hash: Option<&str>, password: &str) -> (r: Result<(), AppError>)
    ensures
        unit_result_view(r) == login_outcome(
            match stored_hash { Some(h) => Some(h@), None => None },
            password@,
        ),
{
    match stored_hash {
        None => Err(AppError::InvalidCredentials),
        Some(h) => match bcrypt_verify(password, h) {
            Err(m) => Err(AppError::HashingError(m)),
            Ok(false) => Err(AppError::InvalidCredentials),
            Ok(true) => Ok(()),
        },
    }
}

/// Hashes a new password for storage with bcrypt at cost 12. A hash it
/// returns is accepted at login with the same password.
pub fn hash_password(password: &str) -> (r: Result<String, AppError>)
    ensures
        r matches Err(e) ==> e@ is HashingError,
        r matches Ok(h) ==> h@.len() == 60 && h@.take(7) == bcrypt_default_head()
            && login_outcome(Some(h@), password@) == Ok::<(), AppErrorView>(()),
{
    match bcrypt_hash(password) {
        Ok(h) => Ok(h),
        Err(m) => Err(AppError::HashingError(m)),
    }
}

/// A sign-up is refused when the e-mail is already registered.
pub fn check_email_available(already_registered: bool) -> (r: Result<(), AppError>)
    ensures
        r is Ok <==> !already_registered,
        r matches Err(e) ==> e@ == AppErrorView::UserAlreadyExists,
{
    if already_registered {
        Err(AppError::UserAlreadyExists)
    } else {
        Ok(())
    }
}

} // verus!
