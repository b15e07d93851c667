//! Field rules of the request bodies, with the same codes, messages and
//! bounds that the service reports when a rule is broken.

use vstd::prelude::*;
use crate::text::{
    chars_of, is_alphanumeric, is_uppercase, is_lowercase, is_numeric, char_alphanumeric,
    char_uppercase, char_lowercase, char_numeric,
};

verus! {

// ── Single-field checks ────────────────────────────────────────────────────

/// Whether `validator::validate_email` accepts a string with these characters
/// (the HTML5 e-mail grammar, with IDN and address-literal domains).
pub uninterp spec fn email_valid(s: Seq<char>) -> bool;

/// Calls `validator::validate_email`. Its grammar is only named; the one fact
/// stated is the early rejection that the source shows: without an `@` the
/// answer is `false`.
#[verifier::external_body]
fn validate_email(s: &str) -> (b: bool)
    ensures
        b == email_valid(s@),
        b ==> s@.contains('@'),
{
    validator::validate_email(s)
}

/// Whether the character count of `s` lies within `[min, max]`
/// (no upper bound when `max` is `None`).
pub open spec fn length_ok(s: Seq<char>, min: u64, max: Option<u64>) -> bool {
    min <= s.len() && (max matches Some(m) ==> s.len() <= m)
}

/// The `length` rule: counts the characters of `s` (not its bytes) and
/// compares the count with `min` and, where there is one, `max`.
pub fn validate_length(s: &str, min: u64, max: Option<u64>) -> (b: bool)
    ensures
        b == length_ok(s@, min, max),
{
    let n: u64 = chars_of(s).len() as u64;
    if n < min {
        return false;
    }
    match max {
        Some(m) => n <= m,
        None => true,
    }
}

// ── Violations ─────────────────────────────────────────────────────────────

/// A broken rule: its code, its message (if the rule has one) and the
/// bounds of a length rule.
pub struct ValidationError {
    pub code: String,
    pub message: Option<String>,
    pub min: Option<u64>,
    pub max: Option<u64>,
}

/// A broken rule together with the field it was checked on.
pub struct FieldError {
    pub field: String,
    pub error: ValidationError,
}

/// The mathematical content of a `ValidationError`.
pub struct Violation {
    pub code: Seq<char>,
    pub message: Option<Seq<char>>,
    pub min: Option<u64>,
    pub max: Option<u64>,
}

/// The mathematical content of a `FieldError`.
pub struct FieldViolation {
    pub field: Seq<char>,
    pub violation: Violation,
}

pub open spec fn opt_view(o: Option<String>) -> Option<Seq<char>> {
    match o {
        Some(s) => Some(s@),
        None => None,
    }
}

impl View for ValidationError {
    type V = Violation;

    open spec fn view(&self) -> Violation {
        Violation { code: self.code@, message: opt_view(self.message), min: self.min, max: self.max }
    }
}

impl View for FieldError {
    type V = FieldViolation;

    open spec fn view(&self) -> FieldViolation {
        FieldViolation { field: self.field@, violation: self.error@ }
    }
}

/// The views of a list of field errors.
pub open spec fn field_views(v: Seq<FieldError>) -> Seq<FieldViolation> {
    v.map_values(|e: FieldError| e@)
}

/// A violated length rule.
pub open spec fn length_violation(message: Option<Seq<char>>, min: u64, max: Option<u64>) -> Violation {
    Violation { code: "length"@, message, min: Some(min), max }
}

/// A violated rule without bounds.
pub open spec fn plain_violation(code: Seq<char>, message: Option<Seq<char>>) -> Violation {
    Violation { code, message, min: None, max: None }
}

/// The one-element list `[field: v]` when `ok` fails, else the empty list.
pub open spec fn unless(ok: bool, field: Seq<char>, v: Violation) -> Seq<FieldViolation> {
    if ok {
        Seq::empty()
    } else {
        seq![FieldViolation { field, violation: v }]
    }
}

/// The outcome that a list of violations gives: success when it is empty.
pub open spec fn outcome_matches(r: Result<(), Vec<FieldError>>, expected: Seq<FieldViolation>) -> bool {
    match r {
        Ok(()) => expected.len() == 0,
        Err(errs) => expected.len() > 0 && field_views(errs@) == expected,
    }
}

pub(crate) fn record(errs: &mut Vec<FieldError>, ok: bool, field: &str, code: &str, message: Option<&str>, min: Option<u64>, max: Option<u64>)
    ensures
        field_views(final(errs)@) == field_views(old(errs)@) + unless(
            ok,
            field@,
            Violation {
                code: code@,
                message: match message { Some(m) => Some(m@), None => None },
                min,
                max,
            },
        ),
{
    let ghost before = field_views(errs@);
    if !ok {
        let message = match message {
            Some(m) => Some(m.to_owned()),
            None => None,
        };
        let e = FieldError {
            field: field.to_owned(),
            error: ValidationError { code: code.to_owned(), message, min, max },
        };
        errs.push(e);
        assert(field_views(errs@) =~= before.push(errs@.last()@));
    } else {
        assert(field_views(errs@) =~= before);
    }
}

pub(crate) fn finish(errs: Vec<FieldError>) -> (r: Result<(), Vec<FieldError>>)
    ensures
        outcome_matches(r, field_views(errs@)),
{
    if errs.len() == 0 {
        Ok(())
    } else {
        Err(errs)
    }
}

// ── Custom rules ───────────────────────────────────────────────────────────

/// The username rule: only letters, numbers and underscores.
pub open spec fn username_chars_ok(u: Seq<char>) -> bool {
    forall|i: int| 0 <= i < u.len() ==> char_alphanumeric(#[trigger] u[i]) || u[i] == '_'
}

/// The password rule: an uppercase letter, a lowercase letter and a number.
pub open spec fn password_strong(p: Seq<char>) -> bool {
    &&& exists|i: int| 0 <= i < p.len() && char_uppercase(#[trigger] p[i])
    &&& exists|i: int| 0 <= i < p.len() && char_lowercase(#[trigger] p[i])
    &&& exists|i: int| 0 <= i < p.len() && char_numeric(#[trigger] p[i])
}

pub open spec fn username_rule_code() -> Seq<char> {
    "Username can only contain letters, numbers and underscores"@
}

pub open spec fn password_rule_code() -> Seq<char> {
    "Password must contain at least one uppercase letter, one lowercase letter, and one number"@
}

/// Checks the username rule; a broken rule carries its text as its code.
pub fn validate_username(username: &str) -> (r: Result<(), ValidationError>)
    ensures
        r is Ok <==> username_chars_ok(username@),
        r matches Err(e) ==> e@ == plain_violation(username_rule_code(), None),
{
    let v = chars_of(username);
    let mut i: usize = 0;
    while i < v.len()
        invariant
            v@ == username@,
            i <= v.len(),
            forall|k: int| 0 <= k < i ==> char_alphanumeric(#[trigger] v@[k]) || v@[k] == '_',
        decreases v.len() - i,
    {
        if !(is_alphanumeric(v[i]) || v[i] == '_') {
            return Err(ValidationError {
                code: "Username can only contain letters, numbers and underscores".to_owned(),
                message: None,
                min: None,
                max: None,
            });
        }
        i = i + 1;
    }
    Ok(())
}

/// Checks the password-strength rule; a broken rule carries its text as its code.
pub fn validate_password_strength(password: &str) -> (r: Result<(), ValidationError>)
    ensures
        r is Ok <==> password_strong(password@),
        r matches Err(e) ==> e@ == plain_violation(password_rule_code(), None),
{
    let v = chars_of(password);
    let mut upper = false;
    let mut lower = false;
    let mut number = false;
    let mut i: usize = 0;
    while i < v.len()
        invariant
            v@ == password@,
            i <= v.len(),
            upper <==> exists|k: int| 0 <= k < i && char_uppercase(#[trigger] v@[k]),
            lower <==> exists|k: int| 0 <= k < i && char_lowercase(#[trigger] v@[k]),
            number <==> exists|k: int| 0 <= k < i && char_numeric(#[trigger] v@[k]),
        decreases v.len() - i,
    {
        let c = v[i];
        if is_uppercase(c) {
            upper = true;
        }
        if is_lowercase(c) {
            lower = true;
        }
        if is_numeric(c) {
            number = true;
        }
        i = i + 1;
    }
    if upper && lower && number {
        Ok(())
    } else {
        Err(ValidationError {
            code: "Password must contain at least one uppercase letter, one lowercase letter, and one number".to_owned(),
            message: None,
            min: None,
            max: None,
        })
    }
}

/// A username is refused exactly when one of its characters is neither a
/// letter or number nor `_`; so a single such character (a `.`, a space, a
/// `-`) anywhere in it is enough to refuse it.
pub proof fn lemma_username_refused_iff_stray_char(u: Seq<char>)
    ensures
        !username_chars_ok(u) <==> exists|i: int| 0 <= i < u.len() && !char_alphanumeric(#[trigger] u[i]) && u[i] != '_',
        forall|i: int| 0 <= i < u.len() && !char_alphanumeric(#[trigger] u[i]) && u[i] != '_' ==> !username_chars_ok(u),
{
    if !username_chars_ok(u) {
        let i = choose|i: int| 0 <= i < u.len() && !(char_alphanumeric(#[trigger] u[i]) || u[i] == '_');
        assert(!char_alphanumeric(u[i]) && u[i] != '_');
    }
}

/// A password is strong exactly when it has an uppercase letter, a
/// lowercase letter and a number somewhere in it; missing any one of the
/// three makes it weak, whatever else it holds.
pub proof fn lemma_password_strong_iff_three_kinds(p: Seq<char>)
    ensures
        password_strong(p) <==> {
            &&& exists|i: int| 0 <= i < p.len() && char_uppercase(#[trigger] p[i])
            &&& exists|j: int| 0 <= j < p.len() && char_lowercase(#[trigger] p[j])
            &&& exists|k: int| 0 <= k < p.len() && char_numeric(#[trigger] p[k])
        },
        (forall|i: int| 0 <= i < p.len() ==> !char_uppercase(#[trigger] p[i])) ==> !password_strong(p),
        (forall|i: int| 0 <= i < p.len() ==> !char_lowercase(#[trigger] p[i])) ==> !password_strong(p),
        (forall|i: int| 0 <= i < p.len() ==> !char_numeric(#[trigger] p[i])) ==> !password_strong(p),
{
}

// ── Sign-up and login ──────────────────────────────────────────────────────

/// Body of a sign-up request.
pub struct SignupRequest {
    pub username: String,
    pub email: String,
    pub password: String,
}

/// Body of a login request.
pub struct LoginRequest {
    pub email: String,
    pub password: String,
}

pub open spec fn email_violations(e: Seq<char>) -> Seq<FieldViolation> {
    unless(email_valid(e), "email"@, plain_violation("email"@, Some("Please provide a valid email address"@)))
}

/// Every rule a sign-up body breaks, field by field in declaration order.
pub open spec fn signup_violations(u: Seq<char>, e: Seq<char>, p: Seq<char>) -> Seq<FieldViolation> {
    unless(length_ok(u, 3, Some(50u64)), "username"@,
        length_violation(Some("Username must be between 3 and 50 characters"@), 3, Some(50u64)))
    + unless(username_chars_ok(u), "username"@, plain_violation(username_rule_code(), None))
    + email_violations(e)
    + unless(length_ok(p, 8, None), "password"@,
        length_violation(Some("Password must be at least 8 characters"@), 8, None))
    + unless(password_strong(p), "password"@, plain_violation(password_rule_code(), None))
}

/// Every rule a login body breaks.
pub open spec fn login_violations(e: Seq<char>, p: Seq<char>) -> Seq<FieldViolation> {
    email_violations(e)
    + unless(length_ok(p, 1, None), "password"@,
        length_violation(Some("Password cannot be empty"@), 1, None))
}

/// A sign-up body is accepted exactly when the username has 3 to 50
/// characters, all letters, numbers or underscores, the e-mail is valid,
/// and the password has at least 8 characters including an uppercase
/// letter, a lowercase letter and a number.
pub proof fn lemma_signup_accepted_iff_rules(u: Seq<char>, e: Seq<char>, p: Seq<char>)
    ensures
        signup_violations(u, e, p).len() == 0 <==> {
            &&& 3 <= u.len() <= 50
            &&& username_chars_ok(u)
            &&& email_valid(e)
            &&& p.len() >= 8
            &&& password_strong(p)
        },
{
}

/// A login body is accepted exactly when the e-mail is valid and the
/// password is not empty.
pub proof fn lemma_login_accepted_iff_rules(e: Seq<char>, p: Seq<char>)
    ensures
        login_violations(e, p).len() == 0 <==> (email_valid(e) && p.len() >= 1),
{
}

fn check_email(errs: &mut Vec<FieldError>, email: &str)
    ensures
        field_views(final(errs)@) == field_views(old(errs)@) + email_violations(email@),
{
    let ok = validate_email(email);
    record(errs, ok, "email", "email", Some("Please provide a valid email address"), None, None);
}

impl SignupRequest {
    /// Checks every rule of the body; fails with all broken rules.
    pub fn validate(&self) -> (r: Result<(), Vec<FieldError>>)
        ensures
            outcome_matches(r, signup_violations(self.username@, self.email@, self.password@)),
    {
        let mut errs: Vec<FieldError> = Vec::new();
        let ok = validate_length(self.username.as_str(), 3, Some(50));
        record(&mut errs, ok, "username", "length", Some("Username must be between 3 and 50 characters"), Some(3), Some(50));
        let ok = validate_username(self.username.as_str()).is_ok();
        record(&mut errs, ok, "username", "Username can only contain letters, numbers and underscores", None, None, None);
        check_email(&mut errs, self.email.as_str());
        let ok = validate_length(self.password.as_str(), 8, None);
        record(&mut errs, ok, "password", "length", Some("Password must be at least 8 characters"), Some(8), None);
        let ok = validate_password_strength(self.password.as_str()).is_ok();
        record(&mut errs, ok, "password", "Password must contain at least one uppercase letter, one lowercase letter, and one number", None, None, None);
        assert(field_views(errs@) =~= signup_violations(self.username@, self.email@, self.password@));
        finish(errs)
    }
}

impl LoginRequest {
    /// Checks every rule of the body; fails with all broken rules.
    pub fn validate(&self) -> (r: Result<(), Vec<FieldError>>)
        ensures
            outcome_matches(r, login_violations(self.email@, self.password@)),
    {
        let mut errs: Vec<FieldError> = Vec::new();
        check_email(&mut errs, self.email.as_str());
        let ok = validate_length(self.password.as_str(), 1, None);
        record(&mut errs, ok, "password", "length", Some("Password cannot be empty"), Some(1), None);
        assert(field_views(errs@) =~= login_violations(self.email@, self.password@));
        finish(errs)
    }
}

} // verus!
