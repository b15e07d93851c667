//! Saved delivery addresses: the rules of the request bodies and the
//! decisions about which address is the default.

use vstd::prelude::*;
use crate::error::{AppError, AppErrorView};
use crate::validation::{
    FieldError, FieldViolation, Violation, length_ok, length_violation, unless, outcome_matches,
    field_views, validate_length, record, finish,
};

verus! {

/// Body of a request that saves a new address.
pub struct CreateAddressRequest {
    pub label: String,
    pub address: String,
    pub city: String,
    pub phone: String,
    pub is_default: Option<bool>,
}

/// Body of a request that changes some fields of a saved address.
pub struct UpdateAddressRequest {
    pub label: Option<String>,
    pub address: Option<String>,
    pub city: Option<String>,
    pub phone: Option<String>,
    pub is_default: Option<bool>,
}

/// Every rule a new address breaks, field by field.
pub open spec fn create_violations(label: Seq<char>, address: Seq<char>, city: Seq<char>, phone: Seq<char>) -> Seq<FieldViolation> {
    unless(length_ok(label, 1, Some(50u64)), "label"@,
        length_violation(Some("Label must be between 1 and 50 characters"@), 1, Some(50u64)))
    + unless(length_ok(address, 5, None), "address"@,
        length_violation(Some("Address must be at least 5 characters"@), 5, None))
    + unless(length_ok(city, 1, None), "city"@,
        length_violation(Some("City is required"@), 1, None))
    + unless(length_ok(phone, 7, None), "phone"@,
        length_violation(Some("Phone number must be at least 7 characters"@), 7, None))
}

/// The violations of an optional field: none when the field is absent.
pub open spec fn optional_violation(v: Option<String>, field: Seq<char>, min: u64, max: Option<u64>) -> Seq<FieldViolation> {
    match v {
        Some(s) => unless(length_ok(s@, min, max), field, length_violation(None, min, max)),
        None => Seq::empty(),
    }
}

/// Every rule a change of address breaks; absent fields break none.
pub open spec fn update_violations(r: UpdateAddressRequest) -> Seq<FieldViolation> {
    optional_violation(r.label, "label"@, 1, Some(50u64))
    + optional_violation(r.address, "address"@, 5, None)
    + optional_violation(r.city, "city"@, 1, None)
    + optional_violation(r.phone, "phone"@, 7, None)
}

fn check_optional(errs: &mut Vec<FieldError>, v: &Option<String>, field: &str, min: u64, max: Option<u64>)
    ensures
        field_views(final(errs)@) == field_views(old(errs)@) + optional_violation(*v, field@, min, max),
{
    match v {
        Some(s) => {
            let ok = validate_length(s.as_str(), min, max);
            record(errs, ok, field, "length", None, Some(min), max);
        },
        None => {
            assert(field_views(errs@) =~= field_views(errs@) + Seq::<FieldViolation>::empty());
        },
    }
}

impl CreateAddressRequest {
    /// Checks every rule of the body; fails with all broken rules.
    pub fn validate(&self) -> (r: Result<(), Vec<FieldError>>)
        ensures
            outcome_matches(r, create_violations(self.label@, self.address@, self.city@, self.phone@)),
    {
        let mut errs: Vec<FieldError> = Vec::new();
        let ok = validate_length(self.label.as_str(), 1, Some(50));
        record(&mut errs, ok, "label", "length", Some("Label must be between 1 and 50 characters"), Some(1), Some(50));
        let ok = validate_length(self.address.as_str(), 5, None);
        record(&mut errs, ok, "address", "length", Some("Address must be at least 5 characters"), Some(5), None);
        let ok = validate_length(self.city.as_str(), 1, None);
        record(&mut errs, ok, "city", "length", Some("City is required"), Some(1), None);
        let ok = validate_length(self.phone.as_str(), 7, None);
        record(&mut errs, ok, "phone", "length", Some("Phone number must be at least 7 characters"), Some(7), None);
        assert(field_views(errs@) =~= create_violations(self.label@, self.address@, self.city@, self.phone@));
        finish(errs)
    }

    /// Whether the new address becomes the default: when asked for, and
    /// always when the user has no saved address yet.
    pub fn becomes_default(&self, existing_count: i64) -> (d: bool)
        ensures
            d == create_makes_default(self.is_default, existing_count as int),
    {
        let make_default = match self.is_default {
            Some(b) => b,
            None => false,
        };
        make_default || existing_count == 0
    }
}

impl UpdateAddressRequest {
    /// Checks every rule of the fields present; fails with all broken rules.
    pub fn validate(&self) -> (r: Result<(), Vec<FieldError>>)
        ensures
            outcome_matches(r, update_violations(*self)),
    {
        let mut errs: Vec<FieldError> = Vec::new();
        check_optional(&mut errs, &self.label, "label", 1, Some(50));
        check_optional(&mut errs, &self.address, "address", 5, None);
        check_optional(&mut errs, &self.city, "city", 1, None);
        check_optional(&mut errs, &self.phone, "phone", 7, None);
        assert(field_views(errs@) =~= update_violations(*self));
        finish(errs)
    }

    /// Whether the other addresses lose their default mark before the
    /// update: only when this one is explicitly made the default.
    pub fn clears_other_defaults(&self) -> (c: bool)
        ensures
            c == update_clears_defaults(self.is_default),
    {
        match self.is_default {
            Some(b) => b,
            None => false,
        }
    }
}

/// The answer to a delete, given the default mark of the row it removed
/// (`None` when no row of the user had that id): whether the most recent
/// remaining address must be made the default, which is needed exactly when
/// the removed one was the default.
pub fn delete_outcome(deleted_was_default: Option<bool>) -> (r: Result<bool, AppError>)
    ensures
        r is Ok <==> deleted_was_default is Some,
        r matches Ok(p) ==> p == promotes_after_delete(deleted_was_default),
        r matches Err(e) ==> e@ == AppErrorView::ValidationError("Address not found"@),
{
    match deleted_was_default {
        None => Err(AppError::ValidationError("Address not found".to_owned())),
        Some(was_default) => Ok(was_default),
    }
}

// ── The default address ────────────────────────────────────────────────────
//
// A user's saved addresses are modelled by their default marks, in the
// order in which they were created (so the last one is the most recent).

/// Whether a new address is saved as the default, given what the request
/// asked for and how many addresses the user already has.
pub open spec fn create_makes_default(requested: Option<bool>, existing: int) -> bool {
    requested == Some(true) || existing == 0
}

/// Whether an update first takes the default mark off every address.
pub open spec fn update_clears_defaults(requested: Option<bool>) -> bool {
    requested == Some(true)
}

/// Whether a delete promotes the most recent remaining address.
pub open spec fn promotes_after_delete(deleted_was_default: Option<bool>) -> bool {
    deleted_was_default == Some(true)
}

/// At most one address is the default.
pub open spec fn single_default(marks: Seq<bool>) -> bool {
    forall|i: int, j: int| 0 <= i < marks.len() && 0 <= j < marks.len() && #[trigger] marks[i] && #[trigger] marks[j] ==> i == j
}

/// The marks once every default mark has been taken off.
pub open spec fn cleared(marks: Seq<bool>) -> Seq<bool> {
    Seq::new(marks.len(), |i: int| false)
}

/// The marks after saving a new address.
pub open spec fn after_create(marks: Seq<bool>, requested: Option<bool>) -> Seq<bool> {
    let d = create_makes_default(requested, marks.len() as int);
    (if d { cleared(marks) } else { marks }).push(d)
}

/// The marks after updating address `k`; the mark asked for, if any,
/// replaces its own.
pub open spec fn after_update(marks: Seq<bool>, k: int, requested: Option<bool>) -> Seq<bool> {
    let base = if update_clears_defaults(requested) { cleared(marks) } else { marks };
    match requested {
        Some(b) => base.update(k, b),
        None => base,
    }
}

/// The marks after making address `k` the default.
pub open spec fn after_set_default(marks: Seq<bool>, k: int) -> Seq<bool> {
    cleared(marks).update(k, true)
}

/// The marks after deleting address `k`.
pub open spec fn after_delete(marks: Seq<bool>, k: int) -> Seq<bool> {
    let rest = marks.remove(k);
    if promotes_after_delete(Some(marks[k])) && rest.len() > 0 {
        rest.update(rest.len() - 1, true)
    } else {
        rest
    }
}

/// A new address becomes the default when the request asks for it, and
/// when it is the user's first; otherwise (no request, or a request for no
/// default, with at least one address saved) it does not, and whichever
/// address was the default keeps its mark.
pub proof fn lemma_new_address_default_rule(marks: Seq<bool>, requested: Option<bool>, j: int)
    ensures
        requested == Some(true) ==> create_makes_default(requested, marks.len() as int),
        marks.len() == 0 ==> create_makes_default(requested, marks.len() as int),
        requested != Some(true) && marks.len() >= 1 ==> !create_makes_default(requested, marks.len() as int),
        requested != Some(true) && 0 <= j < marks.len() && marks[j] ==> after_create(marks, requested)[j],
        requested != Some(true) && marks.len() >= 1 ==> !after_create(marks, requested).last(),
{
}

/// An update is accepted exactly when every field it carries meets its
/// rule: a label of 1 to 50 characters, an address of at least 5, a city of
/// at least 1 and a phone number of at least 7; absent fields are not
/// checked. A phone number that is too short is reported on the `phone`
/// field as a length error with minimum 7.
pub proof fn lemma_update_accepted_iff_fields_ok(r: UpdateAddressRequest)
    ensures
        update_violations(r).len() == 0 <==> {
            &&& (r.label matches Some(l) ==> 1 <= l@.len() <= 50)
            &&& (r.address matches Some(a) ==> a@.len() >= 5)
            &&& (r.city matches Some(c) ==> c@.len() >= 1)
            &&& (r.phone matches Some(p) ==> p@.len() >= 7)
        },
        (r.phone matches Some(p) && p@.len() < 7) ==> update_violations(r).last() == (FieldViolation {
            field: "phone"@,
            violation: Violation { code: "length"@, message: None, min: Some(7u64), max: None },
        }),
{
}

/// A new address is accepted exactly when its label has 1 to 50
/// characters, its address at least 5, its city at least 1 and its phone
/// number at least 7.
pub proof fn lemma_create_accepted_iff_fields_ok(label: Seq<char>, address: Seq<char>, city: Seq<char>, phone: Seq<char>)
    ensures
        create_violations(label, address, city, phone).len() == 0 <==> {
            &&& 1 <= label.len() <= 50
            &&& address.len() >= 5
            &&& city.len() >= 1
            &&& phone.len() >= 7
        },
{
}

/// Saving an address keeps at most one default; the new address is the
/// default when asked for or when it is the first, and then the only one.
pub proof fn lemma_create_keeps_single_default(marks: Seq<bool>, requested: Option<bool>)
    requires
        single_default(marks),
    ensures
        single_default(after_create(marks, requested)),
        after_create(marks, requested).len() == marks.len() + 1,
        after_create(marks, requested).last() == create_makes_default(requested, marks.len() as int),
        create_makes_default(requested, marks.len() as int) ==> forall|i: int|
            0 <= i < marks.len() ==> !#[trigger] after_create(marks, requested)[i],
{
}

/// Updating an address keeps at most one default; asking for the mark
/// leaves that address the only default.
pub proof fn lemma_update_keeps_single_default(marks: Seq<bool>, k: int, requested: Option<bool>)
    requires
        single_default(marks),
        0 <= k < marks.len(),
    ensures
        single_default(after_update(marks, k, requested)),
        requested == Some(true) ==> forall|i: int|
            0 <= i < marks.len() ==> (#[trigger] after_update(marks, k, requested)[i] <==> i == k),
{
}

/// Making an address the default leaves it the only default.
pub proof fn lemma_set_default_single(marks: Seq<bool>, k: int)
    requires
        0 <= k < marks.len(),
    ensures
        single_default(after_set_default(marks, k)),
        forall|i: int| 0 <= i < marks.len() ==> (#[trigger] after_set_default(marks, k)[i] <==> i == k),
{
}

/// Deleting an address keeps at most one default; when the default is
/// deleted and addresses remain, the most recent one becomes the default.
pub proof fn lemma_delete_keeps_single_default(marks: Seq<bool>, k: int)
    requires
        single_default(marks),
        0 <= k < marks.len(),
    ensures
        single_default(after_delete(marks, k)),
        after_delete(marks, k).len() == marks.len() - 1,
        marks[k] && marks.len() > 1 ==> forall|i: int| 0 <= i < marks.len() - 1 ==>
            (#[trigger] after_delete(marks, k)[i] <==> i == marks.len() - 2),
{
    let rest = marks.remove(k);
    if marks[k] {
        assert forall|i: int| 0 <= i < rest.len() implies !#[trigger] rest[i] by {
            let j = if i < k { i } else { i + 1 };
            assert(rest[i] == marks[j]);
            assert(marks[k]);
        }
    } else {
        assert forall|i: int, j: int| 0 <= i < rest.len() && 0 <= j < rest.len() && #[trigger] rest[i] && #[trigger] rest[j] implies i == j by {
            let a = if i < k { i } else { i + 1 };
            let b = if j < k { j } else { j + 1 };
            assert(rest[i] == marks[a]);
            assert(rest[j] == marks[b]);
        }
    }
}

} // verus!
