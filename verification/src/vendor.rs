//! Vendor onboarding: applying to sell, the automatic approval of a
//! pending application, and who may open a bookstore.

use vstd::prelude::*;
use crate::error::{AppError, AppErrorView};
use crate::text::{same_text, joined, trimmed, trim};

verus! {

/// Body of a request to become a vendor.
pub struct VendorApplicationRequest {
    pub store_name: String,
    pub store_address: String,
    pub city: String,
    pub phone: String,
    pub description: Option<String>,
    pub instagram: Option<String>,
    pub website: Option<String>,
}

/// Statuses of an application that block a new one.
pub open spec fn blocks_new_application(status: Seq<char>) -> bool {
    status == "pending"@ || status == "reviewing"@ || status == "approved"@
}

/// A user may apply unless their latest application is pending, under
/// review or approved.
pub fn check_can_apply(latest_status: Option<&str>) -> (r: Result<(), AppError>)
    ensures
        match latest_status {
            Some(s) => if blocks_new_application(s@) {
                r matches Err(e) && e@ == AppErrorView::ValidationError(
                    "You already have an application with status: "@ + s@,
                )
            } else {
                r is Ok
            },
            None => r is Ok,
        },
{
    match latest_status {
        Some(s) => {
            if same_text(s, "pending") || same_text(s, "reviewing") || same_text(s, "approved") {
                Err(AppError::ValidationError(joined("You already have an application with status: ", s)))
            } else {
                Ok(())
            }
        },
        None => Ok(()),
    }
}

/// Seconds after submission at which a pending application is approved.
pub const AUTO_APPROVE_AFTER_SECONDS: i64 = 60;

/// A pending application is approved once a minute has passed since it was
/// submitted; an application in any other status is left as it is.
pub fn auto_approval_due(status: &str, elapsed_seconds: i64) -> (due: bool)
    ensures
        due == (status@ == "pending"@ && elapsed_seconds >= 60),
{
    same_text(status, "pending") && elapsed_seconds >= AUTO_APPROVE_AFTER_SECONDS
}

/// The status reported after polling an application.
pub open spec fn reported_status_of(status: Seq<char>, elapsed_seconds: i64) -> Seq<char> {
    if status == "pending"@ && elapsed_seconds >= 60 {
        "approved"@
    } else {
        status
    }
}

/// The status reported after polling: approved when the approval is due,
/// otherwise the stored status.
pub fn reported_status(status: &str, elapsed_seconds: i64) -> (s: String)
    ensures
        s@ == reported_status_of(status@, elapsed_seconds),
{
    if auto_approval_due(status, elapsed_seconds) {
        "approved".to_owned()
    } else {
        status.to_owned()
    }
}

/// Polling changes the reported status only for a pending application
/// once a minute has passed, and then to "approved"; every other status,
/// and a pending one polled earlier, is reported as stored.
pub proof fn lemma_only_pending_is_auto_approved(status: Seq<char>, elapsed_seconds: i64)
    ensures
        reported_status_of(status, elapsed_seconds) != status ==> status == "pending"@ && elapsed_seconds >= 60,
        status != "pending"@ ==> reported_status_of(status, elapsed_seconds) == status,
        elapsed_seconds < 60 ==> reported_status_of(status, elapsed_seconds) == status,
        status == "pending"@ && elapsed_seconds >= 60 ==> reported_status_of(status, elapsed_seconds) == "approved"@,
{
}

/// An application that blocks a new one still blocks it after polling,
/// whether or not its automatic approval came due.
pub proof fn lemma_pending_application_blocks_reapplying(status: Seq<char>, elapsed_seconds: i64)
    requires
        blocks_new_application(status),
    ensures
        blocks_new_application(reported_status_of(status, elapsed_seconds)),
{
}

/// Whether a user with this role (`None` for an unknown user) may open a
/// bookstore.
pub open spec fn role_may_open(role: Option<Seq<char>>) -> bool {
    role matches Some(x) && (x == "vendor"@ || x == "admin"@)
}

/// Only vendors and admins may open a bookstore; an unknown user is
/// unauthorized.
pub fn check_vendor_role(role: Option<&str>) -> (r: Result<(), AppError>)
    ensures
        r is Ok <==> role_may_open(match role { Some(x) => Some(x@), None => None }),
        match role {
            None => r matches Err(e) && e@ == AppErrorView::Unauthorized("User not found"@),
            Some(x) => if x@ == "vendor"@ || x@ == "admin"@ {
                r is Ok
            } else {
                r matches Err(e) && e@ == AppErrorView::Forbidden("Only vendors can create a bookstore"@)
            },
        },
{
    match role {
        None => Err(AppError::Unauthorized("User not found".to_owned())),
        Some(x) => {
            if !same_text(x, "vendor") && !same_text(x, "admin") {
                Err(AppError::Forbidden("Only vendors can create a bookstore".to_owned()))
            } else {
                Ok(())
            }
        },
    }
}

/// A vendor owns at most one bookstore.
pub fn check_no_bookstore(already_owns_one: bool) -> (r: Result<(), AppError>)
    ensures
        r is Ok <==> !already_owns_one,
        r matches Err(e) ==> e@ == AppErrorView::ValidationError("You already have a bookstore registered."@),
{
    if already_owns_one {
        Err(AppError::ValidationError("You already have a bookstore registered.".to_owned()))
    } else {
        Ok(())
    }
}

// ── One bookstore per user ─────────────────────────────────────────────────
//
// The stored bookstores are modelled by their owners' ids, one entry per
// bookstore.

/// No user owns two bookstores.
pub open spec fn one_store_each(owners: Seq<u128>) -> bool {
    forall|i: int, j: int| 0 <= i < owners.len() && 0 <= j < owners.len()
        && #[trigger] owners[i] == #[trigger] owners[j] ==> i == j
}

/// The owners after `user`, with the given role, asks to open a bookstore:
/// a new entry only when the role allows it and the user owns none yet
/// (the two checks `check_vendor_role` and `check_no_bookstore` make).
pub open spec fn after_open_bookstore(owners: Seq<u128>, user: u128, role: Option<Seq<char>>) -> Seq<u128> {
    if role_may_open(role) && !owners.contains(user) {
        owners.push(user)
    } else {
        owners
    }
}

/// Opening bookstores never gives a user a second one; a user who already
/// owns one is refused and nothing is stored.
pub proof fn lemma_one_bookstore_per_user(owners: Seq<u128>, user: u128, role: Option<Seq<char>>)
    requires
        one_store_each(owners),
    ensures
        one_store_each(after_open_bookstore(owners, user, role)),
        owners.contains(user) ==> after_open_bookstore(owners, user, role) == owners,
{
    if role_may_open(role) && !owners.contains(user) {
        let next = owners.push(user);
        assert forall|i: int, j: int| 0 <= i < next.len() && 0 <= j < next.len()
            && #[trigger] next[i] == #[trigger] next[j] implies i == j by {
            if i < owners.len() && j == owners.len() {
                assert(owners[i] == user);
            } else if j < owners.len() && i == owners.len() {
                assert(owners[j] == user);
            } else if i < owners.len() && j < owners.len() {
                assert(owners[i] == owners[j]);
            }
        }
    }
}

/// The text fields of a new bookstore as the vendor typed them.
pub struct BookstoreText {
    pub name: String,
    pub address: String,
    pub city: String,
    pub district: String,
    pub description: String,
    pub image_emoji: String,
    pub banner_color: String,
    pub opening_hours: String,
}

impl BookstoreText {
    /// The fields as stored: each with surrounding whitespace removed.
    pub fn trimmed(&self) -> (t: BookstoreText)
        ensures
            t.name@ == trim(self.name@),
            t.address@ == trim(self.address@),
            t.city@ == trim(self.city@),
            t.district@ == trim(self.district@),
            t.description@ == trim(self.description@),
            t.image_emoji@ == trim(self.image_emoji@),
            t.banner_color@ == trim(self.banner_color@),
            t.opening_hours@ == trim(self.opening_hours@),
    {
        BookstoreText {
            name: trimmed(self.name.as_str()),
            address: trimmed(self.address.as_str()),
            city: trimmed(self.city.as_str()),
            district: trimmed(self.district.as_str()),
            description: trimmed(self.description.as_str()),
            image_emoji: trimmed(self.image_emoji.as_str()),
            banner_color: trimmed(self.banner_color.as_str()),
            opening_hours: trimmed(self.opening_hours.as_str()),
        }
    }
}

} // verus!
