use readdeck::error::AppError;
use readdeck::vendor::{
    auto_approval_due, check_can_apply, check_no_bookstore, check_vendor_role, reported_status, BookstoreText,
};

#[test]
fn open_applications_block_new_ones() {
    assert_eq!(check_can_apply(None), Ok(()));
    assert_eq!(check_can_apply(Some("rejected")), Ok(()));
    assert_eq!(
        check_can_apply(Some("reviewing")),
        Err(AppError::ValidationError("You already have an application with status: reviewing".to_string()))
    );
    assert!(check_can_apply(Some("pending")).is_err());
    assert!(check_can_apply(Some("approved")).is_err());
}

#[test]
fn pending_applications_are_approved_after_a_minute() {
    assert!(!auto_approval_due("pending", 59));
    assert!(auto_approval_due("pending", 60));
    assert!(!auto_approval_due("rejected", 600));
    assert_eq!(reported_status("pending", 61), "approved");
    assert_eq!(reported_status("pending", 5), "pending");
    assert_eq!(reported_status("rejected", 500), "rejected");
    assert!(check_can_apply(Some(&reported_status("pending", 61))).is_err());
}

#[test]
fn only_vendors_open_one_bookstore() {
    assert_eq!(check_vendor_role(Some("vendor")), Ok(()));
    assert_eq!(check_vendor_role(Some("admin")), Ok(()));
    assert_eq!(
        check_vendor_role(Some("customer")),
        Err(AppError::Forbidden("Only vendors can create a bookstore".to_string()))
    );
    assert_eq!(check_vendor_role(None), Err(AppError::Unauthorized("User not found".to_string())));
    assert_eq!(check_no_bookstore(false), Ok(()));
    assert_eq!(
        check_no_bookstore(true),
        Err(AppError::ValidationError("You already have a bookstore registered.".to_string()))
    );
}

#[test]
fn bookstore_text_is_trimmed() {
    let t = BookstoreText {
        name: "  Ròbò Books ".to_string(),
        address: "3 Broad St\n".to_string(),
        city: " lagos".to_string(),
        district: "ikeja ".to_string(),
        description: "\tNew and used".to_string(),
        image_emoji: " 📚 ".to_string(),
        banner_color: "#aa00ff".to_string(),
        opening_hours: " 9-5 ".to_string(),
    }
    .trimmed();
    assert_eq!(t.name, "Ròbò Books");
    assert_eq!(t.address, "3 Broad St");
    assert_eq!(t.city, "lagos");
    assert_eq!(t.district, "ikeja");
    assert_eq!(t.description, "New and used");
    assert_eq!(t.image_emoji, "📚");
    assert_eq!(t.banner_color, "#aa00ff");
    assert_eq!(t.opening_hours, "9-5");
}

#[test]
fn no_user_ends_up_with_two_bookstores() {
    let mut owners: Vec<u32> = Vec::new();
    let attempts = [(1, Some("vendor")), (2, Some("customer")), (1, Some("vendor")), (3, Some("admin")), (3, Some("admin")), (4, None)];
    for (user, role) in attempts {
        let allowed = check_vendor_role(role).is_ok() && check_no_bookstore(owners.contains(&user)).is_ok();
        if allowed {
            owners.push(user);
        }
    }
    assert_eq!(owners, vec![1, 3]);
}
