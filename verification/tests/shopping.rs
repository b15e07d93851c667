use readdeck::cart::{check_quantity, existing_or_create, item_count, AddToCartRequest, Lookup, UpdateQuantityRequest};
use readdeck::address::{delete_outcome, CreateAddressRequest, UpdateAddressRequest};
use readdeck::error::AppError;

#[test]
fn quantities_must_be_positive() {
    assert_eq!(check_quantity(1), Ok(()));
    assert_eq!(check_quantity(0), Err(AppError::ValidationError("Quantity must be at least 1".to_string())));
    assert!(UpdateQuantityRequest { quantity: -2 }.check().is_err());
    assert!(AddToCartRequest { book_id: 1, quantity: 3 }.check().is_ok());
    let r = AddToCartRequest::one_copy(77);
    assert_eq!((r.book_id, r.quantity), (77, 1));
}

#[test]
fn cart_item_count_is_the_sum_of_quantities() {
    assert_eq!(item_count(&vec![]), Some(0));
    assert_eq!(item_count(&vec![2, 1, 5]), Some(8));
    assert_eq!(item_count(&vec![i32::MAX, 1]), None);
    assert_eq!(item_count(&vec![i32::MAX, -1]), Some(i32::MAX - 1));
}

#[test]
fn carts_are_reused() {
    assert!(matches!(existing_or_create(Some(5)), Lookup::Existing(5)));
    assert!(matches!(existing_or_create(None), Lookup::Create));
}

fn create(label: &str, address: &str, city: &str, phone: &str, is_default: Option<bool>) -> CreateAddressRequest {
    CreateAddressRequest {
        label: label.to_string(),
        address: address.to_string(),
        city: city.to_string(),
        phone: phone.to_string(),
        is_default,
    }
}

#[test]
fn address_rules() {
    assert!(create("Home", "12 Allen Avenue", "Lagos", "08031234567", None).validate().is_ok());
    let errs = create("", "12", "", "123", None).validate().unwrap_err();
    let fields: Vec<&str> = errs.iter().map(|e| e.field.as_str()).collect();
    assert_eq!(fields, vec!["label", "address", "city", "phone"]);
    assert_eq!(errs[2].error.message.as_deref(), Some("City is required"));
    assert_eq!(errs[3].error.message.as_deref(), Some("Phone number must be at least 7 characters"));
}

#[test]
fn first_address_becomes_default() {
    let r = create("Home", "12 Allen Avenue", "Lagos", "08031234567", None);
    assert!(r.becomes_default(0));
    assert!(!r.becomes_default(2));
    let r = create("Work", "5 Marina Road", "Lagos", "08031234567", Some(true));
    assert!(r.becomes_default(3));
    let r = create("Work", "5 Marina Road", "Lagos", "08031234567", Some(false));
    assert!(r.becomes_default(0));
}

#[test]
fn address_updates() {
    let u = UpdateAddressRequest { label: None, address: Some("1234".to_string()), city: None, phone: None, is_default: Some(true) };
    let errs = u.validate().unwrap_err();
    assert_eq!(errs.len(), 1);
    assert_eq!(errs[0].field, "address");
    assert!(errs[0].error.message.is_none());
    assert_eq!(errs[0].error.min, Some(5));
    assert!(u.clears_other_defaults());
    let u = UpdateAddressRequest { label: None, address: None, city: None, phone: None, is_default: Some(false) };
    assert!(u.validate().is_ok());
    assert!(!u.clears_other_defaults());
    assert_eq!(delete_outcome(Some(true)), Ok(true));
    assert_eq!(delete_outcome(Some(false)), Ok(false));
    assert_eq!(delete_outcome(None), Err(AppError::ValidationError("Address not found".to_string())));
}

fn defaults(marks: &[bool]) -> usize {
    marks.iter().filter(|m| **m).count()
}

#[test]
fn at_most_one_default_address() {
    let mut marks: Vec<bool> = Vec::new();
    for (i, asked) in [None, Some(true), None, Some(false), Some(true)].into_iter().enumerate() {
        let r = create("Addr", "12 Allen Avenue", "Lagos", "08031234567", asked);
        let d = r.becomes_default(marks.len() as i64);
        if d {
            marks.iter_mut().for_each(|m| *m = false);
        }
        marks.push(d);
        assert!(defaults(&marks) <= 1, "after create {}", i);
    }
    assert_eq!(marks, vec![false, false, false, false, true]);
    let u = UpdateAddressRequest { label: None, address: None, city: None, phone: None, is_default: Some(true) };
    if u.clears_other_defaults() {
        marks.iter_mut().for_each(|m| *m = false);
    }
    marks[1] = true;
    assert_eq!(defaults(&marks), 1);
    let removed = marks.remove(1);
    if delete_outcome(Some(removed)).unwrap() {
        let last = marks.len() - 1;
        marks[last] = true;
    }
    assert_eq!(marks, vec![false, false, false, true]);
    let removed = marks.remove(0);
    assert_eq!(delete_outcome(Some(removed)), Ok(false));
    assert_eq!(defaults(&marks), 1);
}
