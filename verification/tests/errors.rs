use readdeck::error::{AppError, found_or_invalid, ensure_or_invalid};

#[test]
fn status_codes_follow_the_error_kind() {
    assert_eq!(AppError::UserAlreadyExists.status_code(), 409);
    assert_eq!(AppError::InvalidCredentials.status_code(), 401);
    assert_eq!(AppError::ValidationError("x".to_string()).status_code(), 422);
    assert_eq!(AppError::DatabaseError("x".to_string()).status_code(), 500);
    assert_eq!(AppError::HashingError("x".to_string()).status_code(), 500);
    assert_eq!(AppError::TokenError("x".to_string()).status_code(), 500);
    assert_eq!(AppError::Unauthorized("x".to_string()).status_code(), 401);
    assert_eq!(AppError::NotFound("x".to_string()).status_code(), 404);
    assert_eq!(AppError::Forbidden("x".to_string()).status_code(), 403);
}

#[test]
fn messages_carry_a_prefix_and_the_detail() {
    assert_eq!(AppError::UserAlreadyExists.message(), "User already exists");
    assert_eq!(AppError::InvalidCredentials.message(), "Invalid credentials");
    assert_eq!(AppError::ValidationError("Book not found".to_string()).message(), "Validation error: Book not found");
    assert_eq!(AppError::DatabaseError("pool timed out".to_string()).message(), "Database error: pool timed out");
    assert_eq!(AppError::HashingError("bad".to_string()).message(), "Hashing error: bad");
    assert_eq!(AppError::TokenError("JWT_SECRET not set".to_string()).message(), "Token error: JWT_SECRET not set");
    assert_eq!(AppError::Unauthorized("No access token".to_string()).message(), "Unauthorized: No access token");
    assert_eq!(AppError::NotFound("No application found".to_string()).message(), "Not found: No application found");
    assert_eq!(AppError::Forbidden("no".to_string()).message(), "Forbidden: no");
}

#[test]
fn missing_rows_become_validation_errors() {
    assert_eq!(found_or_invalid(Some(7u32), "Order not found"), Ok(7));
    assert_eq!(
        found_or_invalid::<u32>(None, "Order not found"),
        Err(AppError::ValidationError("Order not found".to_string()))
    );
    assert_eq!(ensure_or_invalid(true, "Book not found"), Ok(()));
    assert_eq!(
        ensure_or_invalid(false, "Book not found"),
        Err(AppError::ValidationError("Book not found".to_string()))
    );
}
