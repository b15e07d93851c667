use readdeck::auth::{
    check_email_available, check_login, cookie_token, hash_password, session_cookies, signing_secret, subject_user_id,
    token_source, AuthUser, Claims, TokenSource,
};
use readdeck::error::AppError;

fn claims(sub: &str) -> Claims {
    Claims { sub: sub.to_string(), username: "ada".to_string(), exp: 0 }
}

#[test]
fn bearer_header_wins_over_cookie() {
    match token_source(true, Some("Bearer abc.def.ghi")) {
        Ok(TokenSource::Bearer(t)) => assert_eq!(t, "abc.def.ghi"),
        _ => panic!("expected a bearer token"),
    }
    assert!(matches!(token_source(true, Some("Basic xyz")), Ok(TokenSource::Cookie)));
    assert!(matches!(token_source(true, Some("bearer abc")), Ok(TokenSource::Cookie)));
    assert!(matches!(token_source(true, None), Ok(TokenSource::Cookie)));
    match token_source(true, Some("Bearer ")) {
        Ok(TokenSource::Bearer(t)) => assert_eq!(t, ""),
        _ => panic!("expected an empty bearer token"),
    }
}

#[test]
fn missing_secret_is_a_token_error() {
    assert!(matches!(
        token_source(false, Some("Bearer abc")),
        Err(AppError::TokenError(m)) if m == "JWT_SECRET not set"
    ));
}

#[test]
fn cookie_token_rules() {
    assert_eq!(cookie_token(true, Some("tok".to_string())), Ok("tok".to_string()));
    assert_eq!(cookie_token(true, None), Err(AppError::Unauthorized("No access token".to_string())));
    assert_eq!(
        cookie_token(false, Some("tok".to_string())),
        Err(AppError::Unauthorized("Could not read cookies".to_string()))
    );
}

#[test]
fn decoded_tokens_become_users() {
    let u = AuthUser::from_decoded(Ok(claims("550e8400-e29b-41d4-a716-446655440000"))).ok().unwrap();
    assert_eq!(u.0.username, "ada");
    assert!(matches!(
        AuthUser::from_decoded(Err("ExpiredSignature".to_string())),
        Err(AppError::Unauthorized(m)) if m == "ExpiredSignature"
    ));
}

#[test]
fn user_id_comes_from_the_subject() {
    let u = AuthUser(claims("550e8400-e29b-41d4-a716-446655440000"));
    assert_eq!(u.user_id(), Ok(0x550e8400_e29b_41d4_a716_446655440000u128));
    let simple = AuthUser(claims("550e8400e29b41d4a716446655440000"));
    assert_eq!(simple.user_id(), Ok(0x550e8400_e29b_41d4_a716_446655440000u128));
    let bad = AuthUser(claims("not-a-uuid"));
    assert_eq!(bad.user_id(), Err(AppError::Unauthorized("Invalid user ID in token".to_string())));
    assert_eq!(
        subject_user_id(&claims("nope"), AppError::TokenError("Invalid user ID".to_string())),
        Err(AppError::TokenError("Invalid user ID".to_string()))
    );
}

#[test]
fn hashed_password_is_accepted_at_login() {
    let h = hash_password("Analytic1").unwrap();
    assert_eq!(h.chars().count(), 60);
    assert!(h.starts_with("$2b$12$"));
    assert_eq!(check_login(Some(&h), "Analytic1"), Ok(()));
    assert_eq!(check_login(Some(&h), "analytic1"), Err(AppError::InvalidCredentials));
}

#[test]
fn unknown_account_and_bad_hash() {
    assert_eq!(check_login(None, "Analytic1"), Err(AppError::InvalidCredentials));
    assert!(matches!(check_login(Some("not a hash"), "Analytic1"), Err(AppError::HashingError(_))));
}

#[test]
fn registered_email_is_refused() {
    assert_eq!(check_email_available(false), Ok(()));
    assert_eq!(check_email_available(true), Err(AppError::UserAlreadyExists));
}

#[test]
fn access_tokens_last_fifteen_minutes() {
    let c = Claims::issue("550e8400-e29b-41d4-a716-446655440000".to_string(), "ada".to_string(), 1_700_000_000);
    assert_eq!(c.exp, 1_700_000_900);
    assert_eq!(c.sub, "550e8400-e29b-41d4-a716-446655440000");
    assert_eq!(c.username, "ada");
}

#[test]
fn session_cookie_settings() {
    let c = session_cookies("acc".to_string(), "ref".to_string());
    assert_eq!((c.access.name.as_str(), c.access.value.as_str(), c.access.path.as_str()), ("access_token", "acc", "/"));
    assert_eq!(c.access.max_age_seconds, 15 * 60);
    assert!(c.access.http_only);
    assert_eq!((c.refresh.name.as_str(), c.refresh.value.as_str(), c.refresh.path.as_str()), ("refresh_token", "ref", "/auth/refresh"));
    assert_eq!(c.refresh.max_age_seconds, 7 * 24 * 60 * 60);
    assert!(c.refresh.http_only);
}

#[test]
fn signing_secret_must_be_configured() {
    assert_eq!(signing_secret(Some("s3cret".to_string())), Ok("s3cret".to_string()));
    assert_eq!(signing_secret(None), Err(AppError::TokenError("JWT_SECRET not set".to_string())));
}
