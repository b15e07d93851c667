use jsonwebtoken::{encode, EncodingKey, Header};
use readdeck::rate_limit::JwtUserKeyExtractor;

fn token(sub: Option<&str>, secret: &str) -> String {
    let mut claims = serde_json::Map::new();
    if let Some(s) = sub {
        claims.insert("sub".to_string(), serde_json::Value::String(s.to_string()));
    }
    claims.insert("exp".to_string(), serde_json::Value::from(1u64));
    encode(&Header::default(), &serde_json::Value::Object(claims), &EncodingKey::from_secret(secret.as_bytes()))
        .unwrap()
}

#[test]
fn user_key_from_access_token_cookie() {
    let x = JwtUserKeyExtractor;
    let t = token(Some("42"), "s3cret");
    let header = format!("theme=dark; access_token={}; other=1", t);
    assert_eq!(x.user_key(Some(&header), Some("s3cret")), Some("user:42".to_string()));
}

#[test]
fn no_user_key_without_valid_token() {
    let x = JwtUserKeyExtractor;
    let t = token(Some("42"), "s3cret");
    let header = format!("access_token={}", t);
    assert_eq!(x.user_key(Some(&header), Some("wrong")), None);
    assert_eq!(x.user_key(Some(&header), None), None);
    assert_eq!(x.user_key(None, Some("s3cret")), None);
    assert_eq!(x.user_key(Some("access_token=garbage"), Some("s3cret")), None);
    let no_sub = format!("access_token={}", token(None, "s3cret"));
    assert_eq!(x.user_key(Some(&no_sub), Some("s3cret")), None);
}

#[test]
fn first_decodable_cookie_wins() {
    let x = JwtUserKeyExtractor;
    let header = format!(
        "access_token=bad; access_token={}; access_token={}",
        token(Some("first"), "k"),
        token(Some("second"), "k")
    );
    assert_eq!(x.user_key(Some(&header), Some("k")), Some("user:first".to_string()));
}

#[test]
fn forwarded_address_is_first_entry_trimmed() {
    let x = JwtUserKeyExtractor;
    assert_eq!(x.forwarded_address(Some(" 10.0.0.1 , 172.16.0.1")), Some("10.0.0.1".to_string()));
    assert_eq!(x.forwarded_address(Some("")), Some(String::new()));
    assert_eq!(x.forwarded_address(None), None);
    assert_eq!(x.address_key("127.0.0.1"), "ip:127.0.0.1");
}

#[test]
fn user_and_address_keys_never_collide() {
    let x = JwtUserKeyExtractor;
    let user = x.user_key(Some(&format!("access_token={}", token(Some("1.2.3.4"), "k"))), Some("k")).unwrap();
    assert_ne!(user, x.address_key("1.2.3.4"));
}

#[test]
fn different_users_get_different_keys() {
    let x = JwtUserKeyExtractor;
    let a = x.user_key(Some(&format!("access_token={}", token(Some("alice"), "k"))), Some("k")).unwrap();
    let b = x.user_key(Some(&format!("access_token={}", token(Some("bob"), "k"))), Some("k")).unwrap();
    assert_ne!(a, b);
    assert_ne!(x.address_key("10.0.0.1"), x.address_key("10.0.0.2"));
}
