use kairos_auth::errors::AuthError;
use kairos_auth::token::{create_token, issue, validate_token, Claims, DEFAULT_TOKEN_TTL};

const SUBJECT: u128 = 0x67e5_5044_10b1_426f_9247_bb68_0e5f_e0c8;
const SUBJECT_TEXT: &str = "67e55044-10b1-426f-9247-bb680e5fe0c8";

#[test]
fn claims_text_is_exact() {
    let c = Claims::new(SUBJECT, 1_700_000_000, 60);
    assert_eq!(c.sub, SUBJECT_TEXT);
    assert_eq!(c.exp, 1_700_000_060);
    assert_eq!(c.iat, 1_700_000_000);
    assert_eq!(
        c.payload(),
        "{\"sub\":\"67e55044-10b1-426f-9247-bb680e5fe0c8\",\"exp\":1700000060,\"iat\":1700000000}"
    );
}

#[test]
fn claims_text_reads_back() {
    let c = Claims { sub: "abc".to_string(), exp: -5, iat: 12 };
    let text = c.payload();
    assert_eq!(text, "{\"sub\":\"abc\",\"exp\":-5,\"iat\":12}");
    let back = Claims::from_payload(&text).unwrap();
    assert_eq!(back.sub, "abc");
    assert_eq!(back.exp, -5);
    assert_eq!(back.iat, 12);
}

#[test]
fn claims_text_refuses_other_texts() {
    assert!(Claims::from_payload("").is_none());
    assert!(Claims::from_payload("{\"sub\":\"a\",\"exp\":1,\"iat\":2} ").is_none());
    assert!(Claims::from_payload("{\"sub\":\"a\", \"exp\":1,\"iat\":2}").is_none());
    assert!(Claims::from_payload("{\"sub\":\"a\",\"exp\":01,\"iat\":2}").is_none());
    assert!(Claims::from_payload("{\"exp\":1,\"sub\":\"a\",\"iat\":2}").is_none());
    assert!(Claims::from_payload("{\"sub\":\"a\",\"exp\":1}").is_none());
    assert!(Claims::from_payload("{\"sub\":\"a\",\"exp\":1,\"iat\":2}").is_some());
}

#[test]
fn issued_token_validates_until_expiry() {
    let now = 1_700_000_000;
    let t = issue(SUBJECT, now, 3600, "secret").unwrap();
    assert_eq!(t.token_type, "Bearer");
    assert_eq!(t.expires_in, 3600);
    assert_ne!(t.access_token, "");
    let c = validate_token(&t.access_token, "secret", now).unwrap();
    assert_eq!(c.sub, SUBJECT_TEXT);
    assert_eq!(c.iat, now);
    assert_eq!(c.exp, now + 3600);
    assert!(validate_token(&t.access_token, "secret", now + 3599).is_ok());
}

#[test]
fn token_expires_after_ttl() {
    let now = 1_700_000_000;
    let ttl = 3600;
    let t = issue(SUBJECT, now, ttl, "secret").unwrap();
    assert_eq!(
        validate_token(&t.access_token, "secret", now + ttl + 1).unwrap_err(),
        AuthError::ExpiredToken
    );
    assert_eq!(
        validate_token(&t.access_token, "secret", now + ttl).unwrap_err(),
        AuthError::ExpiredToken
    );
}

#[test]
fn validation_is_repeatable() {
    let now = 1_700_000_000;
    let t = issue(SUBJECT, now, 600, "secret").unwrap();
    let a = validate_token(&t.access_token, "secret", now + 10).unwrap();
    let b = validate_token(&t.access_token, "secret", now + 10).unwrap();
    assert_eq!((a.sub.clone(), a.exp, a.iat), (b.sub.clone(), b.exp, b.iat));
    let c = validate_token(&t.access_token, "secret", now + 500).unwrap();
    assert_eq!((a.sub, a.exp, a.iat), (c.sub, c.exp, c.iat));
}

#[test]
fn wrong_secret_or_tampering_is_malformed() {
    let now = 1_700_000_000;
    let t = issue(SUBJECT, now, 600, "secret").unwrap();
    assert_eq!(
        validate_token(&t.access_token, "other", now).unwrap_err(),
        AuthError::MalformedToken
    );
    let mut tampered = t.access_token.clone();
    tampered.push('x');
    assert_eq!(validate_token(&tampered, "secret", now).unwrap_err(), AuthError::MalformedToken);
    assert_eq!(validate_token("abc", "secret", now).unwrap_err(), AuthError::MalformedToken);
    assert_eq!(validate_token("", "secret", now).unwrap_err(), AuthError::MalformedToken);
}

#[test]
fn other_algorithm_is_unsupported() {
    let claims: serde_json::Value =
        serde_json::from_str("{\"sub\":\"a\",\"exp\":4102444800,\"iat\":1}").unwrap();
    let token = jsonwebtoken::encode(
        &jsonwebtoken::Header::new(jsonwebtoken::Algorithm::HS384),
        &claims,
        &jsonwebtoken::EncodingKey::from_secret(b"secret"),
    )
    .unwrap();
    assert_eq!(
        validate_token(&token, "secret", 0).unwrap_err(),
        AuthError::UnsupportedAlgorithm
    );
}

#[test]
fn decode_ignores_expiry() {
    let t = issue(SUBJECT, 100, 10, "secret").unwrap();
    let c = Claims::decode(&t.access_token, "secret").unwrap();
    assert_eq!(c.exp, 110);
    let signed = c.encode("secret").unwrap();
    assert_eq!(signed, t.access_token);
}

#[test]
fn create_token_default_lifetime() {
    let t = create_token(SUBJECT_TEXT, "a@x.com", "producer", "secret").unwrap();
    assert_eq!(t.expires_in, DEFAULT_TOKEN_TTL);
    assert_eq!(t.expires_in, 86400);
    assert_eq!(t.token_type, "Bearer");
    let c = Claims::decode(&t.access_token, "secret").unwrap();
    assert_eq!(c.sub, SUBJECT_TEXT);
    assert_eq!(c.exp - c.iat, 86400);
    assert_eq!(
        create_token("42", "a@x.com", "producer", "secret").unwrap_err(),
        AuthError::InvalidId
    );
}

#[test]
fn create_token_accepts_any_uuid_form() {
    let t = create_token("67E55044-10B1-426F-9247-BB680E5FE0C8", "x", "y", "secret").unwrap();
    let c = Claims::decode(&t.access_token, "secret").unwrap();
    assert_eq!(c.sub, SUBJECT_TEXT);
    let u = create_token("67e5504410b1426f9247bb680e5fe0c8", "x", "y", "secret").unwrap();
    assert_eq!(Claims::decode(&u.access_token, "secret").unwrap().sub, SUBJECT_TEXT);
    assert_eq!(
        create_token("not-a-uuid", "x", "y", "secret").unwrap_err(),
        AuthError::InvalidId
    );
}

#[test]
fn subject_text_is_hyphenated_hex() {
    assert_eq!(Claims::new(0, 0, 0).sub, "00000000-0000-0000-0000-000000000000");
    assert_eq!(Claims::new(u128::MAX, 0, 0).sub, "ffffffff-ffff-ffff-ffff-ffffffffffff");
    assert_eq!(Claims::new(SUBJECT, 0, 0).sub, SUBJECT_TEXT);
}
