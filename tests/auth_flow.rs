use kairos_auth::authenticator::{authenticate, register_principal};
use kairos_auth::common::{
    Language, LoginRequest, ProducerStatus, RegisterProducerRequest, UpdateProducerRequest,
};
use kairos_auth::config::AppConfig;
use kairos_auth::errors::AuthError;
use kairos_auth::gate::{bearer_token, get_producer_from_request, AuthMiddleware, ProducerAuthMiddleware};
use kairos_auth::handlers::{login, register};
use kairos_auth::password::{hash, verify};
use kairos_auth::store::CredentialStore;
use kairos_auth::token::{issue, validate_token, Claims};

const COST: u32 = 4;

fn request(email: &str, password: &str) -> RegisterProducerRequest {
    RegisterProducerRequest {
        full_name: "Ana Pérez".to_string(),
        email: email.to_string(),
        password: password.to_string(),
        farm_name: Some("La Esperanza".to_string()),
        phone: None,
        language_preference: None,
    }
}

fn config() -> AppConfig {
    AppConfig::from_settings(Some("db".to_string()), Some("secret".to_string()), None, None, None).unwrap()
}

#[test]
fn password_hash_and_verify() {
    let h = hash("p4ss", COST).unwrap();
    assert_ne!(h, "p4ss");
    assert!(h.starts_with("$2"));
    assert_eq!(verify("p4ss", &h), Ok(true));
    assert_eq!(verify("wrong", &h), Ok(false));
    assert_eq!(verify("p4ss", "not a hash"), Err(AuthError::HashingError));
}

#[test]
fn register_creates_active_principal() {
    let mut store = CredentialStore::new();
    let p = register_principal(&mut store, &request("a@x.com", "p4ss"), 1000, COST).unwrap();
    assert!(p.is_active);
    assert!(!p.email_verified);
    assert_eq!(p.status, ProducerStatus::Pending);
    assert_eq!(p.email, "a@x.com");
    assert_eq!(p.full_name, "Ana Pérez");
    assert_eq!(p.farm_name.as_deref(), Some("La Esperanza"));
    assert_eq!(p.language_preference, Language::Spanish);
    assert_eq!(p.created_at, 1000);
    assert_ne!(p.password_hash, "p4ss");
    assert_eq!(store.len(), 1);
}

#[test]
fn registered_principal_authenticates_with_stable_id() {
    let mut store = CredentialStore::new();
    let p = register_principal(&mut store, &request("a@x.com", "p4ss"), 1000, COST).unwrap();
    let first = authenticate(&store, "a@x.com", "p4ss").unwrap();
    let second = authenticate(&store, "a@x.com", "p4ss").unwrap();
    assert_eq!(first.id, p.id);
    assert_eq!(second.id, p.id);
}

#[test]
fn wrong_password_and_unknown_email_look_alike() {
    let mut store = CredentialStore::new();
    register_principal(&mut store, &request("a@x.com", "p4ss"), 1000, COST).unwrap();
    let wrong = authenticate(&store, "a@x.com", "wrong").unwrap_err();
    let unknown = authenticate(&store, "b@x.com", "p4ss").unwrap_err();
    assert_eq!(wrong, AuthError::InvalidCredentials);
    assert_eq!(unknown, AuthError::InvalidCredentials);
    assert_eq!(wrong.error_response().1.error, unknown.error_response().1.error);
    assert_eq!(
        authenticate(&store, "A@x.com", "p4ss").unwrap_err(),
        AuthError::InvalidCredentials
    );
}

#[test]
fn second_registration_is_refused() {
    let mut store = CredentialStore::new();
    register_principal(&mut store, &request("a@x.com", "p4ss"), 1000, COST).unwrap();
    let again = register_principal(&mut store, &request("a@x.com", "other"), 2000, COST);
    assert_eq!(again.unwrap_err(), AuthError::DuplicateEmail);
    assert_eq!(store.len(), 1);
    assert!(authenticate(&store, "a@x.com", "other").is_err());
    assert!(authenticate(&store, "a@x.com", "p4ss").is_ok());
}

#[test]
fn register_and_login_scenario() {
    let mut store = CredentialStore::new();
    let cfg = config();
    let reg = request("a@x.com", "p4ss");
    let t = register(&mut store, &reg, 1000, &cfg, COST).unwrap();
    assert_eq!(t.expires_in, 86400);
    let p = store.find_by_email("a@x.com").unwrap();
    assert!(p.is_active);
    let ok = login(
        &store,
        &LoginRequest { email: "a@x.com".to_string(), password: "p4ss".to_string() },
        2000,
        &cfg,
    )
    .unwrap();
    assert_eq!(ok.expires_in, 86400);
    assert_eq!(ok.token_type, "Bearer");
    let claims = validate_token(&ok.access_token, "secret", 2000).unwrap();
    assert_eq!(claims.sub, Claims::new(p.id, 0, 0).sub);
    let bad = login(
        &store,
        &LoginRequest { email: "a@x.com".to_string(), password: "wrong".to_string() },
        2000,
        &cfg,
    )
    .unwrap_err();
    let (status, body) = bad.error_response();
    assert_eq!(status, 401);
    assert_eq!(body.error, "Invalid credentials");
    assert_eq!(
        register(&mut store, &reg, 3000, &cfg, COST).unwrap_err(),
        AuthError::DuplicateEmail
    );
}

#[test]
fn deactivated_principal_is_refused_by_resolving_gate_only() {
    let mut store = CredentialStore::new();
    let p = register_principal(&mut store, &request("a@x.com", "p4ss"), 1000, COST).unwrap();
    let t = issue(p.id, 1000, 86400, "secret").unwrap();
    let header = format!("Bearer {}", t.access_token);
    let resolving = ProducerAuthMiddleware { jwt_secret: "secret".to_string() };
    let token_only = AuthMiddleware { jwt_secret: "secret".to_string() };
    let before = resolving.authorize(Some(&header), &store, 2000).unwrap();
    assert_eq!(get_producer_from_request(&before).unwrap().id, p.id);
    assert!(store.set_active(p.id, false));
    assert_eq!(
        resolving.authorize(Some(&header), &store, 2000).unwrap_err(),
        AuthError::AccountInactive
    );
    let ctx = token_only.authorize(Some(&header), 2000).unwrap();
    assert_eq!(ctx.claims.sub, Claims::new(p.id, 0, 0).sub);
    assert!(ctx.producer.is_none());
    assert_eq!(get_producer_from_request(&ctx).unwrap_err(), AuthError::PrincipalNotFound);
}

#[test]
fn gates_reject_missing_and_bad_tokens() {
    let store = CredentialStore::new();
    let gate = AuthMiddleware { jwt_secret: "secret".to_string() };
    let resolving = ProducerAuthMiddleware { jwt_secret: "secret".to_string() };
    assert_eq!(gate.authorize(None, 0).unwrap_err(), AuthError::MissingToken);
    assert_eq!(gate.authorize(Some("Token abc"), 0).unwrap_err(), AuthError::MissingToken);
    assert_eq!(gate.authorize(Some("Bearer abc"), 0).unwrap_err(), AuthError::MalformedToken);
    let t = issue(7, 1000, 10, "secret").unwrap();
    let header = format!("Bearer {}", t.access_token);
    assert_eq!(gate.authorize(Some(&header), 2000).unwrap_err(), AuthError::ExpiredToken);
    assert_eq!(
        resolving.authorize(Some(&header), &store, 1005).unwrap_err(),
        AuthError::PrincipalNotFound
    );
}

#[test]
fn bearer_header_parsing() {
    assert_eq!(bearer_token(Some("Bearer abc.def")), Some("abc.def".to_string()));
    assert_eq!(bearer_token(Some("Bearer ")), Some(String::new()));
    assert_eq!(bearer_token(Some("bearer abc")), None);
    assert_eq!(bearer_token(Some("Bearer")), None);
    assert_eq!(bearer_token(None), None);
}

#[test]
fn store_lookups_and_flags() {
    let mut store = CredentialStore::new();
    let p = register_principal(&mut store, &request("a@x.com", "p4ss"), 1000, COST).unwrap();
    assert_eq!(store.find_by_id(p.id).unwrap().email, "a@x.com");
    assert!(store.find_by_id(p.id.wrapping_add(1)).is_none());
    assert!(store.find_by_email("nobody@x.com").is_none());
    assert!(!store.set_active(p.id.wrapping_add(1), false));
    assert!(store.find_by_id(p.id).unwrap().is_active);
    let copy = p.duplicate();
    assert_eq!(store.insert(copy).unwrap_err(), AuthError::DuplicateEmail);
    let mut other = p.duplicate();
    other.email = "c@x.com".to_string();
    assert_eq!(store.insert(other).unwrap_err(), AuthError::StoreUnavailable);
    assert_eq!(store.len(), 1);
}

#[test]
fn error_statuses_and_messages() {
    let cases = [
        (AuthError::InvalidCredentials, 401, "Invalid credentials"),
        (AuthError::DuplicateEmail, 400, "Email already exists"),
        (AuthError::MissingToken, 401, "Missing authorization header"),
        (AuthError::MalformedToken, 401, "Invalid token"),
        (AuthError::ExpiredToken, 401, "Invalid token"),
        (AuthError::UnsupportedAlgorithm, 401, "Invalid token"),
        (AuthError::PrincipalNotFound, 401, "Producer not found"),
        (AuthError::AccountInactive, 403, "Producer account is inactive"),
        (AuthError::HashingError, 500, "Password hashing error"),
        (AuthError::StoreUnavailable, 500, "Database error"),
        (AuthError::SigningError, 500, "Token signing error"),
        (AuthError::InvalidId, 400, "Invalid ID format"),
    ];
    for (e, status, message) in cases {
        assert_eq!(e.status_code(), status);
        assert_eq!(e.message(), message);
        let (s, body) = e.error_response();
        assert_eq!(s, status);
        assert_eq!(body.error, message);
    }
}

#[test]
fn profile_update_changes_given_fields_only() {
    let mut store = CredentialStore::new();
    let p = register_principal(&mut store, &request("a@x.com", "p4ss"), 1000, COST).unwrap();
    let changes = UpdateProducerRequest {
        full_name: Some("Ana P.".to_string()),
        farm_name: None,
        phone: Some("555".to_string()),
        language_preference: Some(Language::English),
        is_active: None,
        status: Some(ProducerStatus::Approved),
    };
    let updated = store.update(p.id, &changes, 5000).unwrap();
    assert_eq!(updated.full_name, "Ana P.");
    assert_eq!(updated.farm_name.as_deref(), Some("La Esperanza"));
    assert_eq!(updated.phone.as_deref(), Some("555"));
    assert_eq!(updated.language_preference, Language::English);
    assert!(updated.is_active);
    assert_eq!(updated.status, ProducerStatus::Approved);
    assert_eq!(updated.created_at, 1000);
    assert_eq!(updated.updated_at, 5000);
    let stored = store.find_by_id(p.id).unwrap();
    assert_eq!(stored.full_name, "Ana P.");
    assert!(store.update(p.id.wrapping_add(1), &changes, 6000).is_none());
    assert!(authenticate(&store, "a@x.com", "p4ss").is_ok());
}

#[test]
fn register_refuses_unfit_lifetime_before_storing() {
    let mut store = CredentialStore::new();
    let mut cfg = config();
    cfg.jwt_expiration = 10;
    let r = register(&mut store, &request("a@x.com", "p4ss"), i64::MAX - 5, &cfg, COST);
    assert_eq!(r.unwrap_err(), AuthError::SigningError);
    assert_eq!(store.len(), 0);
    let ok = register(&mut store, &request("a@x.com", "p4ss"), 1000, &cfg, COST).unwrap();
    assert_eq!(ok.expires_in, 10);
    let late = login(
        &store,
        &LoginRequest { email: "a@x.com".to_string(), password: "p4ss".to_string() },
        i64::MAX - 5,
        &cfg,
    );
    assert_eq!(late.unwrap_err(), AuthError::SigningError);
}

#[test]
fn repeated_logins_name_the_same_record() {
    let mut store = CredentialStore::new();
    let cfg = config();
    let p = register_principal(&mut store, &request("a@x.com", "p4ss"), 1000, COST).unwrap();
    let req = LoginRequest { email: "a@x.com".to_string(), password: "p4ss".to_string() };
    let a = login(&store, &req, 2000, &cfg).unwrap();
    let b = login(&store, &req, 2000, &cfg).unwrap();
    assert_eq!(a.access_token, b.access_token);
    let c = validate_token(&a.access_token, "secret", 2000).unwrap();
    assert_eq!(c.sub, Claims::new(p.id, 0, 0).sub);
}
