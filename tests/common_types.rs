use kairos_auth::common::PaginationParams;
use kairos_auth::config::{AppConfig, ConfigError};

#[test]
fn pagination_defaults() {
    let p = PaginationParams { page: None, per_page: None };
    assert_eq!(p.window(), Some((1, 10, 0)));
}

#[test]
fn pagination_offset() {
    let p = PaginationParams { page: Some(3), per_page: Some(20) };
    assert_eq!(p.window(), Some((3, 20, 40)));
    let q = PaginationParams { page: Some(0), per_page: Some(10) };
    assert_eq!(q.window(), Some((0, 10, -10)));
}

#[test]
fn pagination_overflow_is_refused() {
    let p = PaginationParams { page: Some(i64::MAX), per_page: Some(i64::MAX) };
    assert_eq!(p.window(), None);
    let q = PaginationParams { page: Some(i64::MIN), per_page: Some(1) };
    assert_eq!(q.window(), None);
}

fn s(v: &str) -> Option<String> {
    Some(v.to_string())
}

#[test]
fn config_defaults() {
    let c = AppConfig::from_settings(s("postgres://db"), s("k"), None, None, None).unwrap();
    assert_eq!(c.database_url, "postgres://db");
    assert_eq!(c.jwt_secret, "k");
    assert_eq!(c.jwt_expiration, 86400);
    assert_eq!(c.server_host, "127.0.0.1");
    assert_eq!(c.server_port, 8080);
}

#[test]
fn config_given_values() {
    let c = AppConfig::from_settings(s("u"), s("k"), s("3600"), s("0.0.0.0"), s("9000")).unwrap();
    assert_eq!(c.jwt_expiration, 3600);
    assert_eq!(c.server_host, "0.0.0.0");
    assert_eq!(c.server_port, 9000);
    let d = AppConfig::from_settings(s("u"), s("k"), s("+86400"), None, s("08080")).unwrap();
    assert_eq!(d.jwt_expiration, 86400);
    assert_eq!(d.server_port, 8080);
    let e = AppConfig::from_settings(s("u"), s("k"), s("086400"), None, None).unwrap();
    assert_eq!(e.jwt_expiration, 86400);
}

#[test]
fn config_errors() {
    assert_eq!(
        AppConfig::from_settings(None, s("k"), None, None, None).unwrap_err(),
        ConfigError::MissingDatabaseUrl
    );
    assert_eq!(
        AppConfig::from_settings(s("u"), None, None, None, None).unwrap_err(),
        ConfigError::MissingJwtSecret
    );
    assert_eq!(
        AppConfig::from_settings(s("u"), s("k"), s("soon"), None, None).unwrap_err(),
        ConfigError::InvalidJwtExpiration
    );
    assert_eq!(
        AppConfig::from_settings(s("u"), s("k"), None, None, s("70000")).unwrap_err(),
        ConfigError::InvalidServerPort
    );
    assert_eq!(
        AppConfig::from_settings(s("u"), s("k"), None, None, s("-1")).unwrap_err(),
        ConfigError::InvalidServerPort
    );
}
