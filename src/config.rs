//! Process-wide configuration, read once at startup.

use crate::text::{decimal_of, parse_i64};
use crate::token::DEFAULT_TOKEN_TTL;
use vstd::prelude::*;

verus! {

/// Port used when none is configured.
pub const DEFAULT_SERVER_PORT: u16 = 8080;

/// Settings of the service.
#[derive(Debug, Clone)]
pub struct AppConfig {
    pub database_url: String,
    /// Secret that signs and checks every token.
    pub jwt_secret: String,
    /// Lifetime of issued tokens, in seconds.
    pub jwt_expiration: i64,
    pub server_host: String,
    pub server_port: u16,
}

/// Why the settings cannot make a configuration.
#[derive(Debug, Clone, Copy, PartialEq, Eq, Structural)]
pub enum ConfigError {
    MissingDatabaseUrl,
    MissingJwtSecret,
    InvalidJwtExpiration,
    InvalidServerPort,
}

/// Whether `t` writes, as `str::parse` reads it, an integer in `lo..=hi`.
pub open spec fn writes_number_in(t: Seq<char>, lo: int, hi: int) -> bool {
    decimal_of(t) matches Some(n) && lo <= n <= hi
}

impl AppConfig {
    /// The configuration from the raw settings: the database URL and the
    /// secret must be given; the token lifetime defaults to 86400 seconds, the
    /// host to 127.0.0.1 and the port to 8080. Numbers are read as
    /// `str::parse` reads them.
    pub fn from_settings(
        database_url: Option<String>,
        jwt_secret: Option<String>,
        jwt_expiration: Option<String>,
        server_host: Option<String>,
        server_port: Option<String>,
    ) -> (r: Result<AppConfig, ConfigError>)
        ensures
            database_url is None ==> r == Err::<AppConfig, ConfigError>(ConfigError::MissingDatabaseUrl),
            database_url is Some && jwt_secret is None ==> r == Err::<AppConfig, ConfigError>(
                ConfigError::MissingJwtSecret,
            ),
            database_url is Some && jwt_secret is Some && (jwt_expiration matches Some(t) && !writes_number_in(
                t@,
                i64::MIN as int,
                i64::MAX as int,
            )) ==> r == Err::<AppConfig, ConfigError>(ConfigError::InvalidJwtExpiration),
            database_url is Some && jwt_secret is Some && !(jwt_expiration matches Some(t)
                && !writes_number_in(t@, i64::MIN as int, i64::MAX as int)) && (server_port matches Some(
                t,
            ) && !writes_number_in(t@, 0, 65535)) ==> r == Err::<AppConfig, ConfigError>(
                ConfigError::InvalidServerPort,
            ),
            r matches Ok(c) ==> database_url matches Some(d) && c.database_url@ == d@,
            r matches Ok(c) ==> jwt_secret matches Some(s) && c.jwt_secret@ == s@,
            r matches Ok(c) ==> match jwt_expiration {
                Some(t) => decimal_of(t@) == Some(c.jwt_expiration as int),
                None => c.jwt_expiration == DEFAULT_TOKEN_TTL,
            },
            r matches Ok(c) ==> match server_port {
                Some(t) => decimal_of(t@) == Some(c.server_port as int),
                None => c.server_port == DEFAULT_SERVER_PORT,
            },
            r matches Ok(c) ==> match server_host {
                Some(h) => c.server_host@ == h@,
                None => c.server_host@ == "127.0.0.1"@,
            },
            database_url is Some && jwt_secret is Some && (jwt_expiration matches Some(t) ==> writes_number_in(
                t@,
                i64::MIN as int,
                i64::MAX as int,
            )) && (server_port matches Some(t) ==> writes_number_in(t@, 0, 65535)) ==> r is Ok,
    {
        let database_url = match database_url {
            Some(d) => d,
            None => {
                return Err(ConfigError::MissingDatabaseUrl);
            },
        };
        let jwt_secret = match jwt_secret {
            Some(s) => s,
            None => {
                return Err(ConfigError::MissingJwtSecret);
            },
        };
        let jwt_expiration = match jwt_expiration {
            Some(t) => match parse_i64(t.as_str()) {
                Some(n) => n,
                None => {
                    return Err(ConfigError::InvalidJwtExpiration);
                },
            },
            None => DEFAULT_TOKEN_TTL,
        };
        let server_port = match server_port {
            Some(t) => match parse_i64(t.as_str()) {
                Some(n) => {
                    if n < 0 || n > 65535 {
                        return Err(ConfigError::InvalidServerPort);
                    }
                    n as u16
                },
                None => {
                    return Err(ConfigError::InvalidServerPort);
                },
            },
            None => DEFAULT_SERVER_PORT,
        };
        let server_host = match server_host {
            Some(h) => h,
            None => "127.0.0.1".to_owned(),
        };
        Ok(AppConfig { database_url, jwt_secret, jwt_expiration, server_host, server_port })
    }
}

} // verus!
