//! Credential checks, bearer tokens and request gating for a producer
//! traceability service, with the shared data model and message tables.

pub mod common;
pub mod text;
pub mod errors;
pub mod token;
pub mod password;
pub mod store;
pub mod authenticator;
pub mod gate;
pub mod config;
pub mod handlers;
pub mod i18n;
