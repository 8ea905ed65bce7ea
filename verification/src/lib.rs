//! Discord OAuth2 login backend: session-claim codec, CSRF state broker,
//! callback coordination and request-time identity extraction.

pub mod callback;
pub mod codec;
pub mod config;
pub mod csrf;
pub mod errors;
pub mod extractor;
pub mod login;
pub mod num;
pub mod trust;
pub mod user;

