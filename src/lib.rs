//! Time-based one-time passwords (RFC 6238) on top of HOTP (RFC 4226), with
//! the `otpauth://` provisioning URI used by authenticator applications.

pub mod algorithm;
pub mod codec;
pub mod error;
pub mod text;
pub mod totp;
pub mod uri;

pub use algorithm::Algorithm;
pub use error::{Error, Result};
pub use totp::TOTP;
