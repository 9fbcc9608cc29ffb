//! Short-lived HMAC-SHA256 tokens in JWT form, bound to one HTTP request
//! through the SHA-256 hash of its canonical form (the `qsh` claim).

pub mod base64url;
pub mod digest;
pub mod json;
pub mod token;
