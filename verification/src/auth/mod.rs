//! Who is calling: identities, bearer tokens, and which requests may pass.

pub mod identity;
pub mod jwt;
pub mod middleware;
