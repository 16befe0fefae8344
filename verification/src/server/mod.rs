//! The A2A server: what is answered to a request, and what is shown to whom.

pub mod cards;
pub mod executor;
pub mod factory;
pub mod handlers;
pub mod stream;
