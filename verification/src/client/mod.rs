//! The client side: calls to a remote A2A agent and the reading of its answers.

pub mod card_fetcher;
#[allow(clippy::module_inception)]
pub mod client;
pub mod exceptions;
pub mod sse;
