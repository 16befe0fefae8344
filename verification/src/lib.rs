//! # apcore-a2a
//!
//! The A2A (agent to agent) protocol for apcore: what an agent tells of its
//! modules, what is answered to a request, who may see and run what, and what a
//! client makes of the answers.
//!
//! Strings are modelled by the sequence of their characters, JSON by
//! [`json::JsonV`], and each protocol type by a view of its own. The functions
//! compute; reading sockets, stores and clocks is left to the program around
//! them, which hands over what it read.

pub mod adapters;
pub mod apcore_a2a;
pub mod auth;
pub mod cli;
pub mod client;
pub mod codec;
pub mod json;
pub mod modules;
pub mod server;
pub mod storage;
pub mod text;
pub mod types;
pub mod wire;

pub use crate::adapters::{
    A2aErrorFormatter, AdapterError, AgentCardBuilder, ErrorMapper, PartConverter, SchemaConverter,
    SkillMapper,
};
pub use crate::apcore_a2a::{
    bind_addr, APCoreA2A, APCoreA2ABuilder, APCoreA2AConfig, APCoreA2AError, VERSION,
};
pub use crate::auth::jwt::{ClaimMapping, JWTAuthenticator};
pub use crate::auth::middleware::AUTH_IDENTITY;
pub use crate::client::card_fetcher::AgentCardFetcher;
pub use crate::client::client::A2AClient;
pub use crate::client::exceptions::{A2AClientError, ClientResult};
pub use crate::server::executor::ApCoreAgentExecutor;
pub use crate::server::factory::A2AServerFactory;
