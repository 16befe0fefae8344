//! Adapters between module data and the A2A protocol.

use vstd::prelude::*;
use vstd::string::*;

use crate::text::join;

pub mod agent_card;
pub mod errors;
pub mod parts;
pub mod schema;
pub mod skill_mapper;

pub use agent_card::AgentCardBuilder;
pub use errors::{A2aErrorFormatter, ErrorMapper};
pub use parts::PartConverter;
pub use schema::SchemaConverter;
pub use skill_mapper::SkillMapper;

verus! {

/// Why module data cannot be adapted.
#[derive(Debug)]
pub enum AdapterError {
    SchemaConversion(String),
    InvalidModuleId { id: String },
}

/// What such an error says.
pub open spec fn adapter_error_text(e: AdapterError) -> Seq<char> {
    match e {
        AdapterError::SchemaConversion(m) => "schema conversion failed: "@ + m@,
        AdapterError::InvalidModuleId { id } => "invalid module ID '"@ + id@ + "'"@,
    }
}

impl AdapterError {
    /// What the error says.
    pub fn message(&self) -> (r: String)
        ensures
            r@ == adapter_error_text(*self),
    {
        match self {
            AdapterError::SchemaConversion(m) => join("schema conversion failed: ", m.as_str()),
            AdapterError::InvalidModuleId { id } => {
                let mut out: String = join("invalid module ID '", id.as_str());
                out.append("'");
                out
            },
        }
    }
}

/// What an adapter failed at is told.
pub proof fn adapter_failures_are_told(e: AdapterError)
    ensures
        e matches AdapterError::SchemaConversion(m) ==> adapter_error_text(e)
            == "schema conversion failed: "@ + m@,
        e matches AdapterError::InvalidModuleId { id } ==> adapter_error_text(e)
            == "invalid module ID '"@ + id@ + "'"@,
{
}

} // verus!
