//! Agent Cards built from a registry.

use apcore::context::Context;
use apcore::errors::ModuleError;
use apcore::module::{Module, ModuleAnnotations};
use apcore::registry::registry::Registry;
use apcore_a2a::adapters::agent_card::{to_a2a_security_schemes, AgentCapabilities, AgentCard};
use apcore_a2a::json::Json;
use apcore_a2a::modules::registered_modules;
use apcore_a2a::{AgentCardBuilder, SkillMapper};
use serde_json::Value;
use std::future::Future;
use std::pin::Pin;

fn j(text: &str) -> Json {
    Json::parse(text).expect("valid JSON")
}

struct EchoModule {
    description: &'static str,
}

impl Module for EchoModule {
    fn input_schema(&self) -> Value {
        serde_json::from_str(r#"{"type":"object"}"#).unwrap()
    }
    fn output_schema(&self) -> Value {
        serde_json::from_str(r#"{"type":"object"}"#).unwrap()
    }
    fn description(&self) -> &str {
        self.description
    }
    fn annotations(&self) -> ModuleAnnotations {
        ModuleAnnotations { idempotent: true, ..Default::default() }
    }
    fn execute<'a, 'b, 'c>(
        &'a self,
        inputs: Value,
        _ctx: &'b Context<Value>,
    ) -> Pin<Box<dyn Future<Output = Result<Value, ModuleError>> + Send + 'c>>
    where
        'a: 'c,
        'b: 'c,
        Self: 'c,
    {
        Box::pin(std::future::ready(Ok(inputs)))
    }
}

fn echo_registry() -> Registry {
    let registry = Registry::new();
    registry
        .register_module("test.echo", Box::new(EchoModule { description: "Echoes its inputs" }))
        .expect("register echo module");
    registry
}

fn capabilities() -> AgentCapabilities {
    AgentCapabilities {
        streaming: true,
        push_notifications: false,
        extensions: vec![],
        extended_agent_card: false,
    }
}

fn build_card(builder: &mut AgentCardBuilder, registry: &Registry) -> AgentCard {
    builder.build(
        registry,
        "Agent",
        "An agent",
        "1.0.0",
        "http://localhost",
        capabilities(),
        None,
    )
}

#[test]
fn security_schemes_use_a2a_oneof_shape() {
    let input = j(r#"{"bearerAuth":{"type":"http","scheme":"bearer","bearerFormat":"JWT"}}"#);
    assert_eq!(
        to_a2a_security_schemes(Some(&input)),
        j(r#"{"bearerAuth":{"httpAuthSecurityScheme":{"scheme":"bearer","bearerFormat":"JWT"}}}"#)
    );
    assert_eq!(to_a2a_security_schemes(None), j("{}"));
}

#[test]
fn other_schemes_and_missing_fields() {
    let input = j(r#"{"a":{"type":"apiKey"},"b":{"type":"http","bearerFormat":""}}"#);
    assert_eq!(
        to_a2a_security_schemes(Some(&input)),
        j(r#"{"a":{},"b":{"httpAuthSecurityScheme":{"scheme":"bearer"}}}"#)
    );
    assert_eq!(to_a2a_security_schemes(Some(&j("[]"))), j("{}"));
}

#[test]
fn skill_description_is_the_one_line_description_not_the_describe_document() {
    let registry = echo_registry();
    let mut builder = AgentCardBuilder::new(SkillMapper::new());
    let card = build_card(&mut builder, &registry);
    let skill = card.skills.iter().find(|s| s.id == "test.echo").expect("echo skill is advertised");
    assert_eq!(skill.description, "Echoes its inputs");

    let document = registry.describe("test.echo").expect("module is registered");
    assert_ne!(document, skill.description);
    assert!(!skill.description.contains("# test.echo"));
}

#[test]
fn build_populates_cache_for_subsequent_get() {
    let registry = echo_registry();
    let mut builder = AgentCardBuilder::new(SkillMapper::new());
    let built = build_card(&mut builder, &registry);
    let from_cache = builder.get_cached_or_build(
        &registry,
        "DIFFERENT",
        "different",
        "9.9.9",
        "http://other",
        capabilities(),
        None,
    );
    assert_eq!(from_cache.name, built.name);
    assert_eq!(from_cache.version, built.version);
    assert_eq!(from_cache.name, "Agent");

    builder.invalidate_cache();
    let rebuilt = builder.get_cached_or_build(
        &registry,
        "DIFFERENT",
        "different",
        "9.9.9",
        "http://other",
        capabilities(),
        None,
    );
    assert_eq!(rebuilt.name, "DIFFERENT");
    assert_eq!(builder.build_extended(&rebuilt).to_json(), rebuilt.to_json());
}

#[test]
fn build_respects_caller_extended_agent_card_not_security_schemes() {
    let registry = echo_registry();
    let mut builder = AgentCardBuilder::new(SkillMapper::new());
    let caps_true = AgentCapabilities { extended_agent_card: true, ..capabilities() };
    let card = builder.build(
        &registry,
        "Agent",
        "An agent",
        "1.0.0",
        "http://localhost",
        caps_true,
        None,
    );
    assert!(card.capabilities.extended_agent_card);

    let caps_false = AgentCapabilities { extended_agent_card: false, ..capabilities() };
    let schemes = j(r#"{"bearer":{"type":"http"}}"#);
    let card = builder.build(
        &registry,
        "Agent",
        "An agent",
        "1.0.0",
        "http://localhost",
        caps_false,
        Some(&schemes),
    );
    assert!(!card.capabilities.extended_agent_card);
}

#[test]
fn the_json_of_a_card() {
    let registry = echo_registry();
    let mut builder = AgentCardBuilder::new(SkillMapper::new());
    let card = build_card(&mut builder, &registry);
    assert_eq!(
        card.to_json().to_text(),
        [
            r#"{"name":"Agent","description":"An agent","version":"1.0.0","#,
            r#""supportedInterfaces":[{"url":"http://localhost","protocolBinding":"JSONRPC","protocolVersion":"1.0","tenant":""}],"#,
            r#""capabilities":{"streaming":true,"pushNotifications":false,"extensions":[],"extendedAgentCard":false},"#,
            r#""skills":[{"id":"test.echo","name":"Test Echo","description":"Echoes its inputs","tags":["apcore:idempotent"],"examples":[],"#,
            r#""inputModes":["application/json"],"outputModes":["application/json"],"securityRequirements":[]}],"#,
            r#""defaultInputModes":["text/plain","application/json"],"defaultOutputModes":["text/plain","application/json"],"#,
            r#""securitySchemes":{},"securityRequirements":[],"signatures":[]}"#,
        ]
        .concat()
    );
}

#[test]
fn a_module_without_a_description_is_not_shown() {
    let registry = echo_registry();
    registry
        .register_module("test.blank", Box::new(EchoModule { description: " \t" }))
        .expect("register blank module");
    let modules = registered_modules(&registry);
    let ids: Vec<&str> = modules.iter().map(|m| m.id.as_str()).collect();
    assert_eq!(ids, vec!["test.blank", "test.echo"]);
    assert_eq!(
        modules[1].descriptor.as_ref().map(|d| d.input_schema.clone()),
        Some(j(r#"{"type":"object"}"#))
    );
    let mut builder = AgentCardBuilder::new(SkillMapper::new());
    let card = build_card(&mut builder, &registry);
    assert_eq!(card.skills.len(), 1);
}
