//! Requests from their bytes to their answers, over real modules and stores.

use apcore::acl::{ACLRule, ApprovalRequirement, AuditEntry, ACL};
use apcore::config::Config;
use apcore::context::Context;
use apcore::executor::Executor;
use apcore::module::{Module, ModuleAnnotations};
use apcore::registry::registry::Registry;
use apcore_a2a::adapters::errors::{ErrorCode, JsonRpcError, ModuleError};
use apcore_a2a::apcore_a2a::build_server;
use apcore_a2a::auth::identity::Identity;
use apcore_a2a::auth::middleware::{Admission, AuthRules};
use apcore_a2a::client::client::RpcCall;
use apcore_a2a::client::sse::{SseReader, StreamItem};
use apcore_a2a::json::Json;
use apcore_a2a::server::factory::{health, no_extended_card, ServerPlan};
use apcore_a2a::server::handlers::{
    begin_push_set, handle_cancel, handle_extended_card, handle_get, handle_list, handle_push_delete,
    handle_push_get, handle_push_set, jsonrpc_intake, owned_task_id, push_target, reply, sse_payload,
    task_id_of, written_task, Intake, Method, Request, SendStart,
};
use apcore_a2a::server::stream::{StreamStart, StreamStep};
use apcore_a2a::storage::{
    CallContext, InMemoryPushConfigStore, InMemoryTaskStore, ListParams, StoreError,
};
use apcore_a2a::types::{StreamEvent, Task};
use apcore_a2a::{A2AClient, A2AClientError, APCoreA2AConfig, APCoreA2AError, VERSION};
use serde_json::Value;
use std::future::Future;
use std::pin::Pin;
use std::sync::atomic::{AtomicUsize, Ordering};
use std::sync::Arc;

fn j(text: &str) -> Json {
    Json::parse(text).expect("valid JSON")
}

static NOTHING: Json = Json::Null;

/// The value at a path of member names and indices; null where there is none.
fn at<'a>(v: &'a Json, path: &[&str]) -> &'a Json {
    path.iter().fold(v, |v, k| match v {
        Json::Array(items) => k.parse::<usize>().ok().and_then(|i| items.get(i)).unwrap_or(&NOTHING),
        _ => v.get(k).unwrap_or(&NOTHING),
    })
}

fn text<'a>(v: &'a Json, path: &[&str]) -> &'a str {
    at(v, path).as_str().unwrap_or_default()
}

fn list<'a>(v: &'a Json, path: &[&str]) -> &'a [Json] {
    match at(v, path) {
        Json::Array(items) => items,
        other => panic!("no list: {other:?}"),
    }
}

enum Work {
    Echo,
    Guard,
    Internal,
}

struct TestModule {
    description: &'static str,
    work: Work,
    annotations: ModuleAnnotations,
}

impl Module for TestModule {
    fn input_schema(&self) -> Value {
        serde_json::from_str(r#"{"type":"object"}"#).unwrap()
    }
    fn output_schema(&self) -> Value {
        serde_json::from_str(r#"{"type":"object"}"#).unwrap()
    }
    fn description(&self) -> &str {
        self.description
    }
    fn annotations(&self) -> ModuleAnnotations {
        self.annotations.clone()
    }
    fn execute<'a, 'b, 'c>(
        &'a self,
        inputs: Value,
        _ctx: &'b Context<Value>,
    ) -> Pin<Box<dyn Future<Output = Result<Value, apcore::errors::ModuleError>> + Send + 'c>>
    where
        'a: 'c,
        'b: 'c,
        Self: 'c,
    {
        let result = match self.work {
            Work::Echo => Ok(inputs),
            Work::Guard => Err(apcore::errors::ModuleError::new(
                apcore::errors::ErrorCode::GeneralInvalidInput,
                "Parameters '1' and 'l' cannot be used together",
            )
            .with_ai_guidance("send one or the other")),
            Work::Internal => Err(apcore::errors::ModuleError::new(
                apcore::errors::ErrorCode::GeneralInternalError,
                "Database password: P@ssw0rd123",
            )),
        };
        Box::pin(std::future::ready(result))
    }
}

fn module(description: &'static str, work: Work) -> Box<TestModule> {
    Box::new(TestModule { description, work, annotations: ModuleAnnotations::default() })
}

fn echo_registry() -> Arc<Registry> {
    let registry = Registry::new();
    for (id, m) in [
        ("test.echo", module("Echoes its inputs", Work::Echo)),
        ("test.guard", module("Always refuses its input", Work::Guard)),
        ("test.internal", module("Always fails internally", Work::Internal)),
        ("test.slow", module("Sleeps before returning", Work::Echo)),
    ] {
        registry.register_module(id, m).expect("register module");
    }
    Arc::new(registry)
}

fn gated_registry() -> Arc<Registry> {
    let registry = Registry::new();
    registry
        .register_module("test.echo", module("Echoes its inputs", Work::Echo))
        .expect("register echo module");
    registry
        .register_module(
            "admin.users.delete",
            Box::new(TestModule {
                description: "Deletes a user",
                work: Work::Echo,
                annotations: ModuleAnnotations {
                    requires_approval: true,
                    destructive: true,
                    ..Default::default()
                },
            }),
        )
        .expect("register gated module");
    Arc::new(registry)
}

fn system_namespace_executor(acl: Option<ACL>) -> (Arc<Registry>, Executor) {
    let registry = Registry::new();
    registry
        .register_module("test.echo", module("Echoes its inputs", Work::Echo))
        .expect("register echo module");
    let registry = Arc::new(registry);
    let mut executor = Executor::new(registry.clone(), Config::default());
    if let Some(acl) = acl {
        executor.set_acl(acl);
    }
    let mut sys_config = Config::default();
    sys_config.set("sys_modules.enabled", Value::Bool(true));
    sys_config.set("sys_modules.events.enabled", Value::Bool(true));
    apcore::register_sys_modules(registry.clone(), &executor, &sys_config, None)
        .expect("register apcore system modules");
    (registry, executor)
}

fn system_ids(registry: &Registry) -> Vec<String> {
    let mut ids = registry.list(None, Some("system."), None);
    ids.sort();
    ids
}

fn rule(callers: &[&str], targets: &[&str], effect: &str, conditions: Option<&str>) -> ACLRule {
    ACLRule {
        callers: callers.iter().map(|c| c.to_string()).collect(),
        targets: targets.iter().map(|t| t.to_string()).collect(),
        effect: effect.to_string(),
        approval: None,
        description: None,
        conditions: conditions.map(|c| serde_json::from_str(c).unwrap()),
    }
}

fn allow_all_acl(targets: &str, effect: &str) -> ACL {
    ACL::new(vec![rule(&["*"], &[targets], effect, None)], "allow", None)
}

fn person(id: &str, kind: &str) -> Identity {
    Identity::new(id.into(), kind.into(), vec![], vec![])
}

/// The principal behind a bearer token.
fn principal(bearer: &str) -> Option<Identity> {
    match bearer {
        "good" => Some(person("u1", "test")),
        "other" => Some(person("u2", "test")),
        "weak" => Some(person("u3", "untrusted")),
        _ => None,
    }
}

fn schemes() -> Option<Json> {
    Some(j(r#"{"bearer":{"type":"http","scheme":"bearer"}}"#))
}

fn outside_identity(i: &Identity) -> apcore::context::Identity {
    apcore::context::Identity::new(
        i.id.clone(),
        i.identity_type.clone(),
        i.roles.clone(),
        Default::default(),
    )
}

fn code_of(code: apcore::errors::ErrorCode) -> ErrorCode {
    match code {
        apcore::errors::ErrorCode::GeneralInvalidInput => ErrorCode::GeneralInvalidInput,
        apcore::errors::ErrorCode::GeneralInternalError => ErrorCode::GeneralInternalError,
        apcore::errors::ErrorCode::ACLDenied => ErrorCode::ACLDenied,
        other => panic!("unexpected error: {other:?}"),
    }
}

/// What outlives a server.
#[derive(Default)]
struct Stores {
    tasks: InMemoryTaskStore,
    push: InMemoryPushConfigStore,
}

struct Server {
    plan: ServerPlan,
    executor: Executor,
    stores: Stores,
    tasks_down: bool,
    writes_down: bool,
    push_down: bool,
    told: Vec<StreamEvent>,
}

fn unreachable_store() -> StoreError {
    StoreError::backend_msg("database is unreachable")
}

impl Server {
    fn over(registry: &Registry, executor: Executor, config: APCoreA2AConfig, auth: bool) -> Server {
        let plan = build_server(
            registry,
            &config,
            if auth { Some(schemes()) } else { None },
            executor.acl.clone(),
        )
        .expect("build server");
        Server {
            plan,
            executor,
            stores: Stores::default(),
            tasks_down: false,
            writes_down: false,
            push_down: false,
            told: vec![],
        }
    }

    fn with(registry: Arc<Registry>, acl: Option<ACL>, auth: bool) -> Server {
        let mut executor = Executor::new(registry.clone(), Config::default());
        if let Some(acl) = acl {
            executor.set_acl(acl);
        }
        Server::over(&registry, executor, APCoreA2AConfig::default(), auth)
    }

    fn plain() -> Server {
        Server::with(echo_registry(), None, false)
    }

    fn with_auth() -> Server {
        Server::with(echo_registry(), None, true)
    }

    fn call(
        &self,
        skill: &str,
        inputs: &Json,
        who: Option<&Identity>,
    ) -> Result<Json, ModuleError> {
        let context = self.plan.state.executor.build_context(who);
        let ctx = Context::<Value>::builder()
            .caller_id(context.caller_id)
            .identity(context.identity.as_ref().map(outside_identity))
            .services(Value::Null)
            .build();
        let inputs: Value = serde_json::from_str(&inputs.to_text()).unwrap();
        let result = tokio::runtime::Builder::new_current_thread()
            .enable_all()
            .build()
            .unwrap()
            .block_on(self.executor.call(skill, inputs, Some(&ctx), None));
        match result {
            Ok(v) => Ok(j(&v.to_string())),
            Err(e) => {
                let mut err = ModuleError::new(code_of(e.code), &e.message);
                err.ai_guidance = e.ai_guidance.clone();
                err.user_fixable = e.user_fixable;
                Err(err)
            }
        }
    }

    fn save(&mut self, task: &Task, ctx: &CallContext) -> Result<(), StoreError> {
        if self.tasks_down {
            return Err(unreachable_store());
        }
        if self.writes_down {
            return Err(StoreError::backend_msg("database is read-only"));
        }
        self.stores.tasks.save(&task.id, task.to_json(), ctx)
    }

    fn read(&self, task_id: &str, ctx: &CallContext) -> Result<Option<Json>, StoreError> {
        if self.tasks_down {
            return Err(unreachable_store());
        }
        self.stores.tasks.get(task_id, ctx)
    }

    fn read_push(&self, task_id: &str, ctx: &CallContext) -> Result<Option<Json>, StoreError> {
        if self.push_down {
            return Err(unreachable_store());
        }
        self.stores.push.get(task_id, ctx)
    }

    fn tell(&mut self, event: StreamEvent, task_id: &str, ctx: &CallContext) {
        if push_target(&self.read_push(task_id, ctx)).is_some() {
            self.told.push(event);
        }
    }

    /// `message/send` up to the point where the module is run.
    fn submit(&mut self, body: &str) -> String {
        let request = match jsonrpc_intake(None, body.as_bytes()) {
            Intake::Run(r) => r,
            other => panic!("{other:?}"),
        };
        match self.plan.state.begin_send(&request.params) {
            SendStart::Run { request, task } => {
                self.save(&task, &CallContext::anonymous()).unwrap();
                request.task_id
            }
            other => panic!("{other:?}"),
        }
    }

    fn send(&mut self, params: &Json, who: Option<&Identity>) -> Result<Json, JsonRpcError> {
        let ctx = CallContext::from_identity(who);
        match self.plan.state.begin_send(params) {
            SendStart::Refuse(e) => Err(e),
            SendStart::Fail(end) => {
                let _ = self.save(&end.task, &ctx);
                let task = end.task.to_json();
                self.tell(end.event, &end.task.id, &ctx);
                Ok(task)
            }
            SendStart::Run { request, task } => {
                let _ = self.save(&task, &ctx);
                let result = self.call(&request.skill_id, &request.inputs, who);
                let end =
                    self.plan.state.finish_send(&request.task_id, &request.context_id, result);
                let written = self.save(&end.task, &ctx);
                let answer = written_task(&end.task, written)?;
                self.tell(end.event, &request.task_id, &ctx);
                Ok(answer)
            }
        }
    }

    fn run(&mut self, request: &Request, who: Option<&Identity>) -> Result<Json, JsonRpcError> {
        let ctx = CallContext::from_identity(who);
        let params = &request.params;
        match request.method {
            Method::SendMessage => self.send(params, who),
            Method::StreamMessage => panic!("a stream is read by frames"),
            Method::GetTask => {
                let id = task_id_of(params)?;
                handle_get(self.read(&id, &ctx))
            }
            Method::CancelTask => {
                let id = task_id_of(params)?;
                let end = handle_cancel(&id, self.read(&id, &ctx))?;
                let written = self.save(&end.task, &ctx);
                let answer = written_task(&end.task, written)?;
                self.tell(end.event, &id, &ctx);
                Ok(answer)
            }
            Method::ListTasks => handle_list(if self.tasks_down {
                Err(unreachable_store())
            } else {
                self.stores.tasks.list(&ListParams::new(), &ctx)
            }),
            Method::GetExtendedAgentCard => {
                handle_extended_card(self.plan.state.extended_agent_card(who))
            }
            Method::SetPushConfig => {
                let id = task_id_of(params)?;
                let (id, config) = begin_push_set(params, &self.read(&id, &ctx))?;
                let written = if self.push_down {
                    Err(unreachable_store())
                } else {
                    self.stores.push.save(&id, config.clone(), &ctx)
                };
                handle_push_set(&id, config, written)
            }
            Method::GetPushConfig => {
                let id = task_id_of(params)?;
                let id = owned_task_id(params, &self.read(&id, &ctx))?;
                handle_push_get(&id, self.read_push(&id, &ctx))
            }
            Method::DeletePushConfig => {
                let id = task_id_of(params)?;
                let id = owned_task_id(params, &self.read(&id, &ctx))?;
                handle_push_delete(if self.push_down {
                    Err(unreachable_store())
                } else {
                    self.stores.push.delete(&id, &ctx)
                })
            }
        }
    }

    fn rpc_as(&mut self, bearer: &str, body: &str) -> Json {
        let who = principal(bearer);
        match jsonrpc_intake(Some("application/json"), body.as_bytes()) {
            Intake::UnsupportedMediaType => panic!("unsupported media type"),
            Intake::Answer(a) => a,
            Intake::Run(request) => {
                let r = self.run(&request, who.as_ref());
                reply(&request.id, r)
            }
        }
    }

    fn rpc(&mut self, body: &str) -> Json {
        self.rpc_as("", body)
    }

    fn keep(&mut self, id: &Json, step: StreamStep, ctx: &CallContext, frames: &mut Vec<Json>) {
        for e in &step.events {
            frames.push(sse_payload(id, e));
        }
        if let Some(end) = step.end {
            let _ = self.save(&end.task, ctx);
            frames.push(sse_payload(id, &end.event));
            self.tell(end.event, &end.task.id, ctx);
        }
    }

    /// The frames of a stream.
    fn frames(&mut self, body: &str) -> Vec<Json> {
        let ctx = CallContext::anonymous();
        let request = match jsonrpc_intake(Some("application/json"), body.as_bytes()) {
            Intake::Run(r) => r,
            other => panic!("{other:?}"),
        };
        assert_eq!(request.method, Method::StreamMessage);
        let mut frames = vec![];
        match self.plan.state.begin_stream(&request.params) {
            StreamStart::Refuse(e) => frames.push(reply(&request.id, Err(e))),
            StreamStart::Fail(step) => self.keep(&request.id, step, &ctx, &mut frames),
            StreamStart::Run { request: parsed, mut session } => {
                let step = session.start();
                let ended = step.end.is_some();
                self.keep(&request.id, step, &ctx, &mut frames);
                if !ended {
                    let error = match self.call(&parsed.skill_id, &parsed.inputs, None) {
                        Ok(chunk) => {
                            let event = session.chunk(&chunk).expect("running");
                            frames.push(sse_payload(&request.id, &event));
                            None
                        }
                        Err(e) => Some(e),
                    };
                    let step = session.finish(error);
                    self.keep(&request.id, step, &ctx, &mut frames);
                }
            }
        }
        frames
    }

    fn events(&mut self, body: &str) -> Vec<Json> {
        self.frames(body).iter().map(|f| at(f, &["result"]).clone()).collect()
    }

    fn public_skills(&self) -> Vec<String> {
        skill_ids(&self.plan.state.agent_card)
    }

    fn advertised_skills(&mut self, bearer: &str) -> Vec<String> {
        let who = principal(bearer);
        skill_ids(&self.plan.state.extended_agent_card(who.as_ref()).expect("extended card"))
    }

    fn is_callable(&mut self, bearer: &str, skill: &str) -> bool {
        let sent = self.rpc_as(bearer, &send_to(skill));
        text(&sent, &["result", "status", "message", "parts", "0", "text"]) != "Access denied"
    }

    fn conclude(&mut self, call: &RpcCall) -> Result<Json, A2AClientError> {
        let answer = self.rpc(&call.body.to_text());
        call.conclude(&answer)
    }
}

fn skill_ids(card: &Json) -> Vec<String> {
    list(card, &["skills"]).iter().map(|s| text(s, &["id"]).to_string()).collect()
}

fn send_body(method: &str, id: &str, part: &str, skill: Option<&str>) -> String {
    let metadata = match skill {
        Some(s) => format!(r#","metadata":{{"skillId":"{s}"}}"#),
        None => String::new(),
    };
    format!(
        r#"{{"jsonrpc":"2.0","id":"{id}","method":"{method}","params":{{"message":{{"messageId":"m1","role":"ROLE_USER","parts":[{part}]}}{metadata}}}}}"#
    )
}

fn send_to(skill: &str) -> String {
    send_body("message/send", "1", r#"{"data":{}}"#, Some(skill))
}

fn by_id(method: &str, id: &str) -> String {
    format!(r#"{{"jsonrpc":"2.0","id":"4","method":"{method}","params":{{"id":"{id}"}}}}"#)
}

fn set_push(id: &str, config: &str) -> String {
    format!(
        r#"{{"jsonrpc":"2.0","id":"1","method":"tasks/pushNotificationConfig/set","params":{{"id":"{id}","pushNotificationConfig":{config}}}}}"#
    )
}

const LIST: &str = r#"{"jsonrpc":"2.0","id":"2","method":"ListTasks","params":{}}"#;

fn error_code(resp: &Json) -> &Json {
    at(resp, &["error", "code"])
}

#[test]
fn agent_card_is_a2a_1_0_shape() {
    let server = Server::plain();
    let card = &server.plan.state.agent_card;
    assert_eq!(text(card, &["supportedInterfaces", "0", "protocolVersion"]), "1.0");
    assert_eq!(text(card, &["supportedInterfaces", "0", "protocolBinding"]), "JSONRPC");
    assert!(matches!(at(card, &["capabilities", "extensions"]), Json::Array(_)));
    assert!(at(card, &["capabilities"]).get("stateTransitionHistory").is_none());
    assert!(card.get("url").is_none());
    assert_eq!(text(card, &["skills", "0", "id"]), "test.echo");
    assert!(matches!(at(card, &["skills", "0", "securityRequirements"]), Json::Array(_)));
}

#[test]
fn agent_card_version_tracks_crate_version() {
    let server = Server::plain();
    assert_eq!(text(&server.plan.state.agent_card, &["version"]), VERSION);
    assert_eq!(VERSION, "0.4.4");
}

#[test]
fn agent_card_advertises_only_acl_allowed_skills() {
    let acl = ACL::new(vec![rule(&["*"], &["test.echo"], "allow", None)], "deny", None);
    let server = Server::with(echo_registry(), Some(acl), false);
    assert_eq!(
        server.public_skills(),
        vec!["test.echo"],
        "only the ACL-allowed skill may be advertised"
    );
}

#[test]
fn agent_card_is_unfiltered_when_no_acl_is_configured() {
    assert_eq!(Server::plain().public_skills().len(), 4);
}

#[test]
fn health_ok() {
    assert_eq!(text(&health(), &["status"]), "healthy");
}

#[test]
fn message_send_executes_and_completes() {
    let resp = Server::plain().rpc(&send_body(
        "message/send",
        "1",
        r#"{"data":{"hello":"world"}}"#,
        Some("test.echo"),
    ));
    assert_eq!(text(&resp, &["result", "status", "state"]), "TASK_STATE_COMPLETED");
    assert_eq!(
        at(&resp, &["result", "artifacts", "0", "parts", "0", "data"]),
        &j(r#"{"hello":"world"}"#)
    );
}

#[test]
fn failed_task_surfaces_caller_fixable_error_detail() {
    let resp = Server::plain().rpc(&send_to("test.guard"));
    assert_eq!(text(&resp, &["result", "status", "state"]), "TASK_STATE_FAILED");
    let said = text(&resp, &["result", "status", "message", "parts", "0", "text"]);
    assert!(said.contains("'1' and 'l' cannot be used together"), "guard text missing from {said:?}");
    assert!(said.contains("send one or the other"), "ai_guidance missing from {said:?}");
}

#[test]
fn failed_task_keeps_internal_errors_opaque() {
    let resp = Server::plain().rpc(&send_to("test.internal"));
    assert_eq!(text(&resp, &["result", "status", "state"]), "TASK_STATE_FAILED");
    let said = text(&resp, &["result", "status", "message", "parts", "0", "text"]);
    assert_eq!(said, "Internal server error");
    assert!(!said.contains("P@ssw0rd123"));
}

#[test]
fn sse_frames_are_jsonrpc_responses_carrying_the_event() {
    let frames = Server::plain().frames(&send_body(
        "message/stream",
        "req-7",
        r#"{"data":{"x":1}}"#,
        Some("test.echo"),
    ));
    assert!(!frames.is_empty());
    for frame in &frames {
        assert_eq!(text(frame, &["jsonrpc"]), "2.0");
        assert_eq!(text(frame, &["id"]), "req-7", "the request id is echoed");
        assert!(matches!(at(frame, &["result"]), Json::Object(_)), "event lives under result");
    }
    let first = at(&frames[0], &["result"]);
    assert!(first.get("statusUpdate").is_some());
    assert!(first.get("kind").is_none());
    assert!(at(first, &["statusUpdate"]).get("final").is_none());
}

#[test]
fn message_stream_surfaces_caller_fixable_error_detail() {
    let events = Server::plain().events(&send_body(
        "message/stream",
        "1",
        r#"{"data":{}}"#,
        Some("test.guard"),
    ));
    let status = at(events.last().expect("at least one event"), &["statusUpdate", "status"]);
    assert_eq!(text(status, &["state"]), "TASK_STATE_FAILED");
    assert!(text(status, &["message", "parts", "0", "text"]).contains("cannot be used together"));
}

#[test]
fn sdk_conventional_lowercase_role_is_accepted() {
    let resp = Server::plain().rpc(
        r#"{"jsonrpc":"2.0","id":"1","method":"message/send","params":{"message":{"messageId":"m1","role":"user","parts":[{"data":{"a":1}}]},"metadata":{"skillId":"test.echo"}}}"#,
    );
    assert!(resp.get("error").is_none(), "unexpected error: {resp:?}");
    assert_eq!(text(&resp, &["result", "status", "state"]), "TASK_STATE_COMPLETED");
}

#[test]
fn unreadable_message_names_the_field_that_failed() {
    let resp = Server::plain().rpc(
        r#"{"jsonrpc":"2.0","id":"1","method":"message/send","params":{"message":{"messageId":"m1","role":"wizard","parts":[{"data":{}}]},"metadata":{"skillId":"test.echo"}}}"#,
    );
    assert_eq!(error_code(&resp), &j("-32602"));
    let message = text(&resp, &["error", "message"]);
    assert!(message.contains("wizard"), "{message}");
    assert!(message.contains("ROLE_USER"), "{message}");
    assert!(!message.contains("Missing"), "{message}");
}

#[test]
fn text_part_is_parsed_against_the_module_input_schema() {
    let resp = Server::plain().rpc(&send_body(
        "message/send",
        "1",
        r#"{"text":"{\"hello\": \"world\"}"}"#,
        Some("test.echo"),
    ));
    assert_eq!(text(&resp, &["result", "status", "state"]), "TASK_STATE_COMPLETED");
    assert_eq!(
        at(&resp, &["result", "artifacts", "0", "parts", "0", "data"]),
        &j(r#"{"hello":"world"}"#)
    );
}

#[test]
fn text_part_that_is_not_json_fails_the_task_with_a_readable_reason() {
    let resp = Server::plain().rpc(&send_body(
        "message/send",
        "1",
        r#"{"text":"not json at all"}"#,
        Some("test.echo"),
    ));
    assert_eq!(text(&resp, &["result", "status", "state"]), "TASK_STATE_FAILED");
    let said = text(&resp, &["result", "status", "message", "parts", "0", "text"]);
    assert!(said.contains("not valid JSON"), "{said}");
}

#[test]
fn message_send_missing_skill_id_yields_failed_task() {
    let resp =
        Server::plain().rpc(&send_body("message/send", "2", r#"{"text":"hi"}"#, None));
    assert!(resp.get("error").is_none(), "expected a task, not an error: {resp:?}");
    assert_eq!(text(&resp, &["result", "status", "state"]), "TASK_STATE_FAILED");
    assert_eq!(
        text(&resp, &["result", "status", "message", "parts", "0", "text"]),
        "Missing required parameter: metadata.skillId"
    );
}

#[test]
fn message_send_missing_message_is_invalid_params() {
    let resp = Server::plain().rpc(
        r#"{"jsonrpc":"2.0","id":"3","method":"message/send","params":{"metadata":{"skillId":"test.echo"}}}"#,
    );
    assert_eq!(error_code(&resp), &j("-32602"));
}

#[test]
fn an_unknown_skill_is_told_in_a_failed_task() {
    let mut server = Server::plain();
    let resp = server.rpc(&send_to("test.none"));
    assert_eq!(text(&resp, &["result", "status", "state"]), "TASK_STATE_FAILED");
    assert_eq!(
        text(&resp, &["result", "status", "message", "parts", "0", "text"]),
        "Skill not found: test.none"
    );
    let events =
        server.events(&send_body("message/stream", "1", r#"{"data":{}}"#, Some("test.none")));
    let states: Vec<&str> =
        events.iter().map(|e| text(e, &["statusUpdate", "status", "state"])).collect();
    assert_eq!(states, vec!["TASK_STATE_SUBMITTED", "TASK_STATE_FAILED"]);
}

#[test]
fn message_stream_emits_terminal_last_chunk_marker() {
    let events = Server::plain().events(&send_body(
        "message/stream",
        "s1",
        r#"{"data":{"x":1}}"#,
        Some("test.echo"),
    ));
    let last_chunk = events
        .iter()
        .position(|e| at(e, &["artifactUpdate", "lastChunk"]) == &Json::Bool(true));
    let completed = events
        .iter()
        .position(|e| text(e, &["statusUpdate", "status", "state"]) == "TASK_STATE_COMPLETED");
    assert!(last_chunk.is_some(), "expected a lastChunk=true artifactUpdate, got: {events:?}");
    assert!(completed.is_some(), "expected a COMPLETED statusUpdate");
    assert!(last_chunk < completed, "lastChunk marker must precede COMPLETED: {events:?}");
    let marker = at(&events[last_chunk.unwrap()], &["artifactUpdate"]);
    assert!(text(marker, &["artifact", "artifactId"]).starts_with("art-"));
    assert_eq!(at(marker, &["artifact", "parts"]), &j("[]"));
}

#[test]
fn message_stream_missing_skill_id_yields_failed_task_events() {
    let events =
        Server::plain().events(&send_body("message/stream", "s2", r#"{"text":"hi"}"#, None));
    let states: Vec<&str> =
        events.iter().map(|e| text(e, &["statusUpdate", "status", "state"])).collect();
    assert_eq!(states, vec!["TASK_STATE_SUBMITTED", "TASK_STATE_FAILED"]);
}

#[test]
fn unknown_method_is_method_not_found() {
    let resp = Server::plain()
        .rpc(r#"{"jsonrpc":"2.0","id":"3","method":"does/not/exist","params":{}}"#);
    assert_eq!(error_code(&resp), &j("-32601"));
}

#[test]
fn malformed_json_is_a_parse_error_not_a_plain_text_400() {
    let resp = Server::plain().rpc("{not json");
    assert_eq!(text(&resp, &["jsonrpc"]), "2.0");
    assert_eq!(error_code(&resp), &j("-32700"));
    assert_eq!(resp.get("id"), Some(&Json::Null));
}

#[test]
fn wrong_jsonrpc_version_is_invalid_request() {
    let resp =
        Server::plain().rpc(r#"{"jsonrpc":"1.0","id":"1","method":"tasks/list","params":{}}"#);
    assert_eq!(error_code(&resp), &j("-32600"));
    assert_eq!(text(&resp, &["id"]), "1");
}

#[test]
fn missing_jsonrpc_or_method_is_invalid_request() {
    let mut server = Server::plain();
    let no_version = server.rpc(r#"{"id":"1","method":"tasks/list","params":{}}"#);
    assert_eq!(error_code(&no_version), &j("-32600"));
    let no_method = server.rpc(r#"{"jsonrpc":"2.0","id":"1","params":{}}"#);
    assert_eq!(error_code(&no_method), &j("-32600"));
    let no_object = server.rpc("7");
    assert_eq!(error_code(&no_object), &j("-32600"));
}

#[test]
fn batch_request_is_rejected_as_invalid_request() {
    let resp =
        Server::plain().rpc(r#"[{"jsonrpc":"2.0","id":"1","method":"tasks/list","params":{}}]"#);
    assert_eq!(error_code(&resp), &j("-32600"));
    assert!(text(&resp, &["error", "message"]).contains("Batch requests are not supported"));
}

#[test]
fn notification_is_answered_with_a_null_id() {
    let resp = Server::plain().rpc(r#"{"jsonrpc":"2.0","method":"ListTasks","params":{}}"#);
    assert_eq!(resp.get("id"), Some(&Json::Null));
    assert!(matches!(at(&resp, &["result", "tasks"]), Json::Array(_)));
}

#[test]
fn non_json_content_type_is_unsupported_media_type() {
    assert!(matches!(jsonrpc_intake(Some("text/plain"), b"{}"), Intake::UnsupportedMediaType));
}

#[test]
fn auth_rejects_unauthenticated_jsonrpc() {
    let server = Server::with_auth();
    let rules = AuthRules::new(server.plan.auth_exempt.clone().expect("authenticated"));
    assert!(matches!(rules.screen("/", None), Admission::Reject));
}

#[test]
fn auth_allows_valid_bearer_and_card_stays_public() {
    let server = Server::with_auth();
    let rules = AuthRules::new(server.plan.auth_exempt.clone().expect("authenticated"));
    assert!(matches!(rules.screen("/", principal("good")), Admission::Forward(Some(_))));
    assert!(matches!(
        rules.screen("/.well-known/agent-card.json", None),
        Admission::Forward(None)
    ));
    let card = &server.plan.state.agent_card;
    assert_eq!(at(card, &["capabilities", "extendedAgentCard"]), &Json::Bool(true));
    assert!(matches!(at(card, &["securitySchemes", "bearer"]), Json::Object(_)));
}

#[test]
fn task_reads_are_scoped_to_the_authenticated_principal() {
    let mut app = Server::with_auth();
    let sent = app.rpc_as(
        "good",
        &send_body("message/send", "1", r#"{"data":{"secret":"u1-only"}}"#, Some("test.echo")),
    );
    let task_id = text(&sent, &["result", "id"]).to_string();
    assert!(!task_id.is_empty(), "task id");

    let mine = app.rpc_as("good", LIST);
    assert_eq!(list(&mine, &["result", "tasks"]).len(), 1);
    let theirs = app.rpc_as("other", LIST);
    assert_eq!(
        list(&theirs, &["result", "tasks"]).len(),
        0,
        "u2 must not see u1's tasks: {theirs:?}"
    );
    let stolen_get = app.rpc_as("other", &by_id("tasks/get", &task_id));
    assert_eq!(error_code(&stolen_get), &j("-32001"));
    let stolen_cancel = app.rpc_as("other", &by_id("tasks/cancel", &task_id));
    assert_eq!(error_code(&stolen_cancel), &j("-32001"));
}

#[test]
fn agent_card_filter_and_acl_enforcement_agree_for_the_same_principal() {
    let acl = ACL::new(
        vec![
            rule(&["@external"], &["test.internal", "test.slow"], "deny", None),
            rule(&["u1"], &["test.internal"], "allow", None),
            rule(&["*"], &["*"], "allow", Some(r#"{"identity_types":["test"]}"#)),
        ],
        "deny",
        None,
    );
    let mut app = Server::with(echo_registry(), Some(acl), true);
    assert!(
        app.public_skills().is_empty(),
        "the public card must not advertise what an anonymous caller cannot invoke"
    );
    let all_skills = ["test.echo", "test.guard", "test.internal", "test.slow"];
    for bearer in ["good", "weak"] {
        let advertised = app.advertised_skills(bearer);
        let mut callable: Vec<String> = vec![];
        for skill in all_skills {
            if app.is_callable(bearer, skill) {
                callable.push(skill.to_string());
            }
        }
        assert_eq!(
            advertised, callable,
            "the card filter and the ACL must agree for principal {bearer}"
        );
    }
    assert_eq!(
        app.advertised_skills("good"),
        vec!["test.echo".to_string(), "test.guard".to_string()],
    );
    assert!(app.advertised_skills("weak").is_empty());
}

#[test]
fn an_acl_approval_gate_hides_a_skill_from_the_public_card_only() {
    let mut gate = rule(&["*"], &["test.guard"], "allow", None);
    gate.approval = Some(ApprovalRequirement::Required);
    let acl = ACL::new(vec![gate, rule(&["*"], &["*"], "allow", None)], "deny", None);
    let mut app = Server::with(echo_registry(), Some(acl), true);
    let mut public = app.public_skills();
    public.sort();
    assert_eq!(
        public,
        vec!["test.echo".to_string(), "test.internal".to_string(), "test.slow".to_string()],
        "an ACL-gated skill must leave the public card"
    );
    let mut extended = app.advertised_skills("good");
    extended.sort();
    assert_eq!(
        extended,
        vec![
            "test.echo".to_string(),
            "test.guard".to_string(),
            "test.internal".to_string(),
            "test.slow".to_string()
        ],
        "the extended card must keep a skill the caller may reach behind a human"
    );
}

#[test]
fn public_card_excludes_the_system_namespace_with_no_acl() {
    let (registry, executor) = system_namespace_executor(None);
    assert!(!system_ids(&registry).is_empty(), "precondition");
    let app = Server::over(&registry, executor, APCoreA2AConfig::default(), false);
    assert_eq!(app.public_skills(), vec!["test.echo".to_string()]);
}

#[test]
fn public_card_excludes_the_system_namespace_even_when_the_acl_allows_it() {
    let (registry, executor) = system_namespace_executor(Some(allow_all_acl("*", "allow")));
    let app = Server::over(&registry, executor, APCoreA2AConfig::default(), false);
    assert_eq!(app.public_skills(), vec!["test.echo".to_string()]);
}

#[test]
fn extended_card_keeps_the_system_namespace() {
    let (registry, executor) = system_namespace_executor(None);
    let registered = system_ids(&registry);
    let mut app = Server::over(&registry, executor, APCoreA2AConfig::default(), true);
    let extended = app.advertised_skills("good");
    for id in &registered {
        assert!(extended.contains(id), "the extended card must carry {id}, got {extended:?}");
    }
    assert!(
        registered.iter().any(|id| id.starts_with("system.control.")),
        "precondition: sys_modules.events must have registered the write modules"
    );
    assert!(extended.contains(&"test.echo".to_string()));
}

#[test]
fn the_system_namespace_is_still_subject_to_the_acl_on_the_extended_card() {
    let (registry, executor) = system_namespace_executor(Some(allow_all_acl("system.*", "deny")));
    let mut app = Server::over(&registry, executor, APCoreA2AConfig::default(), true);
    assert_eq!(app.advertised_skills("good"), vec!["test.echo".to_string()]);
}

#[test]
fn agent_card_filter_does_not_re_drive_the_acl_audit_sink() {
    let entries = Arc::new(AtomicUsize::new(0));
    let counter = entries.clone();
    let acl = ACL::new(
        vec![rule(&["*"], &["test.echo"], "allow", None)],
        "deny",
        Some(Arc::new(move |_: &AuditEntry| {
            counter.fetch_add(1, Ordering::SeqCst);
        })),
    );
    let mut app = Server::with(echo_registry(), Some(acl), true);
    let built = entries.load(Ordering::SeqCst);
    assert!(built > 0, "building the public card does evaluate the ACL");
    let public = app.public_skills();
    let first = app.advertised_skills("good");
    let after_first = entries.load(Ordering::SeqCst);
    assert!(after_first > built, "the first fetch does evaluate the ACL");
    for _ in 0..20 {
        assert_eq!(app.public_skills(), public, "cached card must match");
        assert_eq!(app.advertised_skills("good"), first, "cached card must match");
    }
    assert_eq!(
        entries.load(Ordering::SeqCst),
        after_first,
        "repeat discovery requests must not re-drive the audit sink"
    );
}

#[test]
fn tasks_get_unknown_is_task_not_found() {
    let resp = Server::plain().rpc(&by_id("tasks/get", "nope"));
    assert_eq!(error_code(&resp), &j("-32001"));
}

#[test]
fn tasks_cancel_unknown_is_task_not_found_and_creates_nothing() {
    let mut server = Server::plain();
    let resp = server.rpc(&by_id("tasks/cancel", "nope"));
    assert_eq!(error_code(&resp), &j("-32001"));
    let after = server.rpc(&by_id("tasks/get", "nope"));
    assert_eq!(error_code(&after), &j("-32001"));
    assert!(server.stores.tasks.is_empty());
}

#[test]
fn tasks_cancel_on_completed_task_preserves_its_artifacts() {
    let mut server = Server::plain();
    let completed = server.rpc(&send_to("test.echo"));
    let task_id = text(&completed, &["result", "id"]).to_string();
    assert_eq!(text(&completed, &["result", "status", "state"]), "TASK_STATE_COMPLETED");

    let cancel = server.rpc(&by_id("tasks/cancel", &task_id));
    assert_eq!(error_code(&cancel), &j("-32002"));
    assert!(text(&cancel, &["error", "message"]).contains("TASK_STATE_COMPLETED"));

    let fetched = server.rpc(&by_id("tasks/get", &task_id));
    assert_eq!(text(&fetched, &["result", "status", "state"]), "TASK_STATE_COMPLETED");
    assert_eq!(
        list(&fetched, &["result", "artifacts"]).len(),
        1,
        "the completed task's artifact must survive a late cancel"
    );
}

#[test]
fn tasks_cancel_succeeds_while_the_task_is_in_flight() {
    let mut server = Server::plain();
    let task_id = server.submit(&send_to("test.slow"));
    let cancel = server.rpc(&by_id("tasks/cancel", &task_id));
    assert!(cancel.get("error").is_none(), "unexpected error: {cancel:?}");
    assert_eq!(text(&cancel, &["result", "status", "state"]), "TASK_STATE_CANCELED");
    assert_eq!(
        text(&cancel, &["result", "status", "message", "parts", "0", "text"]),
        "Canceled by client"
    );
    let fetched = server.rpc(&by_id("tasks/get", &task_id));
    assert_eq!(text(&fetched, &["result", "status", "state"]), "TASK_STATE_CANCELED");
}

#[test]
fn the_explorer_card_carries_input_schemas() {
    let registry = echo_registry();
    let config = APCoreA2AConfig { explorer: true, ..Default::default() };
    let executor = Executor::new(registry.clone(), Config::default());
    let server = Server::over(&registry, executor, config, false);
    assert_eq!(server.plan.explorer_path.as_deref(), Some("/explorer"));
    let card = server.plan.state.explorer_card.unfiltered();
    assert_eq!(text(card, &["_inputSchemas", "test.echo", "type"]), "object");
    assert!(Server::plain().plan.explorer_path.is_none());
}

#[test]
fn push_config_set_get_delete() {
    let mut server = Server::plain();
    let sent = server.rpc(&send_to("test.echo"));
    let task_id = text(&sent, &["result", "id"]).to_string();
    let set = server
        .rpc(&set_push(&task_id, r#"{"url":"https://hook.example.com/n","token":"t1"}"#));
    assert_eq!(
        text(&set, &["result", "pushNotificationConfig", "url"]),
        "https://hook.example.com/n"
    );
    let got = server.rpc(&by_id("tasks/pushNotificationConfig/get", &task_id));
    assert_eq!(text(&got, &["result", "pushNotificationConfig", "token"]), "t1");
    let deleted = server.rpc(&by_id("tasks/pushNotificationConfig/delete", &task_id));
    assert_eq!(deleted.get("result"), Some(&Json::Null));
    let after = server.rpc(&by_id("tasks/pushNotificationConfig/get", &task_id));
    assert_eq!(error_code(&after), &j("-32001"));
}

#[test]
fn push_config_is_scoped_to_the_authenticated_principal() {
    let mut app = Server::with_auth();
    let sent = app.rpc_as("good", &send_to("test.echo"));
    let task_id = text(&sent, &["result", "id"]).to_string();
    let mine = app.rpc_as("good", &set_push(&task_id, r#"{"url":"https://ok.example/n"}"#));
    assert_eq!(
        text(&mine, &["result", "pushNotificationConfig", "url"]),
        "https://ok.example/n"
    );
    for body in [
        set_push(&task_id, r#"{"url":"https://attacker.example/n"}"#),
        by_id("tasks/pushNotificationConfig/get", &task_id),
        by_id("tasks/pushNotificationConfig/delete", &task_id),
    ] {
        let stolen = app.rpc_as("other", &body);
        assert_eq!(error_code(&stolen), &j("-32001"), "{body}: {stolen:?}");
    }
    let after = app.rpc_as("good", &by_id("tasks/pushNotificationConfig/get", &task_id));
    assert_eq!(
        text(&after, &["result", "pushNotificationConfig", "url"]),
        "https://ok.example/n"
    );
}

#[test]
fn a_canceled_task_is_told_to_its_webhook() {
    let mut server = Server::plain();
    let task_id = server.submit(&send_to("test.slow"));
    server.rpc(&set_push(&task_id, r#"{"url":"http://127.0.0.1/hook"}"#));
    server.rpc(&by_id("tasks/cancel", &task_id));
    assert_eq!(server.told.len(), 1);
    let told = server.told[0].to_json();
    assert_eq!(text(&told, &["statusUpdate", "status", "state"]), "TASK_STATE_CANCELED");
    assert_eq!(text(&told, &["statusUpdate", "taskId"]), task_id);
}

#[test]
fn a_persistent_store_keeps_task_isolation_across_a_restart() {
    let mut before = Server::with_auth();
    let sent = before.rpc_as("good", &send_to("test.echo"));
    let task_id = text(&sent, &["result", "id"]).to_string();

    let mut restarted = Server::with_auth();
    restarted.stores = before.stores;
    let owner_get = restarted.rpc_as("good", &by_id("tasks/get", &task_id));
    assert_eq!(
        text(&owner_get, &["result", "id"]),
        task_id,
        "the owner must still reach its task after a restart, got {owner_get:?}"
    );
    let owner_list = restarted.rpc_as("good", LIST);
    let listed: Vec<&str> =
        list(&owner_list, &["result", "tasks"]).iter().map(|t| text(t, &["id"])).collect();
    assert_eq!(listed, vec![task_id.as_str()]);
    let other_get = restarted.rpc_as("other", &by_id("tasks/get", &task_id));
    assert_eq!(error_code(&other_get), &j("-32001"));
    let other_list = restarted.rpc_as("other", LIST);
    assert_eq!(list(&other_list, &["result", "tasks"]).len(), 0);
}

#[test]
fn a_persistent_push_config_store_keeps_its_scoping_across_a_restart() {
    let mut before = Server::with_auth();
    let sent = before.rpc_as("good", &send_to("test.echo"));
    let task_id = text(&sent, &["result", "id"]).to_string();
    let set = before.rpc_as("good", &set_push(&task_id, r#"{"url":"https://hook.example/x"}"#));
    assert!(set.get("error").is_none(), "set failed: {set:?}");

    let mut restarted = Server::with_auth();
    restarted.stores = before.stores;
    let owner_get =
        restarted.rpc_as("good", &by_id("tasks/pushNotificationConfig/get", &task_id));
    assert_eq!(
        text(&owner_get, &["result", "pushNotificationConfig", "url"]),
        "https://hook.example/x"
    );
    let other_get =
        restarted.rpc_as("other", &by_id("tasks/pushNotificationConfig/get", &task_id));
    assert_eq!(error_code(&other_get), &j("-32001"));
}

#[test]
fn public_card_withholds_approval_gated_skills_even_without_an_acl() {
    let app = Server::with(gated_registry(), None, false);
    assert_eq!(app.public_skills(), vec!["test.echo".to_string()]);
}

#[test]
fn extended_card_restores_approval_gated_skills_for_an_authenticated_caller() {
    let mut app = Server::with(gated_registry(), None, true);
    let public = app.public_skills();
    let mut extended = app.advertised_skills("good");
    extended.sort();
    assert_eq!(public, vec!["test.echo".to_string()]);
    assert_eq!(extended, vec!["admin.users.delete".to_string(), "test.echo".to_string()]);
    assert_ne!(public, extended, "the extended card must not be a copy");
}

#[test]
fn extended_card_capability_and_endpoint_agree() {
    const GET: &str = r#"{"jsonrpc":"2.0","id":1,"method":"GetExtendedAgentCard","params":{}}"#;
    let mut app = Server::with(gated_registry(), None, false);
    assert!(!app.plan.card.capabilities.extended_agent_card);
    assert!(app.plan.state.extended_agent_card(None).is_none());
    assert_eq!(
        no_extended_card(),
        j(r#"{"error":"Extended agent card is not configured"}"#)
    );
    let rpc = app.rpc(GET);
    assert_eq!(error_code(&rpc), &j("-32007"));

    let mut app = Server::with(gated_registry(), None, true);
    assert!(app.plan.card.capabilities.extended_agent_card);
    let rpc = app.rpc_as("good", GET);
    assert_eq!(skill_ids(at(&rpc, &["result"])).len(), 2);
}

#[test]
fn behavioral_annotations_reach_the_agent_card_as_namespaced_tags() {
    let mut app = Server::with(gated_registry(), None, true);
    let who = principal("good");
    let card = app.plan.state.extended_agent_card(who.as_ref()).expect("extended card");
    let gated = list(&card, &["skills"])
        .iter()
        .find(|s| text(s, &["id"]) == "admin.users.delete")
        .expect("gated skill on the extended card");
    let tags: Vec<&str> =
        list(gated, &["tags"]).iter().filter_map(|t| t.as_str()).collect();
    assert_eq!(tags, vec!["apcore:destructive", "apcore:requires-approval"]);
    assert!(!tags.contains(&"apcore:readonly"));
    assert!(!tags.contains(&"apcore:idempotent"));
}

#[test]
fn the_agent_card_url_is_derived_from_host_and_port_when_unset() {
    let registry = echo_registry();
    let config = APCoreA2AConfig {
        host: "127.0.0.1".to_string(),
        port: 18999,
        url: String::new(),
        ..Default::default()
    };
    let executor = Executor::new(registry.clone(), Config::default());
    let server = Server::over(&registry, executor, config, false);
    assert_eq!(
        server.plan.card.supported_interfaces[0].url, "http://127.0.0.1:18999",
        "the published endpoint must be resolvable"
    );
}

#[test]
fn a_registry_without_modules_is_not_served() {
    let built = build_server(&Registry::new(), &APCoreA2AConfig::default(), None, None);
    assert!(matches!(built, Err(APCoreA2AError::EmptyRegistry)));
}

fn seeded() -> (Server, String) {
    let mut server = Server::plain();
    let sent = server.rpc(&send_to("test.echo"));
    let task_id = text(&sent, &["result", "id"]).to_string();
    assert!(!task_id.is_empty(), "seed failed: {sent:?}");
    (server, task_id)
}

#[test]
fn tasks_get_reports_a_store_outage_as_internal_not_missing() {
    let (mut server, task_id) = seeded();
    server.tasks_down = true;
    let resp = server.rpc(&by_id("tasks/get", &task_id));
    assert_eq!(error_code(&resp), &j("-32603"), "got {resp:?}");
}

#[test]
fn a_missing_task_stays_distinguishable_from_a_store_outage() {
    let (mut server, task_id) = seeded();
    let missing = server.rpc(&by_id("tasks/get", "00000000-0000-4000-8000-000000000000"));
    assert_eq!(error_code(&missing), &j("-32001"), "got {missing:?}");
    server.tasks_down = true;
    let outage = server.rpc(&by_id("tasks/get", &task_id));
    assert_eq!(error_code(&outage), &j("-32603"), "got {outage:?}");
}

#[test]
fn tasks_list_reports_a_store_outage_instead_of_an_empty_list() {
    let (mut server, _) = seeded();
    server.tasks_down = true;
    let resp = server.rpc(LIST);
    assert!(
        resp.get("result").is_none(),
        "a store outage must not answer with a task list: {resp:?}"
    );
    assert_eq!(error_code(&resp), &j("-32603"), "got {resp:?}");
}

#[test]
fn tasks_cancel_reports_a_store_outage_as_internal() {
    let (mut server, task_id) = seeded();
    server.tasks_down = true;
    let resp = server.rpc(&by_id("tasks/cancel", &task_id));
    assert_eq!(error_code(&resp), &j("-32603"), "got {resp:?}");
}

#[test]
fn push_config_set_reports_a_store_outage() {
    let (mut server, task_id) = seeded();
    server.push_down = true;
    let resp = server.rpc(&set_push(&task_id, r#"{"url":"https://hook.example/x"}"#));
    assert_eq!(error_code(&resp), &j("-32603"), "got {resp:?}");
}

#[test]
fn push_config_get_reports_a_store_outage_as_internal_not_missing() {
    let (mut server, task_id) = seeded();
    let set = server.rpc(&set_push(&task_id, r#"{"url":"https://hook.example/x"}"#));
    assert!(set.get("error").is_none(), "set failed: {set:?}");
    server.push_down = true;
    let resp = server.rpc(&by_id("tasks/pushNotificationConfig/get", &task_id));
    assert_eq!(error_code(&resp), &j("-32603"), "got {resp:?}");
}

#[test]
fn push_config_delete_fails_loudly_instead_of_reporting_success() {
    let (mut server, task_id) = seeded();
    let set = server.rpc(&set_push(&task_id, r#"{"url":"https://hook.example/x"}"#));
    assert!(set.get("error").is_none(), "set failed: {set:?}");
    server.push_down = true;
    let resp = server.rpc(&by_id("tasks/pushNotificationConfig/delete", &task_id));
    assert!(
        resp.get("result").is_none() && resp.get("error").is_some(),
        "must not answer with a bare success: {resp:?}"
    );
    assert_eq!(error_code(&resp), &j("-32603"), "got {resp:?}");
    server.push_down = false;
    let still_there = server.rpc(&by_id("tasks/pushNotificationConfig/get", &task_id));
    assert_eq!(
        text(&still_there, &["result", "pushNotificationConfig", "url"]),
        "https://hook.example/x"
    );
}

#[test]
fn tasks_cancel_does_not_claim_success_when_the_write_failed() {
    let mut server = Server::plain();
    let task_id = server.submit(&send_to("test.slow"));
    server.writes_down = true;
    let resp = server.rpc(&by_id("tasks/cancel", &task_id));
    assert!(
        resp.get("result").is_none(),
        "must not answer with a cancelled task it failed to store: {resp:?}"
    );
    assert_eq!(error_code(&resp), &j("-32603"), "got {resp:?}");
}

#[test]
fn a_send_that_cannot_be_stored_is_the_server_s_failure() {
    let mut server = Server::plain();
    server.writes_down = true;
    let resp = server.rpc(&send_to("test.echo"));
    assert_eq!(error_code(&resp), &j("-32603"), "got {resp:?}");
}

fn user_message(data: &str) -> Json {
    j(&format!(r#"{{"messageId":"m1","role":"ROLE_USER","parts":[{{"data":{data}}}]}}"#))
}

fn echo_skill() -> Option<Json> {
    Some(j(r#"{"skillId":"test.echo"}"#))
}

fn client() -> A2AClient {
    A2AClient::try_new("http://localhost:8000", None, None, None).expect("client")
}

#[test]
fn send_message_executes_and_completes() {
    let call = client().send_message(user_message(r#"{"hello":"world"}"#), echo_skill(), None);
    let task = Server::plain().conclude(&call).expect("send_message");
    assert_eq!(text(&task, &["status", "state"]), "TASK_STATE_COMPLETED");
    assert_eq!(
        at(&task, &["artifacts", "0", "parts", "0", "data"]),
        &j(r#"{"hello":"world"}"#)
    );
}

#[test]
fn discover_returns_agent_card() {
    let server = Server::plain();
    let mut client = client();
    assert_eq!(client.fetcher.url(), "http://localhost:8000/.well-known/agent-card.json");
    assert!(client.fetcher.cached(0).is_none());
    client.fetcher.store(&server.plan.state.agent_card, 0);
    let card = client.fetcher.cached(1).expect("discover");
    assert_eq!(text(&card, &["skills", "0", "id"]), "test.echo");
    assert_eq!(text(&card, &["supportedInterfaces", "0", "protocolVersion"]), "1.0");
}

#[test]
fn get_task_unknown_is_task_not_found() {
    let call = client().get_task("does-not-exist");
    match Server::plain().conclude(&call).unwrap_err() {
        A2AClientError::TaskNotFound { task_id } => {
            assert_eq!(task_id.as_deref(), Some("does-not-exist"));
        }
        other => panic!("expected TaskNotFound, got {other:?}"),
    }
}

#[test]
fn cancel_task_unknown_is_task_not_found() {
    let call = client().cancel_task("task-x");
    let err = Server::plain().conclude(&call).unwrap_err();
    assert!(
        matches!(err, A2AClientError::TaskNotFound { .. }),
        "expected TaskNotFound, got {err:?}"
    );
}

#[test]
fn cancel_task_on_completed_is_task_not_cancelable() {
    let mut server = Server::plain();
    let call = client().send_message(user_message(r#"{"a":1}"#), echo_skill(), None);
    let task = server.conclude(&call).expect("send_message");
    let err = server.conclude(&client().cancel_task(text(&task, &["id"]))).unwrap_err();
    assert!(
        matches!(err, A2AClientError::TaskNotCancelable { .. }),
        "expected TaskNotCancelable, got {err:?}"
    );
}

#[test]
fn list_tasks_returns_tasks_array() {
    let mut server = Server::plain();
    let call = client().send_message(user_message(r#"{"a":1}"#), echo_skill(), None);
    server.conclude(&call).expect("send_message");
    let result = server.conclude(&client().list_tasks(None, 50)).expect("list_tasks");
    assert!(matches!(at(&result, &["tasks"]), Json::Array(_)));
}

#[test]
fn stream_message_yields_terminal_event() {
    let call = client().stream_message(user_message(r#"{"k":"v"}"#), echo_skill(), None);
    let frames = Server::plain().frames(&call.body.to_text());
    let mut reader = SseReader::new();
    for frame in &frames {
        reader.feed(format!("data: {}\n\n", frame.to_text()).as_bytes());
    }
    let mut count = 0;
    let mut saw_terminal = false;
    while let Some(item) = reader.next() {
        match item {
            StreamItem::Event(event) => {
                count += 1;
                if text(&event, &["statusUpdate", "status", "state"]) == "TASK_STATE_COMPLETED" {
                    saw_terminal = true;
                }
            }
            other => panic!("{other:?}"),
        }
    }
    assert_eq!(count, frames.len());
    assert!(saw_terminal, "expected a terminal TASK_STATE_COMPLETED event");
    assert!(reader.is_finished());
}
