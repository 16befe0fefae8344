//! What is answered to a JSON-RPC request.
//!
//! Each method is a sequence of decisions. What lies between them, reading and
//! writing the stores and running the module, is done by the caller, who hands
//! the outcome to the next decision.

use vstd::prelude::*;
use vstd::string::*;

use crate::adapters::errors::{
    carries_caller_detail, carries_detail, is_refusal, mapped_message, rpc_error_json,
    sanitize_message, sanitized, sanitizing_known, ErrorCode, ErrorMapper, JsonRpcError,
    JsonRpcErrorV, ModuleError,
};
use crate::adapters::parts::{input_of, output_artifact};
use crate::auth::identity::{opt_identity_ref, Identity, IdentityV};
use crate::codec::{json_of_bytes, parse_bytes};
use crate::json::{array, fields, find, items, member, object, put, string, Json, JsonV};
use crate::server::cards::{faithful, kept_after, made_for, served, FilteredCard};
use crate::server::executor::ApCoreAgentExecutor;
use crate::storage::{held, owner_of, Contents, StoreError};
use crate::text::{chars_of, contains_str, join, opt_view, owned, slice, str_eq, trim, trimmed, views};
use crate::types::{
    artifact_views, bare_status, fresh_id, is_uuid_text, message_views, state_name, status_event,
    task_json, terminal, told_status, Artifact, ArtifactV, EventV, Message, MessageV, PartV,
    StreamEvent, Task, TaskState, TaskStatus, TaskStatusV, TaskV,
};
use crate::wire::{read_message, read_task};

verus! {

/// The body is not JSON.
pub const CODE_PARSE_ERROR: i32 = -32700;

/// The body is JSON, but no request.
pub const CODE_INVALID_REQUEST: i32 = -32600;

/// The method is unknown.
pub const CODE_METHOD_NOT_FOUND: i32 = -32601;

/// The parameters are unusable.
pub const CODE_INVALID_PARAMS: i32 = -32602;

/// There is no such task for the caller.
pub const CODE_TASK_NOT_FOUND: i32 = -32001;

/// The task has ended and cannot be canceled.
pub const CODE_TASK_NOT_CANCELABLE: i32 = -32002;

/// A failure the caller can do nothing about.
pub const CODE_INTERNAL_ERROR: i32 = -32603;

/// There is no extended card.
pub const CODE_EXTENDED_CARD_NOT_CONFIGURED: i32 = -32007;

/// A successful response.
pub open spec fn rpc_result_json(id: JsonV, result: JsonV) -> JsonV {
    JsonV::Object(seq![("jsonrpc"@, JsonV::Str("2.0"@)), ("id"@, id), ("result"@, result)])
}

/// An error response.
pub open spec fn rpc_error_reply(id: JsonV, e: JsonRpcErrorV) -> JsonV {
    JsonV::Object(seq![("jsonrpc"@, JsonV::Str("2.0"@)), ("id"@, id), ("error"@, rpc_error_json(e))])
}

/// A successful response.
pub fn rpc_result(id: &Json, result: Json) -> (r: Json)
    ensures
        r@ == rpc_result_json(id@, result@),
{
    let mut m: Vec<(String, Json)> = Vec::new();
    put(&mut m, "jsonrpc", string("2.0"));
    put(&mut m, "id", id.copy());
    put(&mut m, "result", result);
    assert(fields(m@) =~= rpc_result_json(id@, result@)->Object_0);
    object(m)
}

/// An error response.
pub fn rpc_error(id: &Json, code: i32, message: &str) -> (r: Json)
    ensures
        r@ == rpc_error_reply(id@, JsonRpcErrorV { code: code as int, message: message@ }),
{
    let e = failure(code, message);
    let mut m: Vec<(String, Json)> = Vec::new();
    put(&mut m, "jsonrpc", string("2.0"));
    put(&mut m, "id", id.copy());
    put(&mut m, "error", e.to_json());
    assert(fields(m@) =~= rpc_error_reply(id@, e@)->Object_0);
    object(m)
}

/// An error with the given code and text.
pub fn failure(code: i32, message: &str) -> (r: JsonRpcError)
    ensures
        r@ == (JsonRpcErrorV { code: code as int, message: message@ }),
{
    JsonRpcError { code, message: owned(message) }
}

/// What a method ended in.
pub open spec fn outcome_view(r: Result<Json, JsonRpcError>) -> Result<JsonV, JsonRpcErrorV> {
    match r {
        Ok(v) => Ok(v@),
        Err(e) => Err(e@),
    }
}

/// The response for what a method ended in.
pub open spec fn reply_json(id: JsonV, r: Result<JsonV, JsonRpcErrorV>) -> JsonV {
    match r {
        Ok(v) => rpc_result_json(id, v),
        Err(e) => rpc_error_reply(id, e),
    }
}

/// The response for what a method ended in.
pub fn reply(id: &Json, r: Result<Json, JsonRpcError>) -> (j: Json)
    ensures
        j@ == reply_json(id@, outcome_view(r)),
{
    match r {
        Ok(v) => rpc_result(id, v),
        Err(e) => rpc_error(id, e.code, e.message.as_str()),
    }
}

/// The `id` of a request comes back in its response, with the protocol version;
/// a response has a result or an error, not both.
pub proof fn reply_echoes_the_request(id: JsonV, r: Result<JsonV, JsonRpcErrorV>)
    ensures
        reply_json(id, r).get("jsonrpc"@) == Some(JsonV::Str("2.0"@)),
        reply_json(id, r).get("id"@) == Some(id),
        reply_json(id, r).get("result"@) == (match r {
            Ok(v) => Some(v),
            Err(_) => None,
        }),
        reply_json(id, r).get("error"@) == (match r {
            Ok(_) => None,
            Err(e) => Some(rpc_error_json(e)),
        }),
{
    reveal_with_fuel(member, 5);
    reveal_strlit("jsonrpc");
    reveal_strlit("id");
    reveal_strlit("result");
    reveal_strlit("error");
    assert("jsonrpc"@.len() == 7);
    assert("id"@.len() == 2);
    assert("result"@.len() == 6);
    assert("error"@.len() == 5);
}

/// The payload of one frame of a stream: a response that carries the event.
pub fn sse_payload(id: &Json, event: &StreamEvent) -> (r: Json)
    ensures
        r@ == rpc_result_json(id@, crate::types::event_json(event@)),
{
    rpc_result(id, event.to_json())
}

/// A character with an ASCII letter in lower case.
pub open spec fn ascii_lower(c: char) -> char {
    if 'A' <= c && c <= 'Z' {
        ((c as u32 + 32) as u32) as char
    } else {
        c
    }
}

/// Equal but for the case of ASCII letters.
pub open spec fn same_but_case(a: Seq<char>, b: Seq<char>) -> bool {
    a.len() == b.len() && forall|i: int|
        0 <= i < a.len() ==> ascii_lower(#[trigger] a[i]) == ascii_lower(b[i])
}

/// A character with an ASCII letter in lower case.
pub fn lower(c: char) -> (r: char)
    ensures
        r == ascii_lower(c),
{
    match c {
        'A' => 'a',
        'B' => 'b',
        'C' => 'c',
        'D' => 'd',
        'E' => 'e',
        'F' => 'f',
        'G' => 'g',
        'H' => 'h',
        'I' => 'i',
        'J' => 'j',
        'K' => 'k',
        'L' => 'l',
        'M' => 'm',
        'N' => 'n',
        'O' => 'o',
        'P' => 'p',
        'Q' => 'q',
        'R' => 'r',
        'S' => 's',
        'T' => 't',
        'U' => 'u',
        'V' => 'v',
        'W' => 'w',
        'X' => 'x',
        'Y' => 'y',
        'Z' => 'z',
        _ => c,
    }
}

fn equal_but_case(a: &str, b: &str) -> (r: bool)
    ensures
        r == same_but_case(a@, b@),
{
    let x: Vec<char> = chars_of(a);
    let y: Vec<char> = chars_of(b);
    if x.len() != y.len() {
        return false;
    }
    let mut i: usize = 0;
    while i < x.len()
        invariant
            i <= x.len() == y.len(),
            x@ == a@,
            y@ == b@,
            forall|k: int| 0 <= k < i ==> ascii_lower(#[trigger] x@[k]) == ascii_lower(y@[k]),
        decreases x.len() - i,
    {
        if lower(x[i]) != lower(y[i]) {
            assert(ascii_lower(a@[i as int]) != ascii_lower(b@[i as int]));
            return false;
        }
        i += 1;
    }
    true
}

/// `s` up to its first semicolon.
pub open spec fn before_semicolon(s: Seq<char>) -> Seq<char>
    decreases s.len(),
{
    if s.len() == 0 || s[0] == ';' {
        Seq::empty()
    } else {
        seq![s[0]] + before_semicolon(s.skip(1))
    }
}

/// `suffix` ends `s`.
pub open spec fn ends_with(s: Seq<char>, suffix: Seq<char>) -> bool {
    s.len() >= suffix.len() && s.subrange(s.len() - suffix.len(), s.len() as int) == suffix
}

/// A content type that is given and is not JSON.
pub open spec fn not_json(content_type: Option<Seq<char>>) -> bool {
    match content_type {
        None => false,
        Some(v) => {
            let t = trimmed(before_semicolon(v));
            t.len() > 0 && !same_but_case(t, "application/json"@) && !ends_with(t, "+json"@)
        },
    }
}

/// Whether a request is refused for its content type: one that is given and is
/// not JSON. A request that names none is taken.
pub fn unsupported_media_type(content_type: Option<&str>) -> (r: bool)
    ensures
        r == not_json(
            match content_type {
                Some(v) => Some(v@),
                None => None,
            },
        ),
{
    let v: &str = match content_type {
        Some(v) => v,
        None => {
            return false;
        },
    };
    let cs: Vec<char> = chars_of(v);
    let mut i: usize = 0;
    assert(cs@.skip(0) =~= v@);
    assert(cs@.take(0) + before_semicolon(v@) =~= before_semicolon(v@));
    while i < cs.len() && cs[i] != ';'
        invariant
            i <= cs.len(),
            before_semicolon(v@) == cs@.take(i as int) + before_semicolon(cs@.skip(i as int)),
        decreases cs.len() - i,
    {
        assert(cs@.skip(i as int).skip(1) =~= cs@.skip(i + 1));
        assert(cs@.take(i + 1) =~= cs@.take(i as int) + seq![cs@[i as int]]);
        assert(cs@.take(i as int) + (seq![cs@[i as int]] + before_semicolon(cs@.skip(i + 1)))
            =~= cs@.take(i + 1) + before_semicolon(cs@.skip(i + 1)));
        i += 1;
    }
    assert(before_semicolon(v@) =~= cs@.subrange(0, i as int));
    let t: String = trim(slice(&cs, 0, i).as_str());
    let tc: Vec<char> = chars_of(t.as_str());
    let plus: bool = if tc.len() >= 5 {
        let tail: String = slice(&tc, tc.len() - 5, tc.len());
        proof {
            reveal_strlit("+json");
        }
        str_eq(tail.as_str(), "+json")
    } else {
        proof {
            reveal_strlit("+json");
        }
        false
    };
    !t.as_str().is_empty() && !equal_but_case(t.as_str(), "application/json") && !plus
}

/// The methods that are answered.
#[derive(Debug, Clone, Copy, PartialEq, Eq, Structural)]
pub enum Method {
    SendMessage,
    StreamMessage,
    GetTask,
    CancelTask,
    ListTasks,
    GetExtendedAgentCard,
    SetPushConfig,
    GetPushConfig,
    DeletePushConfig,
}

/// The method that a name stands for, if it is one that is answered.
pub open spec fn method_named(name: Seq<char>) -> Option<Method> {
    if name == "message/send"@ {
        Some(Method::SendMessage)
    } else if name == "message/stream"@ {
        Some(Method::StreamMessage)
    } else if name == "tasks/get"@ {
        Some(Method::GetTask)
    } else if name == "tasks/cancel"@ {
        Some(Method::CancelTask)
    } else if name == "ListTasks"@ {
        Some(Method::ListTasks)
    } else if name == "GetExtendedAgentCard"@ {
        Some(Method::GetExtendedAgentCard)
    } else if name == "tasks/pushNotificationConfig/set"@ {
        Some(Method::SetPushConfig)
    } else if name == "tasks/pushNotificationConfig/get"@ {
        Some(Method::GetPushConfig)
    } else if name == "tasks/pushNotificationConfig/delete"@ {
        Some(Method::DeletePushConfig)
    } else {
        None
    }
}

fn method_of(name: &str) -> (r: Option<Method>)
    ensures
        r == method_named(name@),
{
    if str_eq(name, "message/send") {
        Some(Method::SendMessage)
    } else if str_eq(name, "message/stream") {
        Some(Method::StreamMessage)
    } else if str_eq(name, "tasks/get") {
        Some(Method::GetTask)
    } else if str_eq(name, "tasks/cancel") {
        Some(Method::CancelTask)
    } else if str_eq(name, "ListTasks") {
        Some(Method::ListTasks)
    } else if str_eq(name, "GetExtendedAgentCard") {
        Some(Method::GetExtendedAgentCard)
    } else if str_eq(name, "tasks/pushNotificationConfig/set") {
        Some(Method::SetPushConfig)
    } else if str_eq(name, "tasks/pushNotificationConfig/get") {
        Some(Method::GetPushConfig)
    } else if str_eq(name, "tasks/pushNotificationConfig/delete") {
        Some(Method::DeletePushConfig)
    } else {
        None
    }
}

/// The member `key`, or `null` where there is none.
pub open spec fn or_null(v: JsonV, key: Seq<char>) -> JsonV {
    match v.get(key) {
        Some(x) => x,
        None => JsonV::Null,
    }
}

fn get_or_null(v: &Json, key: &str) -> (r: Json)
    ensures
        r@ == or_null(v@, key@),
{
    match v.get(key) {
        Some(x) => x.copy(),
        None => Json::Null,
    }
}

/// What is wrong with the envelope of a request: the id to answer under, and
/// the text.
pub open spec fn envelope_fault(req: JsonV) -> Option<(JsonV, Seq<char>)> {
    if req is Array {
        Some((JsonV::Null, "Batch requests are not supported"@))
    } else if req !is Object {
        Some((JsonV::Null, "Invalid Request"@))
    } else {
        match req.text_at("jsonrpc"@) {
            None => Some((or_null(req, "id"@), "Invalid Request"@)),
            Some(v) => if v != "2.0"@ {
                Some((or_null(req, "id"@), "Invalid Request: jsonrpc must be '2.0'"@))
            } else if req.text_at("method"@) is None {
                Some((or_null(req, "id"@), "Invalid Request"@))
            } else {
                None
            },
        }
    }
}

/// The response to a value that is no request, or nothing where it is one. A
/// request without an `id` is one: it is answered under `null`.
pub fn envelope_error(req: &Json) -> (r: Option<Json>)
    ensures
        crate::json::opt(r) == (match envelope_fault(req@) {
            Some((id, text)) => Some(
                rpc_error_reply(id, JsonRpcErrorV { code: -32600, message: text }),
            ),
            None => None,
        }),
{
    match req {
        Json::Array(_) => {
            return Some(
                rpc_error(&Json::Null, CODE_INVALID_REQUEST, "Batch requests are not supported"),
            );
        },
        Json::Object(_) => {},
        _ => {
            return Some(rpc_error(&Json::Null, CODE_INVALID_REQUEST, "Invalid Request"));
        },
    }
    let id: Json = get_or_null(req, "id");
    match req.get_str("jsonrpc") {
        Some(v) => if !str_eq(v, "2.0") {
            return Some(
                rpc_error(&id, CODE_INVALID_REQUEST, "Invalid Request: jsonrpc must be '2.0'"),
            );
        },
        None => {
            return Some(rpc_error(&id, CODE_INVALID_REQUEST, "Invalid Request"));
        },
    }
    if req.get_str("method").is_none() {
        return Some(rpc_error(&id, CODE_INVALID_REQUEST, "Invalid Request"));
    }
    None
}

/// A request that is well formed.
#[derive(Debug)]
pub struct Request {
    pub id: Json,
    pub method: Method,
    pub params: Json,
}

/// What is done with the body of an HTTP request.
#[derive(Debug)]
pub enum Intake {
    /// It is refused with HTTP 415.
    UnsupportedMediaType,
    /// It is answered at once.
    Answer(Json),
    /// Its method is to be run.
    Run(Request),
}

/// What an intake denotes.
#[verifier::ext_equal]
pub enum IntakeV {
    UnsupportedMediaType,
    Answer(JsonV),
    Run { id: JsonV, method: Method, params: JsonV },
}

impl View for Intake {
    type V = IntakeV;

    open spec fn view(&self) -> IntakeV {
        match self {
            Intake::UnsupportedMediaType => IntakeV::UnsupportedMediaType,
            Intake::Answer(j) => IntakeV::Answer(j@),
            Intake::Run(r) => IntakeV::Run { id: r.id@, method: r.method, params: r.params@ },
        }
    }
}

/// What is done with a body that was read as JSON, or could not be.
pub open spec fn taken_in(parsed: Option<JsonV>) -> IntakeV {
    match parsed {
        None => IntakeV::Answer(
            rpc_error_reply(
                JsonV::Null,
                JsonRpcErrorV { code: -32700, message: "Parse error"@ },
            ),
        ),
        Some(req) => match envelope_fault(req) {
            Some((id, text)) => IntakeV::Answer(
                rpc_error_reply(id, JsonRpcErrorV { code: -32600, message: text }),
            ),
            None => match method_named(req.text_at("method"@)->0) {
                Some(method) => IntakeV::Run {
                    id: or_null(req, "id"@),
                    method,
                    params: or_null(req, "params"@),
                },
                None => IntakeV::Answer(
                    rpc_error_reply(
                        or_null(req, "id"@),
                        JsonRpcErrorV { code: -32601, message: "Method not found"@ },
                    ),
                ),
            },
        },
    }
}

/// What is done with a body that was read as JSON, or could not be.
pub fn take_in(parsed: Option<Json>) -> (r: Intake)
    ensures
        r@ == taken_in(crate::json::opt(parsed)),
{
    let req: Json = match parsed {
        Some(v) => v,
        None => {
            return Intake::Answer(rpc_error(&Json::Null, CODE_PARSE_ERROR, "Parse error"));
        },
    };
    if let Some(e) = envelope_error(&req) {
        return Intake::Answer(e);
    }
    let id: Json = get_or_null(&req, "id");
    let method: Option<Method> = match req.get_str("method") {
        Some(name) => method_of(name),
        None => None,
    };
    match method {
        Some(method) => {
            let params: Json = get_or_null(&req, "params");
            Intake::Run(Request { id, method, params })
        },
        None => Intake::Answer(rpc_error(&id, CODE_METHOD_NOT_FOUND, "Method not found")),
    }
}

/// What is done with the body of an HTTP request: refused for its content type,
/// answered at once, or run.
pub fn jsonrpc_intake(content_type: Option<&str>, body: &[u8]) -> (r: Intake)
    ensures
        r@ == (if not_json(
            match content_type {
                Some(v) => Some(v@),
                None => None,
            },
        ) {
            IntakeV::UnsupportedMediaType
        } else {
            taken_in(json_of_bytes(body@))
        }),
{
    if unsupported_media_type(content_type) {
        return Intake::UnsupportedMediaType;
    }
    take_in(parse_bytes(body))
}

/// What the server knows when a request comes in.
pub struct AppState {
    pub executor: ApCoreAgentExecutor,
    /// The ids of the known skills.
    pub skill_ids: Vec<String>,
    /// The input schema of each skill that declares an object.
    pub input_schemas: Vec<(String, Json)>,
    /// The card for callers without an identity.
    pub agent_card: Json,
    /// The card for callers with an identity, where callers are authenticated.
    pub extended_card: Option<FilteredCard>,
    /// The card for the Explorer.
    pub explorer_card: FilteredCard,
}

/// A caller was shown a card, and the card keeps what it was shown.
pub open spec fn card_served(
    before: FilteredCard,
    after: FilteredCard,
    executor: ApCoreAgentExecutor,
    identity: Option<IdentityV>,
    shown: JsonV,
) -> bool {
    let rules = executor.rules();
    let owner = owner_of(identity);
    &&& after.whole() == before.whole()
    &&& served(rules, before.whole(), before.copies(), identity, shown)
    &&& after.copies() == kept_after(before.copies(), owner, shown)
    &&& member(after.copies(), owner) == Some(shown)
    &&& faithful(rules, before.whole(), before.copies()) ==> faithful(
        rules,
        after.whole(),
        after.copies(),
    ) && made_for(rules, before.whole(), owner, shown)
}

impl AppState {
    /// The cards are well formed.
    pub open spec fn wf(&self) -> bool {
        &&& self.explorer_card.wf()
        &&& self.extended_card matches Some(c) ==> c.wf()
    }

    /// Whether a skill is known.
    pub fn knows(&self, skill_id: &str) -> (r: bool)
        ensures
            r == views(self.skill_ids@).contains(skill_id@),
    {
        contains_str(&self.skill_ids, skill_id)
    }

    /// The extended card for a caller, where there is one.
    pub fn extended_agent_card(&mut self, identity: Option<&Identity>) -> (r: Option<Json>)
        requires
            old(self).wf(),
        ensures
            final(self).wf(),
            r is Some <==> old(self).extended_card is Some,
            final(self).extended_card is Some <==> old(self).extended_card is Some,
            old(self).extended_card matches Some(c) ==> card_served(
                c,
                final(self).extended_card->0,
                old(self).executor,
                opt_identity_ref(identity),
                r->0@,
            ),
            final(self).executor == old(self).executor,
            final(self).skill_ids == old(self).skill_ids,
            final(self).input_schemas == old(self).input_schemas,
            final(self).agent_card == old(self).agent_card,
            final(self).explorer_card == old(self).explorer_card,
    {
        match &mut self.extended_card {
            Some(card) => Some(card.for_caller(&self.executor, identity)),
            None => None,
        }
    }
}

/// What `GetExtendedAgentCard` ends in, given the card for the caller.
pub open spec fn extended_outcome(card: Option<JsonV>) -> Result<JsonV, JsonRpcErrorV> {
    match card {
        Some(c) => Ok(c),
        None => Err(
            JsonRpcErrorV { code: -32007, message: "Extended agent card is not configured"@ },
        ),
    }
}

/// What `GetExtendedAgentCard` ends in, given the card for the caller.
pub fn handle_extended_card(card: Option<Json>) -> (r: Result<Json, JsonRpcError>)
    ensures
        outcome_view(r) == extended_outcome(crate::json::opt(card)),
{
    match card {
        Some(c) => Ok(c),
        None => Err(
            failure(CODE_EXTENDED_CARD_NOT_CONFIGURED, "Extended agent card is not configured"),
        ),
    }
}

/// The skill that a request names: in its own metadata or, where nothing stands
/// there, in that of its message.
pub open spec fn named_skill(params: JsonV) -> Option<Seq<char>> {
    let own = or_null(params, "metadata"@).get("skillId"@);
    let inner = or_null(or_null(params, "message"@), "metadata"@).get("skillId"@);
    match own {
        Some(JsonV::Str(s)) => Some(s),
        Some(_) => None,
        None => match inner {
            Some(JsonV::Str(s)) => Some(s),
            _ => None,
        },
    }
}

/// The skill that a request names.
pub fn skill_id_of(params: &Json) -> (r: Option<String>)
    ensures
        opt_view(r) == named_skill(params@),
{
    if let Some(m) = params.get("metadata") {
        if let Some(v) = m.get("skillId") {
            return match v.as_str() {
                Some(s) => Some(owned(s)),
                None => None,
            };
        }
    }
    if let Some(message) = params.get("message") {
        if let Some(m) = message.get("metadata") {
            if let Some(s) = m.get_str("skillId") {
                return Some(owned(s));
            }
        }
    }
    None
}

/// Why a request to run a skill cannot be run.
#[derive(Debug)]
pub enum ParseFailure {
    /// There is no message: an error, and no task.
    Rpc(JsonRpcError),
    /// The message cannot be run: a task that has failed.
    Task { task_id: String, context_id: String, message: String },
}

/// A request to run a skill.
#[derive(Debug)]
pub struct ParsedRequest {
    pub skill_id: String,
    pub task_id: String,
    pub context_id: String,
    pub inputs: Json,
}

/// What reading a request to run a skill denotes.
#[verifier::ext_equal]
pub enum ParsedV {
    Run { skill_id: Seq<char>, task_id: Seq<char>, context_id: Seq<char>, inputs: JsonV },
    Rpc(JsonRpcErrorV),
    Failed { task_id: Seq<char>, context_id: Seq<char>, message: Seq<char> },
}

/// What an executable reading denotes.
pub open spec fn parsed_view(r: Result<ParsedRequest, ParseFailure>) -> ParsedV {
    match r {
        Ok(p) => ParsedV::Run {
            skill_id: p.skill_id@,
            task_id: p.task_id@,
            context_id: p.context_id@,
            inputs: p.inputs@,
        },
        Err(ParseFailure::Rpc(e)) => ParsedV::Rpc(e@),
        Err(ParseFailure::Task { task_id, context_id, message }) => ParsedV::Failed {
            task_id: task_id@,
            context_id: context_id@,
            message: message@,
        },
    }
}

/// What is made of the parameters of a request to run a skill under the task id
/// `task_id`.
pub open spec fn parsed_request(
    params: JsonV,
    schemas: Seq<(Seq<char>, JsonV)>,
    task_id: Seq<char>,
) -> ParsedV {
    match params.get("message"@) {
        None => ParsedV::Rpc(
            JsonRpcErrorV { code: -32602, message: "Missing required parameter: message"@ },
        ),
        Some(raw) => match read_message(raw) {
            Err(e) => ParsedV::Rpc(
                JsonRpcErrorV {
                    code: -32602,
                    message: "Invalid parameter: message ("@ + sanitized(e) + ")"@,
                },
            ),
            Ok(message) => {
                let context_id = match message.context_id {
                    Some(c) => c,
                    None => task_id,
                };
                match named_skill(params) {
                    None => ParsedV::Failed {
                        task_id,
                        context_id,
                        message: "Missing required parameter: metadata.skillId"@,
                    },
                    Some(skill_id) => match input_of(message.parts, member(schemas, skill_id)) {
                        Err(e) => ParsedV::Failed { task_id, context_id, message: e },
                        Ok(inputs) => ParsedV::Run { skill_id, task_id, context_id, inputs },
                    },
                }
            },
        },
    }
}

impl AppState {
    /// Read a request to run a skill, under a fresh task id.
    pub fn parse_request(&self, params: &Json) -> (r: Result<ParsedRequest, ParseFailure>)
        ensures
            exists|task_id: Seq<char>|
                is_uuid_text(task_id) && parsed_view(r) == #[trigger] parsed_request(
                    params@,
                    fields(self.input_schemas@),
                    task_id,
                ),
    {
        self.parse_request_as(params, fresh_id())
    }

    /// Read a request to run a skill, under the given task id.
    pub fn parse_request_as(&self, params: &Json, task_id: String) -> (r: Result<
        ParsedRequest,
        ParseFailure,
    >)
        ensures
            parsed_view(r) == parsed_request(params@, fields(self.input_schemas@), task_id@),
    {
        let raw: &Json = match params.get("message") {
            Some(m) => m,
            None => {
                return Err(
                    ParseFailure::Rpc(
                        failure(CODE_INVALID_PARAMS, "Missing required parameter: message"),
                    ),
                );
            },
        };
        let message: Message = match Message::from_json(raw) {
            Ok(m) => m,
            Err(e) => {
                let mut text: String = join(
                    "Invalid parameter: message (",
                    sanitize_message(e.as_str()).as_str(),
                );
                text.append(")");
                return Err(ParseFailure::Rpc(failure(CODE_INVALID_PARAMS, text.as_str())));
            },
        };
        let context_id: String = match &message.context_id {
            Some(c) => c.clone(),
            None => task_id.clone(),
        };
        let skill_id: String = match skill_id_of(params) {
            Some(s) => s,
            None => {
                return Err(
                    ParseFailure::Task {
                        task_id,
                        context_id,
                        message: owned("Missing required parameter: metadata.skillId"),
                    },
                );
            },
        };
        let schema: Option<&Json> = match find(&self.input_schemas, skill_id.as_str()) {
            Some(i) => Some(&self.input_schemas[i].1),
            None => None,
        };
        match self.executor.part_converter().parts_to_input(&message.parts, schema) {
            Ok(inputs) => Ok(ParsedRequest { skill_id, task_id, context_id, inputs }),
            Err(e) => Err(ParseFailure::Task { task_id, context_id, message: e }),
        }
    }
}

/// The state in which an error leaves a task.
pub open spec fn error_state(code: ErrorCode) -> TaskState {
    match code {
        ErrorCode::ExecutionCancelled => TaskState::Canceled,
        ErrorCode::ApprovalPending => TaskState::InputRequired,
        ErrorCode::ACLDenied
        | ErrorCode::ApprovalDenied
        | ErrorCode::ApprovalTimeout => TaskState::Rejected,
        _ => TaskState::Failed,
    }
}

/// What a caller reads of a failure: its JSON-RPC message and, where that carries
/// the error's own text, the guidance that came with the error.
pub open spec fn failure_words(
    code: ErrorCode,
    message: Seq<char>,
    guidance: Option<Seq<char>>,
    disclose: bool,
) -> Seq<char> {
    let base = mapped_message(code, message, disclose);
    match guidance {
        Some(g) => if carries_detail(code, message, disclose) && trimmed(g).len() > 0 {
            base + " ("@ + sanitized(g) + ")"@
        } else {
            base
        },
        None => base,
    }
}

/// What a caller reads of the error that ended a task.
pub open spec fn error_words(
    code: ErrorCode,
    message: Seq<char>,
    guidance: Option<Seq<char>>,
    disclose: bool,
) -> Seq<char> {
    match code {
        ErrorCode::ExecutionCancelled => "Execution cancelled"@,
        ErrorCode::ApprovalPending => message,
        ErrorCode::ModuleTimeout => "Execution timed out"@,
        _ => failure_words(code, message, guidance, disclose),
    }
}

/// What is known of the sanitized texts of an error: of its message, and of its
/// guidance unless that is blank and left out.
pub open spec fn texts_known(err: ModuleError) -> bool {
    &&& sanitizing_known(err.message@)
    &&& opt_view(err.ai_guidance) matches Some(g) ==> (trimmed(g).len() > 0 ==> sanitizing_known(g))
}

/// What a caller reads of a failure.
pub fn failure_text(err: &ModuleError, disclose_refusal_reason: bool) -> (r: String)
    ensures
        r@ == failure_words(
            err.code,
            err.message@,
            opt_view(err.ai_guidance),
            disclose_refusal_reason,
        ),
        carries_detail(err.code, err.message@, disclose_refusal_reason) ==> texts_known(*err),
{
    let message: String = ErrorMapper::to_jsonrpc_error_with(err, disclose_refusal_reason).message;
    match &err.ai_guidance {
        Some(guidance) => {
            if carries_caller_detail(err, disclose_refusal_reason) && !trim(
                guidance.as_str(),
            ).as_str().is_empty() {
                let mut out: String = join(message.as_str(), " (");
                out.append(sanitize_message(guidance.as_str()).as_str());
                out.append(")");
                out
            } else {
                message
            }
        },
        None => message,
    }
}

fn told(state: TaskState, text: &str) -> (r: TaskStatus)
    ensures
        told_status(r@, state, text@),
{
    TaskStatus::with_message(state, Message::agent_text(text))
}

/// The status in which an error leaves a task.
pub fn error_to_status(err: &ModuleError, disclose_refusal_reason: bool) -> (r: TaskStatus)
    ensures
        told_status(
            r@,
            error_state(err.code),
            error_words(
                err.code,
                err.message@,
                opt_view(err.ai_guidance),
                disclose_refusal_reason,
            ),
        ),
        carries_detail(err.code, err.message@, disclose_refusal_reason) ==> texts_known(*err),
{
    match err.code {
        ErrorCode::ExecutionCancelled => told(TaskState::Canceled, "Execution cancelled"),
        ErrorCode::ApprovalPending => told(TaskState::InputRequired, err.message.as_str()),
        ErrorCode::ModuleTimeout => told(TaskState::Failed, "Execution timed out"),
        ErrorCode::ACLDenied | ErrorCode::ApprovalDenied | ErrorCode::ApprovalTimeout => {
            told(TaskState::Rejected, failure_text(err, disclose_refusal_reason).as_str())
        },
        _ => told(TaskState::Failed, failure_text(err, disclose_refusal_reason).as_str()),
    }
}

/// The state of a task that an error ended does not depend on what is disclosed,
/// and a refusal, and nothing else, leaves it rejected. Only a pending approval
/// leaves it open.
pub proof fn error_states_are_told_apart(code: ErrorCode)
    ensures
        error_state(code) == TaskState::Rejected <==> is_refusal(code),
        terminal(error_state(code)) <==> code != ErrorCode::ApprovalPending,
        error_state(code) != TaskState::Completed,
{
}

/// Guidance never widens a message that carries no detail of its error.
pub proof fn guidance_never_widens_a_fixed_text(
    code: ErrorCode,
    message: Seq<char>,
    guidance: Option<Seq<char>>,
    disclose: bool,
)
    requires
        !carries_detail(code, message, disclose),
    ensures
        failure_words(code, message, guidance, disclose) == mapped_message(code, message, disclose),
{
}

/// A task and the event that tells of its status.
#[derive(Debug)]
pub struct Outcome {
    pub task: Task,
    pub event: StreamEvent,
}

/// A status with a text, or with none.
pub open spec fn status_says(s: TaskStatusV, state: TaskState, text: Option<Seq<char>>) -> bool {
    match text {
        Some(t) => told_status(s, state, t),
        None => bare_status(s, state),
    }
}

/// The task is of the given kind, and the event tells of its status.
pub open spec fn outcome_is(
    o: Outcome,
    task_id: Seq<char>,
    context_id: Seq<char>,
    artifacts: Seq<ArtifactV>,
    history: Seq<MessageV>,
    state: TaskState,
    text: Option<Seq<char>>,
) -> bool {
    let status = o.task@.status;
    &&& o.task@ == (TaskV { id: task_id, context_id, status, artifacts, history })
    &&& o.event@ == (EventV::Status { task_id, context_id, status })
    &&& status_says(status, state, text)
}

fn conclude(
    task_id: &str,
    context_id: &str,
    artifacts: Vec<Artifact>,
    history: Vec<Message>,
    status: TaskStatus,
    Ghost(state): Ghost<TaskState>,
    Ghost(text): Ghost<Option<Seq<char>>>,
) -> (r: Outcome)
    requires
        status_says(status@, state, text),
    ensures
        outcome_is(
            r,
            task_id@,
            context_id@,
            artifact_views(artifacts@),
            message_views(history@),
            state,
            text,
        ),
{
    let event: StreamEvent = status_event(task_id, context_id, status.copy());
    Outcome {
        task: Task { id: owned(task_id), context_id: owned(context_id), status, artifacts, history },
        event,
    }
}

/// A task that has failed for the given reason.
pub fn fail_task(task_id: &str, context_id: &str, message: &str) -> (r: Outcome)
    ensures
        outcome_is(
            r,
            task_id@,
            context_id@,
            Seq::empty(),
            Seq::empty(),
            TaskState::Failed,
            Some(message@),
        ),
{
    let artifacts: Vec<Artifact> = Vec::new();
    let history: Vec<Message> = Vec::new();
    assert(artifact_views(artifacts@) =~= Seq::empty());
    assert(message_views(history@) =~= Seq::empty());
    conclude(
        task_id,
        context_id,
        artifacts,
        history,
        told(TaskState::Failed, message),
        Ghost(TaskState::Failed),
        Ghost(Some(message@)),
    )
}

/// A task that was submitted.
pub fn submitted_task(task_id: &str, context_id: &str) -> (r: Task)
    ensures
        r@ == (TaskV {
            id: task_id@,
            context_id: context_id@,
            status: r@.status,
            artifacts: Seq::empty(),
            history: Seq::empty(),
        }),
        bare_status(r@.status, TaskState::Submitted),
{
    let r = Task {
        id: owned(task_id),
        context_id: owned(context_id),
        status: TaskStatus::new(TaskState::Submitted),
        artifacts: Vec::new(),
        history: Vec::new(),
    };
    assert(r@.artifacts =~= Seq::empty());
    assert(r@.history =~= Seq::empty());
    r
}

/// What `message/send` does first.
#[derive(Debug)]
pub enum SendStart {
    /// It ends in an error.
    Refuse(JsonRpcError),
    /// It ends in a task that has failed.
    Fail(Outcome),
    /// The submitted task is stored and the skill is run.
    Run { request: ParsedRequest, task: Task },
}

/// What a caller reads of a skill that is not known.
pub open spec fn unknown_skill_text(skill_id: Seq<char>) -> Seq<char> {
    "Skill not found: "@ + skill_id
}

/// What `message/send` does first, for a request that was read.
pub open spec fn send_starts(s: SendStart, p: ParsedV, skills: Seq<Seq<char>>) -> bool {
    match p {
        ParsedV::Rpc(e) => s matches SendStart::Refuse(x) && x@ == e,
        ParsedV::Failed { task_id, context_id, message } => s matches SendStart::Fail(o)
            && outcome_is(
            o,
            task_id,
            context_id,
            Seq::empty(),
            Seq::empty(),
            TaskState::Failed,
            Some(message),
        ),
        ParsedV::Run { skill_id, task_id, context_id, inputs } => if skills.contains(skill_id) {
            s matches SendStart::Run { request, task } && parsed_view(Ok(request)) == p && task@.id
                == task_id && task@.context_id == context_id && bare_status(
                task@.status,
                TaskState::Submitted,
            ) && task@.artifacts.len() == 0 && task@.history.len() == 0
        } else {
            s matches SendStart::Fail(o) && outcome_is(
                o,
                task_id,
                context_id,
                Seq::empty(),
                Seq::empty(),
                TaskState::Failed,
                Some(unknown_skill_text(skill_id)),
            )
        },
    }
}

impl AppState {
    /// What `message/send` does first: end in an error or in a failed task, or
    /// run a known skill.
    pub fn begin_send(&self, params: &Json) -> (r: SendStart)
        ensures
            exists|task_id: Seq<char>|
                is_uuid_text(task_id) && send_starts(
                    r,
                    #[trigger] parsed_request(params@, fields(self.input_schemas@), task_id),
                    views(self.skill_ids@),
                ),
    {
        let p = self.parse_request(params);
        self.start_send(p)
    }

    /// What `message/send` does first, for a request that was read.
    pub fn start_send(&self, parsed: Result<ParsedRequest, ParseFailure>) -> (r: SendStart)
        ensures
            send_starts(r, parsed_view(parsed), views(self.skill_ids@)),
    {
        match parsed {
            Err(ParseFailure::Rpc(e)) => SendStart::Refuse(e),
            Err(ParseFailure::Task { task_id, context_id, message }) => SendStart::Fail(
                fail_task(task_id.as_str(), context_id.as_str(), message.as_str()),
            ),
            Ok(request) => {
                if !self.knows(request.skill_id.as_str()) {
                    return SendStart::Fail(
                        fail_task(
                            request.task_id.as_str(),
                            request.context_id.as_str(),
                            join("Skill not found: ", request.skill_id.as_str()).as_str(),
                        ),
                    );
                }
                let task: Task = submitted_task(
                    request.task_id.as_str(),
                    request.context_id.as_str(),
                );
                SendStart::Run { request, task }
            },
        }
    }

    /// The task that `message/send` ends in, given what the module returned.
    pub fn finish_send(
        &self,
        task_id: &str,
        context_id: &str,
        result: Result<Json, ModuleError>,
    ) -> (r: Outcome)
        ensures
            match result {
                Ok(v) => outcome_is(
                    r,
                    task_id@,
                    context_id@,
                    seq![output_artifact(v@, task_id@)],
                    Seq::empty(),
                    TaskState::Completed,
                    None,
                ),
                Err(e) => outcome_is(
                    r,
                    task_id@,
                    context_id@,
                    Seq::empty(),
                    Seq::empty(),
                    error_state(e.code),
                    Some(
                        error_words(
                            e.code,
                            e.message@,
                            opt_view(e.ai_guidance),
                            self.executor.discloses(),
                        ),
                    ),
                ),
            },
            result matches Err(e) ==> (carries_detail(
                e.code,
                e.message@,
                self.executor.discloses(),
            ) ==> texts_known(e)),
    {
        let mut artifacts: Vec<Artifact> = Vec::new();
        let history: Vec<Message> = Vec::new();
        assert(message_views(history@) =~= Seq::empty());
        match result {
            Ok(v) => {
                artifacts.push(self.executor.part_converter().output_to_parts(&v, task_id));
                assert(artifact_views(artifacts@) =~= seq![output_artifact(v@, task_id@)]);
                conclude(
                    task_id,
                    context_id,
                    artifacts,
                    history,
                    TaskStatus::new(TaskState::Completed),
                    Ghost(TaskState::Completed),
                    Ghost(None),
                )
            },
            Err(e) => {
                assert(artifact_views(artifacts@) =~= Seq::empty());
                let disclose: bool = self.executor.disclose_refusal_reason();
                conclude(
                    task_id,
                    context_id,
                    artifacts,
                    history,
                    error_to_status(&e, disclose),
                    Ghost(error_state(e.code)),
                    Ghost(
                        Some(
                            error_words(e.code, e.message@, opt_view(e.ai_guidance), disclose),
                        ),
                    ),
                )
            },
        }
    }
}

/// A store's failure is the server's: it is never told as a missing task.
pub fn store_failure(e: &StoreError) -> (r: JsonRpcError)
    ensures
        r@ == internal_error(),
{
    failure(CODE_INTERNAL_ERROR, "Internal server error")
}

/// What a caller is told of a failure that is the server's.
pub open spec fn internal_error() -> JsonRpcErrorV {
    JsonRpcErrorV { code: -32603, message: "Internal server error"@ }
}

/// What a caller is told of a task that is not there, or is another's.
pub open spec fn task_not_found() -> JsonRpcErrorV {
    JsonRpcErrorV { code: -32001, message: "Task not found"@ }
}

/// What writing to a store leaves of an outcome.
pub open spec fn after_write(
    value: JsonV,
    written: Result<(), StoreError>,
) -> Result<JsonV, JsonRpcErrorV> {
    match written {
        Ok(_) => Ok(value),
        Err(_) => Err(internal_error()),
    }
}

/// The task a method ends in, once it was written; a failed write is the
/// server's failure.
pub fn written_task(task: &Task, written: Result<(), StoreError>) -> (r: Result<Json, JsonRpcError>)
    ensures
        outcome_view(r) == after_write(task_json(task@), written),
{
    match written {
        Ok(_) => Ok(task.to_json()),
        Err(e) => Err(store_failure(&e)),
    }
}

/// What a store read gave.
pub open spec fn read_view(r: Result<Option<Json>, StoreError>) -> Result<Option<JsonV>, ()> {
    match r {
        Ok(v) => Ok(crate::json::opt(v)),
        Err(_) => Err(()),
    }
}

/// The task id that a request names.
pub open spec fn named_task(params: JsonV) -> Result<Seq<char>, JsonRpcErrorV> {
    match params.text_at("id"@) {
        Some(id) => Ok(id),
        None => Err(JsonRpcErrorV { code: -32602, message: "Missing required parameter: id"@ }),
    }
}

/// The task id that a request names.
pub fn task_id_of(params: &Json) -> (r: Result<String, JsonRpcError>)
    ensures
        match r {
            Ok(id) => named_task(params@) == Ok::<_, JsonRpcErrorV>(id@),
            Err(e) => named_task(params@) == Err::<Seq<char>, _>(e@),
        },
{
    match params.get_str("id") {
        Some(id) => Ok(owned(id)),
        None => Err(failure(CODE_INVALID_PARAMS, "Missing required parameter: id")),
    }
}

/// What `tasks/get` ends in, given what the store holds for the caller.
pub open spec fn get_outcome(read: Result<Option<JsonV>, ()>) -> Result<JsonV, JsonRpcErrorV> {
    match read {
        Ok(Some(task)) => Ok(task),
        Ok(None) => Err(task_not_found()),
        Err(_) => Err(internal_error()),
    }
}

/// What `tasks/get` ends in, given what the store holds for the caller.
pub fn handle_get(read: Result<Option<Json>, StoreError>) -> (r: Result<Json, JsonRpcError>)
    ensures
        outcome_view(r) == get_outcome(read_view(read)),
{
    match read {
        Ok(Some(task)) => Ok(task),
        Ok(None) => Err(failure(CODE_TASK_NOT_FOUND, "Task not found")),
        Err(e) => Err(store_failure(&e)),
    }
}

/// What `ListTasks` answers with.
pub open spec fn list_json(tasks: Seq<JsonV>) -> JsonV {
    JsonV::Object(seq![("tasks"@, JsonV::Array(tasks))])
}

/// What `ListTasks` ends in, given the tasks of the caller.
pub fn handle_list(read: Result<Vec<Json>, StoreError>) -> (r: Result<Json, JsonRpcError>)
    ensures
        outcome_view(r) == (match read {
            Ok(v) => Ok::<_, JsonRpcErrorV>(list_json(items(v@))),
            Err(_) => Err::<JsonV, _>(internal_error()),
        }),
{
    match read {
        Ok(v) => {
            let mut m: Vec<(String, Json)> = Vec::new();
            put(&mut m, "tasks", array(v));
            assert(fields(m@) =~= list_json(items(v@))->Object_0);
            Ok(object(m))
        },
        Err(e) => Err(store_failure(&e)),
    }
}

/// What `tasks/cancel` makes of a stored task: its error, or the state it finds
/// the task in.
pub open spec fn cancel_refusal(read: Result<Option<JsonV>, ()>) -> Option<JsonRpcErrorV> {
    match read {
        Err(_) => Some(internal_error()),
        Ok(None) => Some(task_not_found()),
        Ok(Some(stored)) => match read_task(stored) {
            Err(_) => Some(task_not_found()),
            Ok(task) => if terminal(task.status.state) {
                Some(
                    JsonRpcErrorV {
                        code: -32002,
                        message: "Task is not cancelable: current state is "@ + state_name(
                            task.status.state,
                        ),
                    },
                )
            } else {
                None
            },
        },
    }
}

/// What `tasks/cancel` makes of a stored task: an error where there is none or
/// it has ended, and otherwise the canceled task, with the artifacts and the
/// history it had.
pub fn handle_cancel(task_id: &str, read: Result<Option<Json>, StoreError>) -> (r: Result<
    Outcome,
    JsonRpcError,
>)
    ensures
        match r {
            Err(e) => cancel_refusal(read_view(read)) == Some(e@),
            Ok(o) => {
                let before = read_task(read_view(read)->Ok_0->0)->Ok_0;
                &&& cancel_refusal(read_view(read)) is None
                &&& o.task@ == (TaskV { status: o.task@.status, ..before })
                &&& o.event@ == (EventV::Status {
                    task_id: task_id@,
                    context_id: before.context_id,
                    status: o.task@.status,
                })
                &&& told_status(o.task@.status, TaskState::Canceled, "Canceled by client"@)
            },
        },
{
    let stored: Json = match read {
        Ok(Some(s)) => s,
        Ok(None) => {
            return Err(failure(CODE_TASK_NOT_FOUND, "Task not found"));
        },
        Err(e) => {
            return Err(store_failure(&e));
        },
    };
    let task: Task = match Task::from_json(&stored) {
        Ok(t) => t,
        Err(_) => {
            return Err(failure(CODE_TASK_NOT_FOUND, "Task not found"));
        },
    };
    if task.status.state.is_terminal() {
        let text: String = join(
            "Task is not cancelable: current state is ",
            task.status.state.name(),
        );
        return Err(failure(CODE_TASK_NOT_CANCELABLE, text.as_str()));
    }
    let status: TaskStatus = told(TaskState::Canceled, "Canceled by client");
    let event: StreamEvent = status_event(task_id, task.context_id.as_str(), status.copy());
    let mut task: Task = task;
    task.status = status;
    Ok(Outcome { task, event })
}

/// The task that a request names and its caller holds, given what the store
/// holds for the caller.
pub open spec fn owned_task(params: JsonV, read: Result<Option<JsonV>, ()>) -> Result<
    Seq<char>,
    JsonRpcErrorV,
> {
    match named_task(params) {
        Err(e) => Err(e),
        Ok(id) => match read {
            Ok(Some(_)) => Ok(id),
            Ok(None) => Err(task_not_found()),
            Err(_) => Err(internal_error()),
        },
    }
}

/// The task that a request names and its caller holds, given what the store
/// holds for the caller.
pub fn owned_task_id(params: &Json, read: &Result<Option<Json>, StoreError>) -> (r: Result<
    String,
    JsonRpcError,
>)
    ensures
        match r {
            Ok(id) => owned_task(params@, read_view(*read)) == Ok::<_, JsonRpcErrorV>(id@),
            Err(e) => owned_task(params@, read_view(*read)) == Err::<Seq<char>, _>(e@),
        },
{
    let id: String = match task_id_of(params) {
        Ok(id) => id,
        Err(e) => {
            return Err(e);
        },
    };
    match read {
        Ok(Some(_)) => Ok(id),
        Ok(None) => Err(failure(CODE_TASK_NOT_FOUND, "Task not found")),
        Err(e) => Err(store_failure(e)),
    }
}

/// The configuration that `tasks/pushNotificationConfig/set` is to store.
pub open spec fn config_to_set(params: JsonV, read: Result<Option<JsonV>, ()>) -> Result<
    (Seq<char>, JsonV),
    JsonRpcErrorV,
> {
    match owned_task(params, read) {
        Err(e) => Err(e),
        Ok(id) => match params.get("pushNotificationConfig"@) {
            None => Err(
                JsonRpcErrorV { code: -32602, message: "Missing pushNotificationConfig"@ },
            ),
            Some(cfg) => if cfg.text_at("url"@) is None {
                Err(
                    JsonRpcErrorV {
                        code: -32602,
                        message: "pushNotificationConfig.url is required"@,
                    },
                )
            } else {
                Ok((id, cfg))
            },
        },
    }
}

/// The task and the configuration that `tasks/pushNotificationConfig/set` is to
/// store, given what the store holds for the caller under the task's id.
pub fn begin_push_set(params: &Json, read: &Result<Option<Json>, StoreError>) -> (r: Result<
    (String, Json),
    JsonRpcError,
>)
    ensures
        match r {
            Ok((id, cfg)) => config_to_set(params@, read_view(*read)) == Ok::<_, JsonRpcErrorV>(
                (id@, cfg@),
            ),
            Err(e) => config_to_set(params@, read_view(*read)) == Err::<(Seq<char>, JsonV), _>(e@),
        },
{
    let id: String = match owned_task_id(params, read) {
        Ok(id) => id,
        Err(e) => {
            return Err(e);
        },
    };
    let cfg: &Json = match params.get("pushNotificationConfig") {
        Some(c) => c,
        None => {
            return Err(failure(CODE_INVALID_PARAMS, "Missing pushNotificationConfig"));
        },
    };
    if cfg.get_str("url").is_none() {
        return Err(failure(CODE_INVALID_PARAMS, "pushNotificationConfig.url is required"));
    }
    Ok((id, cfg.copy()))
}

/// A webhook configuration as it is answered.
pub open spec fn push_json(task_id: Seq<char>, config: JsonV) -> JsonV {
    JsonV::Object(seq![("taskId"@, JsonV::Str(task_id)), ("pushNotificationConfig"@, config)])
}

fn push_answer(task_id: &str, config: Json) -> (r: Json)
    ensures
        r@ == push_json(task_id@, config@),
{
    let mut m: Vec<(String, Json)> = Vec::new();
    put(&mut m, "taskId", string(task_id));
    put(&mut m, "pushNotificationConfig", config);
    assert(fields(m@) =~= push_json(task_id@, config@)->Object_0);
    object(m)
}

/// What `tasks/pushNotificationConfig/set` ends in, once it was written.
pub fn handle_push_set(task_id: &str, config: Json, written: Result<(), StoreError>) -> (r: Result<
    Json,
    JsonRpcError,
>)
    ensures
        outcome_view(r) == after_write(push_json(task_id@, config@), written),
{
    match written {
        Ok(_) => Ok(push_answer(task_id, config)),
        Err(e) => Err(store_failure(&e)),
    }
}

/// What `tasks/pushNotificationConfig/get` ends in, given what is stored.
pub open spec fn push_get_outcome(task_id: Seq<char>, read: Result<Option<JsonV>, ()>) -> Result<
    JsonV,
    JsonRpcErrorV,
> {
    match read {
        Ok(Some(cfg)) => Ok(push_json(task_id, cfg)),
        Ok(None) => Err(
            JsonRpcErrorV { code: -32001, message: "Push notification config not found"@ },
        ),
        Err(_) => Err(internal_error()),
    }
}

/// What `tasks/pushNotificationConfig/get` ends in, given what is stored.
pub fn handle_push_get(task_id: &str, read: Result<Option<Json>, StoreError>) -> (r: Result<
    Json,
    JsonRpcError,
>)
    ensures
        outcome_view(r) == push_get_outcome(task_id@, read_view(read)),
{
    match read {
        Ok(Some(cfg)) => Ok(push_answer(task_id, cfg)),
        Ok(None) => Err(failure(CODE_TASK_NOT_FOUND, "Push notification config not found")),
        Err(e) => Err(store_failure(&e)),
    }
}

/// What `tasks/pushNotificationConfig/delete` ends in, once it was written.
pub fn handle_push_delete(written: Result<(), StoreError>) -> (r: Result<Json, JsonRpcError>)
    ensures
        outcome_view(r) == after_write(JsonV::Null, written),
{
    match written {
        Ok(_) => Ok(Json::Null),
        Err(e) => Err(store_failure(&e)),
    }
}

/// Where an event is delivered.
#[derive(Debug)]
pub struct PushTarget {
    pub url: String,
    pub token: Option<String>,
}

/// Where an event is delivered, given what is stored: the URL of the
/// configuration, with its token where it has one.
pub open spec fn push_target_of(read: Result<Option<JsonV>, ()>) -> Option<
    (Seq<char>, Option<Seq<char>>),
> {
    match read {
        Ok(Some(cfg)) => match cfg.text_at("url"@) {
            Some(url) => Some((url, cfg.text_at("token"@))),
            None => None,
        },
        _ => None,
    }
}

/// Where an event is delivered, given what is stored for the task.
pub fn push_target(read: &Result<Option<Json>, StoreError>) -> (r: Option<PushTarget>)
    ensures
        push_target_of(read_view(*read)) == (match r {
            Some(t) => Some((t.url@, opt_view(t.token))),
            None => None,
        }),
{
    match read {
        Ok(Some(cfg)) => match cfg.get_str("url") {
            Some(url) => Some(
                PushTarget {
                    url: owned(url),
                    token: match cfg.get_str("token") {
                        Some(t) => Some(owned(t)),
                        None => None,
                    },
                },
            ),
            None => None,
        },
        _ => None,
    }
}

/// What follows an attempt to deliver an event.
#[derive(Debug, Clone, Copy, PartialEq, Eq, Structural)]
pub enum PushStep {
    /// It was delivered.
    Done,
    /// It is tried again after so many seconds.
    RetryAfter(u64),
    /// It is given up.
    GiveUp,
}

/// What follows the attempt with the given number, counted from zero: three
/// attempts are made, one second and two seconds apart.
pub fn after_attempt(attempt: usize, delivered: bool) -> (r: PushStep)
    ensures
        r == (if delivered {
            PushStep::Done
        } else if attempt == 0 {
            PushStep::RetryAfter(1)
        } else if attempt == 1 {
            PushStep::RetryAfter(2)
        } else {
            PushStep::GiveUp
        }),
{
    if delivered {
        PushStep::Done
    } else if attempt == 0 {
        PushStep::RetryAfter(1)
    } else if attempt == 1 {
        PushStep::RetryAfter(2)
    } else {
        PushStep::GiveUp
    }
}

/// A task that another owner holds is answered as one that nobody holds.
pub proof fn foreign_tasks_read_as_missing(
    c: Contents,
    owner: Seq<char>,
    task_id: Seq<char>,
    value: JsonV,
    caller: Seq<char>,
)
    requires
        caller != owner,
        held(c, caller, task_id) is None,
    ensures
        get_outcome(Ok(held(c.insert((owner, task_id), value), caller, task_id))) == Err::<JsonV, _>(
            task_not_found(),
        ),
        cancel_refusal(Ok(held(c.insert((owner, task_id), value), caller, task_id))) == Some(
            task_not_found(),
        ),
        forall|params: JsonV|
            #![trigger named_task(params)]
            named_task(params) is Ok ==> owned_task(
                params,
                Ok(held(c.insert((owner, task_id), value), caller, task_id)),
            ) == Err::<Seq<char>, _>(task_not_found()),
{
}

/// What the owner of a task stored is what `tasks/get` answers.
pub proof fn stored_task_is_got(c: Contents, owner: Seq<char>, task_id: Seq<char>, value: JsonV)
    ensures
        get_outcome(Ok(held(c.insert((owner, task_id), value), owner, task_id))) == Ok::<
            _,
            JsonRpcErrorV,
        >(value),
{
}

/// A store that fails is never answered as a missing task.
pub proof fn outages_are_not_missing_tasks(params: JsonV, task_id: Seq<char>)
    ensures
        get_outcome(Err(())) == Err::<JsonV, _>(internal_error()),
        cancel_refusal(Err(())) == Some(internal_error()),
        push_get_outcome(task_id, Err(())) == Err::<JsonV, _>(internal_error()),
        named_task(params) is Ok ==> owned_task(params, Err(())) == Err::<Seq<char>, _>(
            internal_error(),
        ),
        internal_error().code != task_not_found().code,
{
}

/// A task that was written and has ended is refused cancellation, whatever its
/// artifacts, and one that was written and has not ended is not refused.
pub proof fn only_open_tasks_are_canceled(t: TaskV)
    requires
        t.status.message matches Some(m) ==> crate::wire::writable(m),
        forall|i: int| 0 <= i < t.history.len() ==> crate::wire::writable(#[trigger] t.history[i]),
    ensures
        cancel_refusal(Ok(Some(task_json(t)))) is Some <==> terminal(t.status.state),
        cancel_refusal(Ok(Some(task_json(t)))) matches Some(e) ==> e.code == -32002,
{
    crate::wire::task_round_trip(t);
}

/// A message that is read goes on in the conversation it names: the task that is
/// made of it, run or failed, has the context id of the message, and its own id
/// only where the message has none. The task has the id it was given.
pub proof fn messages_stay_in_their_conversation(
    params: JsonV,
    schemas: Seq<(Seq<char>, JsonV)>,
    task_id: Seq<char>,
    raw: JsonV,
    m: MessageV,
)
    requires
        params.get("message"@) == Some(raw),
        read_message(raw) == Ok::<_, Seq<char>>(m),
    ensures
        match parsed_request(params, schemas, task_id) {
            ParsedV::Run { task_id: t, context_id, .. } => t == task_id && (match m.context_id {
                Some(c) => context_id == c,
                None => context_id == task_id,
            }),
            ParsedV::Failed { task_id: t, context_id, .. } => t == task_id && (match m.context_id {
                Some(c) => context_id == c,
                None => context_id == task_id,
            }),
            ParsedV::Rpc(_) => false,
        },
{
}

/// A message object that names a conversation goes on in it, whatever else the
/// request holds.
pub proof fn sent_contexts_are_kept(
    params: JsonV,
    schemas: Seq<(Seq<char>, JsonV)>,
    task_id: Seq<char>,
    raw: JsonV,
    c: Seq<char>,
)
    requires
        params.get("message"@) == Some(raw),
        raw is Object,
        raw.get("contextId"@) == Some(JsonV::Str(c)),
    ensures
        match parsed_request(params, schemas, task_id) {
            ParsedV::Run { context_id, .. } => context_id == c,
            ParsedV::Failed { context_id, .. } => context_id == c,
            ParsedV::Rpc(e) => e.code == -32602,
        },
{
    if let Ok(m) = read_message(raw) {
        crate::wire::read_messages_have_their_fields(raw, m);
    }
}

/// What `message/send` starts with belongs to the request: a task that is run or
/// has failed has its task id and its context id, the event tells of that task,
/// and what is run are the skill and the inputs of the request, for a known skill
/// alone.
pub proof fn sends_start_what_was_asked(s: SendStart, p: ParsedV, skills: Seq<Seq<char>>)
    requires
        send_starts(s, p, skills),
    ensures
        s is Refuse <==> p is Rpc,
        s matches SendStart::Refuse(x) ==> p == ParsedV::Rpc(x@),
        s is Run <==> (p matches ParsedV::Run { skill_id, .. } && skills.contains(skill_id)),
        s matches SendStart::Run { request, task } ==> p == (ParsedV::Run {
            skill_id: request.skill_id@,
            task_id: task@.id,
            context_id: task@.context_id,
            inputs: request.inputs@,
        }) && task@.status.state == TaskState::Submitted && request.task_id@ == task@.id
            && request.context_id@ == task@.context_id,
        s matches SendStart::Fail(o) ==> (o.event@ == (EventV::Status {
            task_id: o.task@.id,
            context_id: o.task@.context_id,
            status: o.task@.status,
        })) && o.task@.status.state == TaskState::Failed && (match p {
            ParsedV::Run { task_id, context_id, .. } => o.task@.id == task_id && o.task@.context_id
                == context_id,
            ParsedV::Failed { task_id, context_id, message } => o.task@.id == task_id
                && o.task@.context_id == context_id && (o.task@.status.message matches Some(m)
                && m.parts == seq![PartV::Text(message)]),
            ParsedV::Rpc(_) => false,
        }),
{
}

/// A request whose message holds one part of data is run with that data, under
/// the skill it names; a request that names no skill, or whose message has no
/// part or several, is a failed task; one without a message is refused.
pub proof fn requests_run_the_named_skill_on_their_data(
    params: JsonV,
    schemas: Seq<(Seq<char>, JsonV)>,
    task_id: Seq<char>,
    raw: JsonV,
    m: MessageV,
    data: JsonV,
)
    requires
        params.get("message"@) == Some(raw),
        read_message(raw) == Ok::<_, Seq<char>>(m),
    ensures
        m.parts == seq![PartV::Data(data)] ==> (match named_skill(params) {
            Some(s) => parsed_request(params, schemas, task_id) matches ParsedV::Run {
                skill_id,
                inputs,
                ..
            } && skill_id == s && inputs == data,
            None => parsed_request(params, schemas, task_id) is Failed,
        }),
        m.parts.len() != 1 ==> parsed_request(params, schemas, task_id) is Failed,
        parsed_request(params, schemas, task_id) matches ParsedV::Run { skill_id, .. }
            ==> named_skill(params) == Some(skill_id),
{
}

/// A request without a message, or with one that cannot be read, is refused for
/// its parameters.
pub proof fn requests_without_a_message_are_refused(
    params: JsonV,
    schemas: Seq<(Seq<char>, JsonV)>,
    task_id: Seq<char>,
)
    ensures
        parsed_request(params, schemas, task_id) is Rpc <==> (match params.get("message"@) {
            None => true,
            Some(raw) => read_message(raw) is Err,
        }),
        parsed_request(params, schemas, task_id) matches ParsedV::Rpc(e) ==> e.code == -32602,
{
}

/// The skill that a request names: the string under `skillId` in its own metadata
/// comes before the one in its message's, and hides it also where it is no string.
pub proof fn a_request_names_its_skill_first(params: JsonV, own: JsonV, inner: JsonV)
    requires
        params.get("metadata"@) == Some(own),
        params.get("message"@) matches Some(m) && m.get("metadata"@) == Some(inner),
    ensures
        own.get("skillId"@) matches Some(v) ==> named_skill(params) == v.text(),
        own.get("skillId"@) is None ==> named_skill(params) == inner.text_at("skillId"@),
{
}

/// Without metadata of its own a request names the skill of its message, and
/// without any it names none.
pub proof fn a_message_names_a_skill_for_its_request(params: JsonV)
    requires
        params.get("metadata"@) is None,
    ensures
        named_skill(params) == (match params.get("message"@) {
            Some(m) => match m.get("metadata"@) {
                Some(d) => d.text_at("skillId"@),
                None => None,
            },
            None => None,
        }),
{
}

/// An error leaves a task canceled exactly where the run was canceled, waiting for
/// input exactly where an approval is pending, rejected exactly where it was
/// refused, and failed for every other code.
pub proof fn errors_leave_their_states(code: ErrorCode)
    ensures
        error_state(code) == TaskState::Canceled <==> code == ErrorCode::ExecutionCancelled,
        error_state(code) == TaskState::InputRequired <==> code == ErrorCode::ApprovalPending,
        error_state(code) == TaskState::Rejected <==> code == ErrorCode::ACLDenied || code
            == ErrorCode::ApprovalDenied || code == ErrorCode::ApprovalTimeout,
        error_state(code) == TaskState::Failed <==> code != ErrorCode::ExecutionCancelled && code
            != ErrorCode::ApprovalPending && code != ErrorCode::ACLDenied && code
            != ErrorCode::ApprovalDenied && code != ErrorCode::ApprovalTimeout,
{
}

/// What the task of an error says: a pending approval its own message, a
/// cancellation and a timeout a fixed text, and any other error what its JSON-RPC
/// message says, with the guidance in brackets behind it where the message
/// carries detail and the guidance is not blank.
pub proof fn errors_say_what_their_class_says(
    code: ErrorCode,
    message: Seq<char>,
    guidance: Option<Seq<char>>,
    disclose: bool,
)
    ensures
        ({
            let words = error_words(code, message, guidance, disclose);
            let told = crate::adapters::errors::mapped(code, message, disclose).message;
            if code == ErrorCode::ApprovalPending {
                words == message
            } else if code == ErrorCode::ExecutionCancelled {
                words == "Execution cancelled"@
            } else if code == ErrorCode::ModuleTimeout {
                words == "Execution timed out"@
            } else {
                match guidance {
                    Some(g) => if carries_detail(code, message, disclose) && !crate::text::blank(
                        g,
                    ) {
                        words == told + " ("@ + sanitized(g) + ")"@
                    } else {
                        words == told
                    },
                    None => words == told,
                }
            }
        }),
{
    if let Some(g) = guidance {
        crate::text::blank_is_trimmed_empty(g);
    }
}

/// The methods that are answered, by the names under which they are asked for; no
/// other name is answered.
pub proof fn methods_have_their_names(name: Seq<char>)
    ensures
        method_named(name) == Some(Method::SendMessage) <==> name == "message/send"@,
        method_named(name) == Some(Method::StreamMessage) <==> name == "message/stream"@,
        method_named(name) == Some(Method::GetTask) <==> name == "tasks/get"@,
        method_named(name) == Some(Method::CancelTask) <==> name == "tasks/cancel"@,
        method_named(name) == Some(Method::ListTasks) <==> name == "ListTasks"@,
        method_named(name) == Some(Method::GetExtendedAgentCard) <==> name
            == "GetExtendedAgentCard"@,
        method_named(name) == Some(Method::SetPushConfig) <==> name
            == "tasks/pushNotificationConfig/set"@,
        method_named(name) == Some(Method::GetPushConfig) <==> name
            == "tasks/pushNotificationConfig/get"@,
        method_named(name) == Some(Method::DeletePushConfig) <==> name
            == "tasks/pushNotificationConfig/delete"@,
{
    reveal_strlit("message/send");
    reveal_strlit("message/stream");
    reveal_strlit("tasks/get");
    reveal_strlit("tasks/cancel");
    reveal_strlit("ListTasks");
    reveal_strlit("GetExtendedAgentCard");
    reveal_strlit("tasks/pushNotificationConfig/set");
    reveal_strlit("tasks/pushNotificationConfig/get");
    reveal_strlit("tasks/pushNotificationConfig/delete");
    assert("message/send"@.len() == 12 && "message/send"@[0] == 'm');
    assert("message/stream"@.len() == 14);
    assert("tasks/get"@.len() == 9 && "tasks/get"@[0] == 't');
    assert("tasks/cancel"@.len() == 12 && "tasks/cancel"@[0] == 't');
    assert("ListTasks"@.len() == 9 && "ListTasks"@[0] == 'L');
    assert("GetExtendedAgentCard"@.len() == 20);
    assert("tasks/pushNotificationConfig/set"@.len() == 32 && "tasks/pushNotificationConfig/set"@[29] == 's');
    assert("tasks/pushNotificationConfig/get"@.len() == 32 && "tasks/pushNotificationConfig/get"@[29] == 'g');
    assert("tasks/pushNotificationConfig/delete"@.len() == 35);
}

/// An error object carries its code and its text.
pub proof fn error_objects_carry_code_and_text(id: JsonV, e: JsonRpcErrorV)
    ensures
        rpc_error_json(e).get("code"@) == Some(crate::json::integer_v(e.code)),
        rpc_error_json(e).text_at("message"@) == Some(e.message),
        e.code < 0 ==> rpc_error_json(e).get("code"@) == Some(
            JsonV::Number(crate::json::NumberV::NegInt(e.code)),
        ),
        rpc_error_reply(id, e).get("error"@) == Some(rpc_error_json(e)),
        rpc_error_reply(id, e).get("id"@) == Some(id),
        rpc_error_reply(id, e).text_at("jsonrpc"@) == Some("2.0"@),
{
    reveal_strlit("code");
    reveal_strlit("message");
    assert("code"@.len() == 4);
    assert("message"@.len() == 7);
    let m = rpc_error_json(e)->Object_0;
    crate::json::member_at(m, "code"@, 0);
    crate::json::member_at(m, "message"@, 1);
    reply_echoes_the_request(id, Err(e));
}

/// An answer is an error with the given code and text, under the given id.
pub open spec fn answers_error(i: IntakeV, id: JsonV, code: int, text: Seq<char>) -> bool {
    i matches IntakeV::Answer(a) && a.get("id"@) == Some(id) && (a.get("error"@) matches Some(e)
        && e.get("code"@) == Some(JsonV::Number(crate::json::NumberV::NegInt(code)))
        && e.text_at("message"@) == Some(text)) && a.get("result"@) is None
}

/// A body that is no JSON is answered so under `null`; one that is a list, or no
/// object, is no request.
pub proof fn bodies_that_are_no_requests_are_told(req: JsonV)
    ensures
        answers_error(taken_in(None), JsonV::Null, -32700, "Parse error"@),
        req is Array ==> answers_error(
            taken_in(Some(req)),
            JsonV::Null,
            -32600,
            "Batch requests are not supported"@,
        ),
        !(req is Array) && !(req is Object) ==> answers_error(
            taken_in(Some(req)),
            JsonV::Null,
            -32600,
            "Invalid Request"@,
        ),
{
    let parse = JsonRpcErrorV { code: -32700, message: "Parse error"@ };
    let batch = JsonRpcErrorV { code: -32600, message: "Batch requests are not supported"@ };
    let invalid = JsonRpcErrorV { code: -32600, message: "Invalid Request"@ };
    error_objects_carry_code_and_text(JsonV::Null, parse);
    error_objects_carry_code_and_text(JsonV::Null, batch);
    error_objects_carry_code_and_text(JsonV::Null, invalid);
    reply_echoes_the_request(JsonV::Null, Err(parse));
    reply_echoes_the_request(JsonV::Null, Err(batch));
    reply_echoes_the_request(JsonV::Null, Err(invalid));
}

/// A request of version 2.0 with the name of a method that is answered is run,
/// with its own id and its own parameters; under another name, under another
/// version, or without either it is answered with an error, under its own id. What
/// has no id, or no parameters, has `null` for them.
pub proof fn requests_are_taken_in(req: JsonV, id: JsonV)
    requires
        req is Object,
        id == (match req.get("id"@) {
            Some(v) => v,
            None => JsonV::Null,
        }),
    ensures
        match (req.text_at("jsonrpc"@), req.text_at("method"@)) {
            (None, _) => answers_error(taken_in(Some(req)), id, -32600, "Invalid Request"@),
            (Some(v), name) => if v != "2.0"@ {
                answers_error(
                    taken_in(Some(req)),
                    id,
                    -32600,
                    "Invalid Request: jsonrpc must be '2.0'"@,
                )
            } else {
                match name {
                    None => answers_error(taken_in(Some(req)), id, -32600, "Invalid Request"@),
                    Some(n) => match method_named(n) {
                        Some(method) => taken_in(Some(req)) == (IntakeV::Run {
                            id,
                            method,
                            params: match req.get("params"@) {
                                Some(p) => p,
                                None => JsonV::Null,
                            },
                        }),
                        None => answers_error(
                            taken_in(Some(req)),
                            id,
                            -32601,
                            "Method not found"@,
                        ),
                    },
                }
            },
        },
{
    let version = JsonRpcErrorV {
        code: -32600,
        message: "Invalid Request: jsonrpc must be '2.0'"@,
    };
    let invalid = JsonRpcErrorV { code: -32600, message: "Invalid Request"@ };
    let unknown = JsonRpcErrorV { code: -32601, message: "Method not found"@ };
    error_objects_carry_code_and_text(id, version);
    error_objects_carry_code_and_text(id, invalid);
    error_objects_carry_code_and_text(id, unknown);
    reply_echoes_the_request(id, Err(version));
    reply_echoes_the_request(id, Err(invalid));
    reply_echoes_the_request(id, Err(unknown));
}

/// What stands behind a semicolon of a content type does not count.
pub proof fn parameters_of_a_content_type_do_not_count(t: Seq<char>, rest: Seq<char>)
    requires
        !t.contains(';'),
    ensures
        not_json(Some(t + ";"@ + rest)) == not_json(Some(t)),
        not_json(Some(t)) <==> !crate::text::blank(t) && !same_but_case(
            trimmed(t),
            "application/json"@,
        ) && !ends_with(trimmed(t), "+json"@),
        !not_json(None),
{
    reveal_strlit(";");
    assert(";"@ =~= seq![';']);
    before_semicolon_is_the_front(t, rest);
    crate::text::blank_is_trimmed_empty(t);
}

proof fn before_semicolon_is_the_front(t: Seq<char>, rest: Seq<char>)
    requires
        !t.contains(';'),
        ";"@ == seq![';'],
    ensures
        before_semicolon(t) == t,
        before_semicolon(t + ";"@ + rest) == t,
    decreases t.len(),
{
    let all = t + ";"@ + rest;
    if t.len() > 0 {
        assert(t.contains(t[0]));
        assert(all[0] == t[0]);
        assert(all.skip(1) =~= t.skip(1) + ";"@ + rest);
        assert(!t.skip(1).contains(';')) by {
            if t.skip(1).contains(';') {
                let k = choose|k: int| 0 <= k < t.skip(1).len() && t.skip(1)[k] == ';';
                assert(t[k + 1] == ';');
            }
        }
        before_semicolon_is_the_front(t.skip(1), rest);
        assert(seq![t[0]] + t.skip(1) =~= t);
    } else {
        assert(all[0] == ';');
        assert(t =~= Seq::empty());
    }
}

/// JSON is taken under its own media type, whatever the case of its letters, and
/// under any that ends in `+json`; a text that is neither is refused.
pub proof fn json_media_types_are_taken(t: Seq<char>)
    requires
        !t.contains(';'),
        trimmed(t) == t,
    ensures
        t == "application/json"@ ==> !not_json(Some(t)),
        t == "Application/JSON"@ ==> !not_json(Some(t)),
        ends_with(t, "+json"@) ==> !not_json(Some(t)),
        t == "text/plain"@ ==> not_json(Some(t)),
{
    parameters_of_a_content_type_do_not_count(t, Seq::empty());
    reveal_strlit("application/json");
    reveal_strlit("Application/JSON");
    reveal_strlit("text/plain");
    reveal_strlit("+json");
    assert("text/plain"@.len() == 10);
    assert("application/json"@.len() == 16);
    if t == "text/plain"@ {
        assert(t[0] == 't');
        assert(!crate::text::is_white(t[0]));
        assert(t.subrange(5, 10)[0] == t[5]);
        assert(t[5] == 'p');
        assert("+json"@[0] == '+');
    }
    if t == "Application/JSON"@ {
        assert forall|i: int| 0 <= i < t.len() implies ascii_lower(#[trigger] t[i]) == ascii_lower(
            "application/json"@[i],
        ) by {
            assert(i == 0 || i == 1 || i == 2 || i == 3 || i == 4 || i == 5 || i == 6 || i == 7 || i
                == 8 || i == 9 || i == 10 || i == 11 || i == 12 || i == 13 || i == 14 || i == 15);
        }
    }
}

/// What is answered where something went wrong: a failure of the server, a task
/// that is not there, and a card that is not configured have codes of their own.
pub proof fn failures_have_their_codes()
    ensures
        internal_error().code == -32603 && internal_error().message == "Internal server error"@,
        task_not_found().code == -32001 && task_not_found().message == "Task not found"@,
        extended_outcome(None) matches Err(e) && e.code == -32007 && e.message
            == "Extended agent card is not configured"@,
{
}

/// What was read of a store is what is answered: a task as it stands, a list as it
/// stands, a missing entry and a failed store as such.
pub proof fn what_is_stored_is_answered(
    value: JsonV,
    task_id: Seq<char>,
    tasks: Seq<JsonV>,
    card: JsonV,
)
    ensures
        get_outcome(Ok(Some(value))) == Ok::<_, JsonRpcErrorV>(value),
        get_outcome(Ok(None)) matches Err(e) && e.code == -32001,
        get_outcome(Err(())) matches Err(e) && e.code == -32603,
        list_json(tasks).get("tasks"@) == Some(JsonV::Array(tasks)),
        push_get_outcome(task_id, Ok(Some(value))) matches Ok(a) && a.text_at("taskId"@) == Some(
            task_id,
        ) && a.get("pushNotificationConfig"@) == Some(value),
        push_get_outcome(task_id, Ok(None)) matches Err(e) && e.code == -32001 && e.message
            == "Push notification config not found"@,
        push_get_outcome(task_id, Err(())) matches Err(e) && e.code == -32603,
        extended_outcome(Some(card)) == Ok::<_, JsonRpcErrorV>(card),
{
    reveal_strlit("taskId");
    reveal_strlit("pushNotificationConfig");
    assert("taskId"@.len() == 6);
    assert("pushNotificationConfig"@.len() == 22);
    crate::json::member_at(list_json(tasks)->Object_0, "tasks"@, 0);
    let m = push_json(task_id, value)->Object_0;
    crate::json::member_at(m, "taskId"@, 0);
    crate::json::member_at(m, "pushNotificationConfig"@, 1);
}

/// What is written is answered as it was written, and a write that failed as a
/// failure of the server.
pub proof fn what_is_written_is_answered(value: JsonV, written: Result<(), StoreError>)
    ensures
        written is Ok ==> after_write(value, written) == Ok::<_, JsonRpcErrorV>(value),
        written is Err ==> (after_write(value, written) matches Err(e) && e.code == -32603),
{
}

/// A request about a task names it under `id`.
pub proof fn tasks_are_named_by_their_id(params: JsonV, id: Seq<char>)
    ensures
        named_task(params) == Ok::<_, JsonRpcErrorV>(id) <==> params.get("id"@) == Some(
            JsonV::Str(id),
        ),
        named_task(params) matches Err(e) ==> e.code == -32602 && e.message
            == "Missing required parameter: id"@,
{
}

/// A webhook is set for a task that the caller holds, and for no other, by the
/// configuration in the request, which must have a URL. What is set is what is
/// answered to a later request for it, and where events are delivered.
pub proof fn webhooks_are_set_for_held_tasks(
    params: JsonV,
    read: Result<Option<JsonV>, ()>,
    id: Seq<char>,
    cfg: JsonV,
)
    ensures
        config_to_set(params, read) == Ok::<_, JsonRpcErrorV>((id, cfg)) <==> params.text_at("id"@)
            == Some(id) && (read matches Ok(Some(_))) && params.get("pushNotificationConfig"@)
            == Some(cfg) && cfg.text_at("url"@) is Some,
        params.text_at("id"@) is Some && (read matches Ok(None)) ==> (config_to_set(params, read)
            matches Err(e) && e.code == -32001),
        params.text_at("id"@) is Some && read is Err ==> (config_to_set(params, read) matches Err(e)
            && e.code == -32603),
        params.text_at("id"@) is None ==> (config_to_set(params, read) matches Err(e) && e.code
            == -32602),
        params.text_at("id"@) is Some && (read matches Ok(Some(_))) && !(params.get(
            "pushNotificationConfig"@,
        ) matches Some(c) && c.text_at("url"@) is Some) ==> (config_to_set(params, read) matches Err(
            e,
        ) && e.code == -32602),
        config_to_set(params, read) == Ok::<_, JsonRpcErrorV>((id, cfg)) ==> (push_target_of(
            Ok(Some(cfg)),
        ) matches Some(t) && Some(t.0) == cfg.text_at("url"@) && t.1 == cfg.text_at("token"@)),
{
}

/// An event is delivered to the URL of a stored configuration, with its token where
/// it has one, and nowhere where there is none.
pub proof fn events_are_delivered_where_configured(cfg: JsonV, url: Seq<char>)
    ensures
        cfg.text_at("url"@) == Some(url) ==> push_target_of(Ok(Some(cfg))) == Some(
            (url, cfg.text_at("token"@)),
        ),
        cfg.text_at("url"@) is None ==> push_target_of(Ok(Some(cfg))) is None,
        push_target_of(Ok(None)) is None,
        push_target_of(Err(())) is None,
{
}

/// A request about a task that its caller does not hold ends in the error of a
/// missing task, also for its webhook.
pub proof fn only_held_tasks_are_spoken_of(
    params: JsonV,
    read: Result<Option<JsonV>, ()>,
    id: Seq<char>,
)
    ensures
        owned_task(params, read) == Ok::<_, JsonRpcErrorV>(id) <==> params.text_at("id"@) == Some(id)
            && (read matches Ok(Some(_))),
        params.text_at("id"@) is Some && (read matches Ok(None)) ==> (owned_task(params, read)
            matches Err(e) && e.code == -32001),
        params.text_at("id"@) is Some && read is Err ==> (owned_task(params, read) matches Err(e)
            && e.code == -32603),
{
}

/// A task that has ended is not canceled, and is told by the name of its state; one
/// that cannot be read, or is not there, is told as missing.
pub proof fn cancellation_is_refused_by_state(stored: JsonV, t: TaskV)
    ensures
        read_task(stored) == Ok::<_, Seq<char>>(t) && (t.status.state == TaskState::Completed
            || t.status.state == TaskState::Failed || t.status.state == TaskState::Canceled
            || t.status.state == TaskState::Rejected) ==> (cancel_refusal(Ok(Some(stored)))
            matches Some(e) && e.code == -32002 && e.message
            == "Task is not cancelable: current state is "@ + state_name(t.status.state)),
        read_task(stored) == Ok::<_, Seq<char>>(t) && (t.status.state == TaskState::Submitted
            || t.status.state == TaskState::Working || t.status.state == TaskState::InputRequired)
            ==> cancel_refusal(Ok(Some(stored))) is None,
        read_task(stored) is Err ==> (cancel_refusal(Ok(Some(stored))) matches Some(e) && e.code
            == -32001),
        cancel_refusal(Ok(None)) matches Some(e) && e.code == -32001,
{
}

/// The outcome of a run tells of one task: the event carries the task's id, its
/// context and its status, and a text is told in one part of a message of the
/// agent.
pub proof fn outcomes_tell_of_one_task(
    o: Outcome,
    task_id: Seq<char>,
    context_id: Seq<char>,
    artifacts: Seq<ArtifactV>,
    history: Seq<MessageV>,
    state: TaskState,
    text: Option<Seq<char>>,
)
    requires
        outcome_is(o, task_id, context_id, artifacts, history, state, text),
    ensures
        o.task@.id == task_id && o.task@.context_id == context_id,
        o.task@.artifacts == artifacts && o.task@.history == history,
        o.task@.status.state == state,
        o.event@ == (EventV::Status { task_id, context_id, status: o.task@.status }),
        text is None ==> o.task@.status.message is None,
        text matches Some(t) ==> (o.task@.status.message matches Some(m) && m.parts == seq![
            PartV::Text(t),
        ] && m.role == crate::types::Role::Agent),
        o.task@.status.timestamp is Some,
{
}

/// A skill that is not known is told by its id.
pub proof fn unknown_skills_are_named(skill_id: Seq<char>)
    ensures
        unknown_skill_text(skill_id).len() == "Skill not found: "@.len() + skill_id.len(),
        "Skill not found: "@.is_prefix_of(unknown_skill_text(skill_id)),
        unknown_skill_text(skill_id).skip("Skill not found: "@.len() as int) == skill_id,
{
    let t = unknown_skill_text(skill_id);
    assert("Skill not found: "@ =~= t.subrange(0, "Skill not found: "@.len() as int));
    assert(t.skip("Skill not found: "@.len() as int) =~= skill_id);
}

/// A card is served to a caller as it was served to the same caller before, as long
/// as it is kept; and the card itself stays what it is.
pub proof fn cards_are_served_again(
    before: FilteredCard,
    between: FilteredCard,
    after: FilteredCard,
    executor: ApCoreAgentExecutor,
    first: Option<IdentityV>,
    second: Option<IdentityV>,
    shown: JsonV,
    again: JsonV,
)
    requires
        card_served(before, between, executor, first, shown),
        card_served(between, after, executor, second, again),
        owner_of(first) == owner_of(second),
    ensures
        again == shown,
        after.whole() == before.whole(),
        after.copies() == between.copies(),
{
}

/// Without access rules a card is served whole to whoever has no copy of it.
pub proof fn cards_are_served_whole_without_rules(
    before: FilteredCard,
    after: FilteredCard,
    executor: ApCoreAgentExecutor,
    identity: Option<IdentityV>,
    shown: JsonV,
)
    requires
        card_served(before, after, executor, identity, shown),
        executor.rules() is None,
        before.copies().len() == 0,
    ensures
        shown == before.whole(),
{
}

/// Two texts are the same but for case exactly where each character of the one is
/// that of the other, or the large or small form of its letter.
pub proof fn case_is_of_letters_alone(a: Seq<char>, b: Seq<char>, i: int, c: char)
    ensures
        same_but_case(a, b) ==> a.len() == b.len(),
        same_but_case(a, b) && 0 <= i < a.len() ==> a[i] == b[i] || ('A' <= a[i] <= 'Z' && b[i] as int
            == a[i] as int + 32) || ('A' <= b[i] <= 'Z' && a[i] as int == b[i] as int + 32),
        same_but_case(a, a),
        'A' <= c <= 'Z' ==> ascii_lower(c) as int == c as int + 32,
        !('A' <= c <= 'Z') ==> ascii_lower(c) == c,
{
}

/// A task that is started has nothing yet but its state; one whose skill is not known
/// has failed, and says which skill it was.
pub proof fn started_tasks_are_empty(s: SendStart, p: ParsedV, skills: Seq<Seq<char>>)
    requires
        send_starts(s, p, skills),
    ensures
        s matches SendStart::Run { task, .. } ==> task@.artifacts.len() == 0 && task@.history.len()
            == 0 && task@.status.message is None,
        s matches SendStart::Fail(o) ==> o.task@.artifacts.len() == 0 && o.task@.history.len() == 0,
        p matches ParsedV::Run { skill_id, .. } ==> (!skills.contains(skill_id) ==> (
        s matches SendStart::Fail(o) && (o.task@.status.message matches Some(m) && m.parts == seq![
            PartV::Text("Skill not found: "@ + skill_id),
        ]))),
{
}

/// A text ends with another exactly where it is that other behind something, or
/// behind nothing.
pub proof fn texts_end_with_their_tails(a: Seq<char>, s: Seq<char>, tail: Seq<char>)
    ensures
        ends_with(a + tail, tail),
        ends_with(s, tail) ==> s.len() >= tail.len() && s == s.take(s.len() - tail.len()) + tail,
{
    let t = a + tail;
    assert(t.subrange(t.len() - tail.len(), t.len() as int) =~= tail);
    if ends_with(s, tail) {
        let k = s.len() - tail.len();
        assert(s =~= s.take(k) + s.subrange(k, s.len() as int));
    }
}

} // verus!
