//! Calls to a remote agent: what is sent, and what is made of the answer.

use vstd::prelude::*;
use vstd::string::*;

use crate::client::card_fetcher::{AgentCardFetcher, FetcherV};
use crate::client::exceptions::{A2AClientError, ClientErrorV, ClientResult};
use crate::client::sse::{error_of, object_error};
use crate::json::{
    fields, integer, integer_v, object, put, string, Json, JsonV,
};
use crate::server::factory::{trim_trailing_slashes, without_trailing_slashes};
use crate::server::handlers::ascii_lower;
use crate::text::{chars_of, clone_opt, join, opt_view, owned, starts_with};
use crate::types::{fresh_id, is_uuid_text, opt_member, opt_text, put_opt_str};

verus! {

/// How long a request may take where nothing else is said, in milliseconds.
pub const DEFAULT_TIMEOUT_MS: u64 = 30000;

/// `s` with its ASCII letters in lower case.
pub open spec fn lowered(s: Seq<char>) -> Seq<char> {
    s.map_values(|c: char| ascii_lower(c))
}

/// What follows the scheme of an HTTP URL.
pub open spec fn after_scheme(url: Seq<char>) -> Option<Seq<char>> {
    let l = lowered(url);
    if "http://"@.is_prefix_of(l) {
        Some(l.subrange("http://"@.len() as int, l.len() as int))
    } else if "https://"@.is_prefix_of(l) {
        Some(l.subrange("https://"@.len() as int, l.len() as int))
    } else {
        None
    }
}

/// An HTTP URL with something that may be a host.
pub open spec fn url_ok(url: Seq<char>) -> bool {
    after_scheme(url) matches Some(rest) && rest.len() > 0 && rest[0] != '/'
}

/// Whether `url` is an HTTP URL; the error names it where it is not.
pub fn validate_url(url: &str) -> (r: ClientResult<()>)
    ensures
        r is Ok <==> url_ok(url@),
        r matches Err(e) ==> e@ == ClientErrorV::InvalidUrl(url@),
{
    let cs: Vec<char> = chars_of(url);
    let mut low: Vec<char> = Vec::new();
    let mut i: usize = 0;
    while i < cs.len()
        invariant
            i <= cs.len(),
            low.len() == i,
            forall|k: int| 0 <= k < i ==> low@[k] == ascii_lower(#[trigger] cs@[k]),
        decreases cs.len() - i,
    {
        low.push(crate::server::handlers::lower(cs[i]));
        i += 1;
    }
    assert(low@ =~= lowered(url@));
    let l: String = crate::text::string_of(&low);
    proof {
        reveal_strlit("http://");
        reveal_strlit("https://");
    }
    let start: usize = if starts_with(l.as_str(), "http://") {
        7
    } else if starts_with(l.as_str(), "https://") {
        8
    } else {
        return Err(A2AClientError::InvalidUrl(owned(url)));
    };
    proof {
        let rest = after_scheme(url@)->0;
        assert(rest =~= low@.subrange(start as int, low@.len() as int));
    }
    if start < low.len() && low[start] != '/' {
        Ok(())
    } else {
        Err(A2AClientError::InvalidUrl(owned(url)))
    }
}

/// A text that may stand in an HTTP header: no control characters but tabs.
pub open spec fn header_ok(s: Seq<char>) -> bool {
    forall|i: int|
        0 <= i < s.len() ==> (#[trigger] s[i] == '\t' || (s[i] >= ' ' && s[i] != '\u{7f}'))
}

/// `reqwest::header::HeaderValue::from_str`: what is wrong with a header value,
/// or nothing where it may stand in a header. The error always says the same.
#[verifier::external_body]
pub(crate) fn header_fault(value: &str) -> (r: Option<String>)
    ensures
        r is None <==> header_ok(value@),
        r matches Some(e) ==> e@ == "failed to parse header value"@,
{
    reqwest::header::HeaderValue::from_str(value).err().map(|e| e.to_string())
}

/// The parameters of a message.
pub open spec fn message_params(
    message: JsonV,
    metadata: Option<JsonV>,
    context_id: Option<Seq<char>>,
) -> JsonV {
    JsonV::Object(
        seq![
            ("message"@, message),
            (
                "metadata"@,
                match metadata {
                    Some(m) => m,
                    None => JsonV::Object(seq![]),
                },
            ),
        ] + opt_member("contextId"@, opt_text(context_id)),
    )
}

/// The parameters of a message.
pub fn build_message_params(
    message: Json,
    metadata: Option<Json>,
    context_id: &Option<String>,
) -> (r: Json)
    ensures
        r@ == message_params(message@, crate::json::opt(metadata), opt_view(*context_id)),
{
    let mut m: Vec<(String, Json)> = Vec::new();
    put(&mut m, "message", message);
    match metadata {
        Some(x) => put(&mut m, "metadata", x),
        None => {
            let none: Vec<(String, Json)> = Vec::new();
            assert(fields(none@) =~= seq![]);
            put(&mut m, "metadata", object(none));
        },
    }
    put_opt_str(&mut m, "contextId", context_id);
    assert(fields(m@) =~= message_params(
        message@,
        crate::json::opt(metadata),
        opt_view(*context_id),
    )->Object_0);
    object(m)
}

/// A JSON-RPC request.
pub open spec fn request_json(id: Seq<char>, method: Seq<char>, params: JsonV) -> JsonV {
    JsonV::Object(
        seq![
            ("jsonrpc"@, JsonV::Str("2.0"@)),
            ("id"@, JsonV::Str(id)),
            ("method"@, JsonV::Str(method)),
            ("params"@, params),
        ],
    )
}

/// A JSON-RPC request under the given id.
pub fn request_body(id: &str, method: &str, params: Json) -> (r: Json)
    ensures
        r@ == request_json(id@, method@, params@),
{
    let mut m: Vec<(String, Json)> = Vec::new();
    put(&mut m, "jsonrpc", string("2.0"));
    put(&mut m, "id", string(id));
    put(&mut m, "method", string(method));
    put(&mut m, "params", params);
    assert(fields(m@) =~= request_json(id@, method@, params@)->Object_0);
    object(m)
}

/// A call that is to be posted.
#[derive(Debug)]
pub struct RpcCall {
    pub url: String,
    pub body: Json,
    /// The value of the `A2A-Version` header, where one is sent.
    pub version: Option<String>,
    /// The task that the call is about, where it is about one.
    pub task_id: Option<String>,
}

/// The call is of the given kind, under some fresh id.
pub open spec fn call_is(
    c: RpcCall,
    base_url: Seq<char>,
    method: Seq<char>,
    params: JsonV,
    version: Option<Seq<char>>,
    task_id: Option<Seq<char>>,
) -> bool {
    &&& c.url@ == base_url + "/"@
    &&& exists|id: Seq<char>|
        is_uuid_text(id) && c.body@ == #[trigger] request_json(id, method, params)
    &&& opt_view(c.version) == version
    &&& opt_view(c.task_id) == task_id
}

/// The error with the task it is about, where it says that a task is missing
/// and not which.
pub open spec fn attached(e: ClientErrorV, task_id: Seq<char>) -> ClientErrorV {
    if e == ClientErrorV::TaskNotFound(None) {
        ClientErrorV::TaskNotFound(Some(task_id))
    } else {
        e
    }
}

/// The error with the task it is about, where it says that a task is missing
/// and not which.
pub fn attach_task_id(err: A2AClientError, task_id: &str) -> (r: A2AClientError)
    ensures
        r@ == attached(err@, task_id@),
{
    match err {
        A2AClientError::TaskNotFound { task_id: None } => A2AClientError::TaskNotFound {
            task_id: Some(owned(task_id)),
        },
        other => other,
    }
}

/// What a call ends in, given the JSON of the response.
pub open spec fn answer(data: JsonV, task_id: Option<Seq<char>>) -> Result<JsonV, ClientErrorV> {
    match data.get("error"@) {
        Some(err) => Err(
            match task_id {
                Some(t) => attached(object_error(err), t),
                None => object_error(err),
            },
        ),
        None => Ok(
            match data.get("result"@) {
                Some(v) => v,
                None => JsonV::Null,
            },
        ),
    }
}

/// What an executable answer denotes.
pub open spec fn client_result(r: ClientResult<Json>) -> Result<JsonV, ClientErrorV> {
    match r {
        Ok(v) => Ok(v@),
        Err(e) => Err(e@),
    }
}

impl RpcCall {
    /// What the call ends in, given the JSON of the response.
    pub fn conclude(&self, data: &Json) -> (r: ClientResult<Json>)
        ensures
            client_result(r) == answer(data@, opt_view(self.task_id)),
    {
        match data.get("error") {
            Some(err) => {
                let e: A2AClientError = error_of(err);
                match &self.task_id {
                    Some(t) => Err(attach_task_id(e, t.as_str())),
                    None => Err(e),
                }
            },
            None => match data.get("result") {
                Some(v) => Ok(v.copy()),
                None => Ok(Json::Null),
            },
        }
    }
}

/// The error for an HTTP status that is no success.
pub fn http_failure(status: &str) -> (r: A2AClientError)
    ensures
        r@ == ClientErrorV::Connection("HTTP "@ + status@),
{
    A2AClientError::Connection(join("HTTP ", status))
}

/// The error for an HTTP status that is no success, of a stream.
pub fn stream_http_failure(status: &str) -> (r: A2AClientError)
    ensures
        r@ == ClientErrorV::Connection("stream returned HTTP "@ + status@),
{
    A2AClientError::Connection(join("stream returned HTTP ", status))
}

/// The error for a response that is not JSON.
pub fn invalid_response(err: &str) -> (r: A2AClientError)
    ensures
        r@ == ClientErrorV::Connection("invalid JSON response: "@ + err@),
{
    A2AClientError::Connection(join("invalid JSON response: ", err))
}

/// A client of one remote agent.
#[derive(Debug)]
pub struct A2AClient {
    base_url: String,
    auth: Option<String>,
    timeout_ms: u64,
    /// The fetcher of the agent's card.
    pub fetcher: AgentCardFetcher,
}

/// What a client denotes.
#[verifier::ext_equal]
pub struct ClientV {
    pub base_url: Seq<char>,
    pub auth: Option<Seq<char>>,
    pub timeout_ms: u64,
    pub fetcher: FetcherV,
}

impl View for A2AClient {
    type V = ClientV;

    closed spec fn view(&self) -> ClientV {
        ClientV {
            base_url: self.base_url@,
            auth: opt_view(self.auth),
            timeout_ms: self.timeout_ms,
            fetcher: self.fetcher@,
        }
    }
}

/// The client that is set up for a URL.
pub open spec fn client_for(
    url: Seq<char>,
    auth: Option<Seq<char>>,
    timeout_ms: Option<u64>,
    card_ttl_ms: Option<u64>,
) -> ClientV {
    ClientV {
        base_url: without_trailing_slashes(url),
        auth,
        timeout_ms: match timeout_ms {
            Some(t) => t,
            None => 30000,
        },
        fetcher: FetcherV {
            base_url: without_trailing_slashes(url),
            ttl_ms: match card_ttl_ms {
                Some(t) => t,
                None => 300000,
            },
            fetched: None,
        },
    }
}

impl A2AClient {
    /// A client with the usual timeout, and without authentication.
    pub fn new(url: &str) -> (r: A2AClient)
        requires
            url_ok(url@),
        ensures
            r@ == client_for(url@, None, None, None),
    {
        Self::set_up(url, None, None, None)
    }

    /// A client for `url`. `auth` is the value of the `Authorization` header.
    /// The URL must be an HTTP URL, and `auth` must be able to stand in a header.
    pub fn try_new(
        url: &str,
        auth: Option<String>,
        timeout_ms: Option<u64>,
        card_ttl_ms: Option<u64>,
    ) -> (r: ClientResult<A2AClient>)
        ensures
            match r {
                Ok(c) => url_ok(url@) && (opt_view(auth) matches Some(a) ==> header_ok(a)) && c@
                    == client_for(url@, opt_view(auth), timeout_ms, card_ttl_ms),
                Err(e) => if !url_ok(url@) {
                    e@ == ClientErrorV::InvalidUrl(url@)
                } else {
                    opt_view(auth) matches Some(a) && !header_ok(a) && e@
                        == ClientErrorV::InvalidUrl(
                        "invalid auth header: "@ + "failed to parse header value"@,
                    )
                },
            },
    {
        match validate_url(url) {
            Ok(_) => {},
            Err(e) => {
                return Err(e);
            },
        }
        if let Some(a) = &auth {
            if let Some(fault) = header_fault(a.as_str()) {
                return Err(
                    A2AClientError::InvalidUrl(join("invalid auth header: ", fault.as_str())),
                );
            }
        }
        Ok(Self::set_up(url, auth, timeout_ms, card_ttl_ms))
    }

    fn set_up(
        url: &str,
        auth: Option<String>,
        timeout_ms: Option<u64>,
        card_ttl_ms: Option<u64>,
    ) -> (r: A2AClient)
        ensures
            r@ == client_for(url@, opt_view(auth), timeout_ms, card_ttl_ms),
    {
        let base_url: String = trim_trailing_slashes(url);
        let fetcher: AgentCardFetcher = match card_ttl_ms {
            Some(t) => AgentCardFetcher::with_ttl(base_url.as_str(), t),
            None => AgentCardFetcher::new(base_url.as_str()),
        };
        let timeout_ms: u64 = match timeout_ms {
            Some(t) => t,
            None => DEFAULT_TIMEOUT_MS,
        };
        A2AClient { base_url, auth, timeout_ms, fetcher }
    }

    /// The value of the `Authorization` header, where one is sent.
    pub fn authorization(&self) -> (r: Option<String>)
        ensures
            opt_view(r) == self@.auth,
    {
        clone_opt(&self.auth)
    }

    /// How long a request may take, in milliseconds.
    pub fn timeout_ms(&self) -> (r: u64)
        ensures
            r == self@.timeout_ms,
    {
        self.timeout_ms
    }

    /// The call that sends a message and waits for its task.
    pub fn send_message(
        &self,
        message: Json,
        metadata: Option<Json>,
        context_id: Option<String>,
    ) -> (r: RpcCall)
        ensures
            call_is(
                r,
                self@.base_url,
                "message/send"@,
                message_params(message@, crate::json::opt(metadata), opt_view(context_id)),
                None,
                None,
            ),
    {
        self.jsonrpc_call(
            "message/send",
            build_message_params(message, metadata, &context_id),
            None,
        )
    }

    /// The call that sends a message and streams what becomes of it.
    pub fn stream_message(
        &self,
        message: Json,
        metadata: Option<Json>,
        context_id: Option<String>,
    ) -> (r: RpcCall)
        ensures
            call_is(
                r,
                self@.base_url,
                "message/stream"@,
                message_params(message@, crate::json::opt(metadata), opt_view(context_id)),
                None,
                None,
            ),
    {
        self.jsonrpc_call(
            "message/stream",
            build_message_params(message, metadata, &context_id),
            None,
        )
    }

    /// The call that reads a task.
    pub fn get_task(&self, task_id: &str) -> (r: RpcCall)
        ensures
            call_is(
                r,
                self@.base_url,
                "tasks/get"@,
                task_params(task_id@),
                None,
                Some(task_id@),
            ),
    {
        self.jsonrpc_call("tasks/get", id_params(task_id), Some(owned(task_id)))
    }

    /// The call that cancels a task.
    pub fn cancel_task(&self, task_id: &str) -> (r: RpcCall)
        ensures
            call_is(
                r,
                self@.base_url,
                "tasks/cancel"@,
                task_params(task_id@),
                None,
                Some(task_id@),
            ),
    {
        self.jsonrpc_call("tasks/cancel", id_params(task_id), Some(owned(task_id)))
    }

    /// The call that lists tasks. The method is one of version 1.0 alone, and so
    /// the call says that version.
    pub fn list_tasks(&self, context_id: Option<String>, limit: i64) -> (r: RpcCall)
        ensures
            call_is(
                r,
                self@.base_url,
                "ListTasks"@,
                list_params(opt_view(context_id), limit as int),
                Some("1.0"@),
                None,
            ),
    {
        let mut m: Vec<(String, Json)> = Vec::new();
        put(&mut m, "pageSize", integer(limit));
        put_opt_str(&mut m, "contextId", &context_id);
        assert(fields(m@) =~= list_params(opt_view(context_id), limit as int)->Object_0);
        self.jsonrpc_call_versioned("ListTasks", object(m), Some(owned("1.0")), None)
    }

    fn jsonrpc_call(&self, method: &str, params: Json, task_id: Option<String>) -> (r: RpcCall)
        ensures
            call_is(r, self@.base_url, method@, params@, None, opt_view(task_id)),
    {
        self.jsonrpc_call_versioned(method, params, None, task_id)
    }

    fn jsonrpc_call_versioned(
        &self,
        method: &str,
        params: Json,
        version: Option<String>,
        task_id: Option<String>,
    ) -> (r: RpcCall)
        ensures
            call_is(r, self@.base_url, method@, params@, opt_view(version), opt_view(task_id)),
    {
        RpcCall {
            url: join(self.base_url.as_str(), "/"),
            body: request_body(fresh_id().as_str(), method, params),
            version,
            task_id,
        }
    }
}

/// The parameters of a call about a task.
pub open spec fn task_params(task_id: Seq<char>) -> JsonV {
    JsonV::Object(seq![("id"@, JsonV::Str(task_id))])
}

fn id_params(task_id: &str) -> (r: Json)
    ensures
        r@ == task_params(task_id@),
{
    let mut m: Vec<(String, Json)> = Vec::new();
    put(&mut m, "id", string(task_id));
    assert(fields(m@) =~= task_params(task_id@)->Object_0);
    object(m)
}

/// The parameters of a listing.
pub open spec fn list_params(context_id: Option<Seq<char>>, limit: int) -> JsonV {
    JsonV::Object(
        seq![("pageSize"@, integer_v(limit))] + opt_member("contextId"@, opt_text(context_id)),
    )
}

/// A client reads the response of a server as what the server's method ended in.
pub proof fn answers_are_read_as_given(
    id: JsonV,
    r: Result<JsonV, crate::adapters::errors::JsonRpcErrorV>,
    task_id: Option<Seq<char>>,
)
    requires
        r matches Err(e) ==> i32::MIN <= e.code <= i32::MAX,
    ensures
        r matches Ok(v) ==> answer(crate::server::handlers::reply_json(id, r), task_id) == Ok::<
            _,
            ClientErrorV,
        >(v),
        r matches Err(e) ==> answer(crate::server::handlers::reply_json(id, r), task_id) == Err::<
            JsonV,
            _,
        >(
            match task_id {
                Some(t) => attached(crate::client::exceptions::typed_error(e.code, e.message), t),
                None => crate::client::exceptions::typed_error(e.code, e.message),
            },
        ),
{
    crate::server::handlers::reply_echoes_the_request(id, r);
    if let Err(e) = r {
        let err = crate::adapters::errors::rpc_error_json(e);
        reveal_with_fuel(crate::json::member, 3);
        reveal_strlit("code");
        reveal_strlit("message");
        assert("code"@.len() == 4);
        assert("message"@.len() == 7);
        assert(err->Object_0.skip(1)[0] == err->Object_0[1]);
        assert(err.get("code"@) == Some(integer_v(e.code)));
        assert(err.text_at("message"@) == Some(e.message));
    }
}

/// What a client sends is a request to a server, with the method and the
/// parameters of the call.
pub proof fn calls_are_requests(id: Seq<char>, method: Seq<char>, params: JsonV)
    requires
        crate::server::handlers::method_named(method) is Some,
    ensures
        crate::server::handlers::taken_in(Some(request_json(id, method, params))) == (
        crate::server::handlers::IntakeV::Run {
            id: JsonV::Str(id),
            method: crate::server::handlers::method_named(method)->0,
            params,
        }),
{
    let m = request_json(id, method, params)->Object_0;
    reveal_strlit("jsonrpc");
    reveal_strlit("id");
    reveal_strlit("method");
    reveal_strlit("params");
    assert("jsonrpc"@[0] == 'j');
    assert("id"@[0] == 'i');
    assert("method"@[0] == 'm');
    assert("params"@[0] == 'p');
    crate::json::member_at(m, "jsonrpc"@, 0);
    crate::json::member_at(m, "id"@, 1);
    crate::json::member_at(m, "method"@, 2);
    crate::json::member_at(m, "params"@, 3);
}

/// An agent's URL is one of HTTP, in whatever case its scheme is written, with a host
/// behind it.
pub proof fn urls_have_a_scheme_and_a_host(url: Seq<char>, rest: Seq<char>)
    ensures
        url_ok("http://"@ + rest) <==> rest.len() > 0 && rest[0] != '/',
        url_ok("https://"@ + rest) <==> rest.len() > 0 && rest[0] != '/',
        url_ok("HTTPS://"@ + rest) <==> rest.len() > 0 && rest[0] != '/',
        url_ok(url) ==> url.len() > 7 && (url[0] == 'h' || url[0] == 'H') && (url[1] == 't' || url[1]
            == 'T') && (url[2] == 't' || url[2] == 'T') && (url[3] == 'p' || url[3] == 'P') && (
        url[4] == ':' || ((url[4] == 's' || url[4] == 'S') && url[5] == ':')),
{
    reveal_strlit("http://");
    reveal_strlit("https://");
    reveal_strlit("HTTPS://");
    let plain = "http://"@ + rest;
    let secure = "https://"@ + rest;
    let loud = "HTTPS://"@ + rest;
    assert(lowered(plain).subrange(0, 7) =~= "http://"@);
    assert(lowered(secure).subrange(0, 8) =~= "https://"@);
    assert(lowered(loud).subrange(0, 8) =~= "https://"@);
    assert(lowered(secure)[4] == 's');
    assert(lowered(loud)[4] == 's');
    assert("http://"@[4] == ':');
    if "http://"@.is_prefix_of(lowered(secure)) {
        assert(lowered(secure).subrange(0, 7)[4] == ':');
    }
    if "http://"@.is_prefix_of(lowered(loud)) {
        assert(lowered(loud).subrange(0, 7)[4] == ':');
    }
    if rest.len() > 0 {
        assert(lowered(plain)[7] == ascii_lower(rest[0]));
        assert(lowered(secure)[8] == ascii_lower(rest[0]));
        assert(lowered(loud)[8] == ascii_lower(rest[0]));
        assert(ascii_lower(rest[0]) == '/' <==> rest[0] == '/');
    }
    if url_ok(url) {
        let l = lowered(url);
        if "http://"@.is_prefix_of(l) {
            let p = l.subrange(0, 7);
            assert(p[0] == 'h' && p[1] == 't' && p[2] == 't' && p[3] == 'p' && p[4] == ':');
            assert(p[0] == l[0] && p[1] == l[1] && p[2] == l[2] && p[3] == l[3] && p[4] == l[4]);
        } else {
            let p = l.subrange(0, 8);
            assert(p[0] == 'h' && p[1] == 't' && p[2] == 't' && p[3] == 'p' && p[4] == 's' && p[5]
                == ':');
            assert(p[0] == l[0] && p[1] == l[1] && p[2] == l[2] && p[3] == l[3] && p[4] == l[4]
                && p[5] == l[5]);
        }
        assert(l[0] == ascii_lower(url[0]) && l[1] == ascii_lower(url[1]));
        assert(l[2] == ascii_lower(url[2]) && l[3] == ascii_lower(url[3]));
        assert(l[4] == ascii_lower(url[4]) && l[5] == ascii_lower(url[5]));
    }
}

/// A header holds no control character but the tabulator, and anything else.
pub proof fn headers_hold_no_control_characters(s: Seq<char>, c: char)
    ensures
        header_ok(s.push(c)) <==> header_ok(s) && (c == '\t' || (c >= ' ' && c != '\u{7f}')),
        header_ok(Seq::<char>::empty()),
        s.contains('\n') || s.contains('\r') || s.contains('\u{7f}') ==> !header_ok(s),
{
    let t = s.push(c);
    if header_ok(t) {
        assert forall|i: int| 0 <= i < s.len() implies (#[trigger] s[i] == '\t' || (s[i] >= ' '
            && s[i] != '\u{7f}')) by {
            assert(t[i] == s[i]);
        }
        assert(t[s.len() as int] == c);
    }
    if header_ok(s) && (c == '\t' || (c >= ' ' && c != '\u{7f}')) {
        assert forall|i: int| 0 <= i < t.len() implies (#[trigger] t[i] == '\t' || (t[i] >= ' '
            && t[i] != '\u{7f}')) by {
            if i < s.len() {
                assert(t[i] == s[i]);
            }
        }
    }
}

/// A message is sent with its metadata, or with none, and in its conversation where
/// one is given.
pub proof fn messages_are_sent_as_given(
    message: JsonV,
    metadata: Option<JsonV>,
    context_id: Option<Seq<char>>,
)
    ensures
        message_params(message, metadata, context_id).get("message"@) == Some(message),
        metadata is Some ==> message_params(message, metadata, context_id).get("metadata"@)
            == metadata,
        metadata is None ==> (message_params(message, metadata, context_id).get("metadata"@)
            matches Some(JsonV::Object(m)) && m.len() == 0),
        message_params(message, metadata, context_id).text_at("contextId"@) == context_id,
{
    reveal_strlit("message");
    reveal_strlit("metadata");
    reveal_strlit("contextId");
    assert("message"@.len() == 7);
    assert("metadata"@.len() == 8);
    assert("contextId"@.len() == 9);
    let m = message_params(message, metadata, context_id)->Object_0;
    crate::json::member_at(m, "message"@, 0);
    crate::json::member_at(m, "metadata"@, 1);
    if context_id is Some {
        crate::json::member_at(m, "contextId"@, 2);
    } else {
        crate::json::member_absent(m, "contextId"@);
    }
}

/// A task is asked for by its id, and tasks are listed by how many are wanted and
/// of which conversation.
pub proof fn tasks_are_asked_for(task_id: Seq<char>, context_id: Option<Seq<char>>, limit: int)
    ensures
        task_params(task_id).text_at("id"@) == Some(task_id),
        crate::server::handlers::named_task(task_params(task_id)) == Ok::<
            _,
            crate::adapters::errors::JsonRpcErrorV,
        >(task_id),
        list_params(context_id, limit).get("pageSize"@) == Some(integer_v(limit)),
        list_params(context_id, limit).text_at("contextId"@) == context_id,
{
    reveal_strlit("pageSize");
    reveal_strlit("contextId");
    assert("pageSize"@.len() == 8);
    assert("contextId"@.len() == 9);
    crate::json::member_at(task_params(task_id)->Object_0, "id"@, 0);
    let m = list_params(context_id, limit)->Object_0;
    crate::json::member_at(m, "pageSize"@, 0);
    if context_id is Some {
        crate::json::member_at(m, "contextId"@, 1);
    } else {
        crate::json::member_absent(m, "contextId"@);
    }
}

/// A call goes to the agent, under an id of its own, and says the method, the
/// parameters, the version and the task that it was made with.
pub proof fn calls_are_as_made(
    c: RpcCall,
    base_url: Seq<char>,
    method: Seq<char>,
    params: JsonV,
    version: Option<Seq<char>>,
    task_id: Option<Seq<char>>,
)
    requires
        call_is(c, base_url, method, params, version, task_id),
    ensures
        c.url@ == base_url + "/"@,
        c.body@.text_at("jsonrpc"@) == Some("2.0"@),
        c.body@.text_at("method"@) == Some(method),
        c.body@.get("params"@) == Some(params),
        c.body@.text_at("id"@) matches Some(id) && is_uuid_text(id),
        opt_view(c.version) == version,
        opt_view(c.task_id) == task_id,
{
    reveal_strlit("jsonrpc");
    reveal_strlit("id");
    reveal_strlit("method");
    reveal_strlit("params");
    assert("jsonrpc"@.len() == 7);
    assert("id"@.len() == 2);
    assert("method"@.len() == 6 && "method"@[0] == 'm');
    assert("params"@.len() == 6 && "params"@[0] == 'p');
    let m = c.body@->Object_0;
    crate::json::member_at(m, "jsonrpc"@, 0);
    crate::json::member_at(m, "id"@, 1);
    crate::json::member_at(m, "method"@, 2);
    crate::json::member_at(m, "params"@, 3);
}

/// A missing task is named where the error does not name it, and nothing else is
/// changed of an error.
pub proof fn missing_tasks_are_named(e: ClientErrorV, task_id: Seq<char>)
    ensures
        attached(ClientErrorV::TaskNotFound(None), task_id) == ClientErrorV::TaskNotFound(
            Some(task_id),
        ),
        e != ClientErrorV::TaskNotFound(None) ==> attached(e, task_id) == e,
{
}

/// A response is an error where it has one, whatever else it has; otherwise it is
/// its result, and `null` where it has none.
pub proof fn responses_are_errors_or_results(data: JsonV, task_id: Option<Seq<char>>)
    ensures
        answer(data, task_id) is Err <==> data.get("error"@) is Some,
        data.get("error"@) is None ==> answer(data, task_id) == Ok::<_, ClientErrorV>(
            match data.get("result"@) {
                Some(v) => v,
                None => JsonV::Null,
            },
        ),
        data.get("error"@) matches Some(err) ==> answer(data, None) == Err::<JsonV, _>(
            object_error(err),
        ),
        data.get("error"@) matches Some(err) ==> (err.get("code"@) == Some(integer_v(-32001)) && (
        task_id matches Some(t)) ==> answer(data, task_id) == Err::<JsonV, _>(
            ClientErrorV::TaskNotFound(task_id),
        )),
{
}

/// A client speaks to the URL it was set up for, without the slashes at its end,
/// with the authorization and the times it was given; half a minute and five
/// minutes are the times where none are given.
pub proof fn clients_are_as_set_up(
    url: Seq<char>,
    auth: Option<Seq<char>>,
    timeout_ms: Option<u64>,
    card_ttl_ms: Option<u64>,
)
    ensures
        ({
            let c = client_for(url, auth, timeout_ms, card_ttl_ms);
            &&& c.base_url.is_prefix_of(url) && (c.base_url.len() > 0 ==> c.base_url.last() != '/')
            &&& url.len() > 0 && url.last() != '/' ==> c.base_url == url
            &&& c.auth == auth
            &&& timeout_ms matches Some(t) ==> c.timeout_ms == t
            &&& timeout_ms is None ==> c.timeout_ms == 30_000
            &&& c.fetcher.base_url == c.base_url && c.fetcher.fetched is None
            &&& card_ttl_ms matches Some(t) ==> c.fetcher.ttl_ms == t
            &&& card_ttl_ms is None ==> c.fetcher.ttl_ms == 300_000
        }),
{
    crate::server::factory::only_trailing_slashes_are_taken_off(url);
}

} // verus!
