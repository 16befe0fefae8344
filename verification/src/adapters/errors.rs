//! Translation of module errors to JSON-RPC errors, and the redaction policy.

use vstd::prelude::*;
use vstd::string::*;

use crate::json::{fields, integer, integer_v, object, put, string, Json, JsonV};
use crate::text::{
    blank, blank_is_trimmed_empty, chars_of, is_white, join, opt_view, owned, slice, starts_with,
    str_eq, trim, trim_left, trim_right, trimmed,
};

verus! {

/// Unknown method.
pub const CODE_METHOD_NOT_FOUND: i32 = -32601;

/// The request's parameters are unusable.
pub const CODE_INVALID_PARAMS: i32 = -32602;

/// A failure the caller can do nothing about.
pub const CODE_INTERNAL_ERROR: i32 = -32603;

/// An unknown task id, or one that another principal owns.
pub const CODE_TASK_NOT_FOUND: i32 = -32001;

/// Refused by an access rule.
pub const CODE_ACCESS_DENIED: i32 = -32040;

/// Refused by an approver.
pub const CODE_APPROVAL_DENIED: i32 = -32041;

/// No approver answered in time.
pub const CODE_APPROVAL_TIMEOUT: i32 = -32042;

/// The error codes of apcore.
#[derive(Debug, Clone, Copy, PartialEq, Eq, Structural)]
pub enum ErrorCode {
    ConfigNotFound,
    ConfigInvalid,
    ACLRuleError,
    ACLDenied,
    ModuleNotFound,
    ModuleDisabled,
    ModuleTimeout,
    ModuleLoadError,
    ModuleExecuteError,
    ReloadFailed,
    ExecutionCancelled,
    SchemaValidationError,
    SchemaNotFound,
    SchemaParseError,
    SchemaCircularRef,
    SchemaUnionNoMatch,
    SchemaUnionAmbiguous,
    SchemaMaxDepthExceeded,
    CallDepthExceeded,
    CircularCall,
    CallFrequencyExceeded,
    GeneralInvalidInput,
    InvalidModuleId,
    GeneralInternalError,
    GeneralNotImplemented,
    FuncMissingTypeHint,
    FuncMissingReturnType,
    BindingInvalidTarget,
    BindingModuleNotFound,
    BindingCallableNotFound,
    BindingNotCallable,
    BindingSchemaMissing,
    BindingSchemaInferenceFailed,
    BindingSchemaModeConflict,
    BindingStrictSchemaIncompatible,
    BindingFileInvalid,
    CircularDependency,
    MiddlewareChainError,
    ApprovalDenied,
    ApprovalTimeout,
    ApprovalPending,
    VersionIncompatible,
    ErrorCodeCollision,
    DependencyNotFound,
    DependencyVersionMismatch,
    ConfigNamespaceDuplicate,
    ConfigNamespaceReserved,
    ConfigEnvPrefixConflict,
    ConfigMountError,
    ConfigBindError,
    ConfigEnvMapConflict,
    ErrorFormatterDuplicate,
    PipelineAbort,
    PipelineConfigInvalid,
    PipelineConfigurationError,
    PipelineHandlerNotSupported,
    PipelineStepInsertionAmbiguous,
    PipelineStepError,
    PipelineStepNotFound,
    PipelineDependencyError,
    StepNotFound,
    StepNotRemovable,
    StepNotReplaceable,
    StepNameDuplicate,
    StrategyNotFound,
    EntryPointNotFound,
    EntryPointAmbiguous,
    EntryPointRuntimeUnsupported,
    NoDiscovererConfigured,
    TaskLimitExceeded,
    ReaperAlreadyRunning,
    VersionConstraintInvalid,
    InvalidParentId,
    ModuleIdConflict,
    InvalidSegment,
    IdTooLong,
    CircuitBreakerOpen,
    ModuleReloadConflict,
    SysModuleRegistrationFailed,
    SysModulesDisabled,
    ConfigKeyRestricted,
    StreamingInterfaceMismatch,
    DuplicateModuleId,
    ContextBindingError,
}

/// A failed module execution.
#[derive(Debug)]
pub struct ModuleError {
    pub code: ErrorCode,
    pub message: String,
    pub ai_guidance: Option<String>,
    pub user_fixable: Option<bool>,
}

impl ModuleError {
    /// An error with no guidance and no statement on who can fix it.
    pub fn new(code: ErrorCode, message: &str) -> (r: ModuleError)
        ensures
            r.code == code,
            r.message@ == message@,
            r.ai_guidance is None,
            r.user_fixable is None,
    {
        ModuleError { code, message: owned(message), ai_guidance: None, user_fixable: None }
    }

    /// The error with guidance for an agent.
    pub fn with_ai_guidance(self, guidance: &str) -> (r: ModuleError)
        ensures
            r.code == self.code,
            r.message == self.message,
            opt_view(r.ai_guidance) == Some(guidance@),
            r.user_fixable == self.user_fixable,
    {
        ModuleError {
            code: self.code,
            message: self.message,
            ai_guidance: Some(owned(guidance)),
            user_fixable: self.user_fixable,
        }
    }

    /// The error with an explicit statement on whether the caller can fix it.
    pub fn with_user_fixable(self, user_fixable: bool) -> (r: ModuleError)
        ensures
            r.code == self.code,
            r.message == self.message,
            r.ai_guidance == self.ai_guidance,
            r.user_fixable == Some(user_fixable),
    {
        ModuleError {
            code: self.code,
            message: self.message,
            ai_guidance: self.ai_guidance,
            user_fixable: Some(user_fixable),
        }
    }
}

/// A JSON-RPC error.
#[derive(Debug, PartialEq)]
pub struct JsonRpcError {
    pub code: i32,
    pub message: String,
}

/// What a JSON-RPC error denotes.
pub struct JsonRpcErrorV {
    pub code: int,
    pub message: Seq<char>,
}

impl View for JsonRpcError {
    type V = JsonRpcErrorV;

    open spec fn view(&self) -> JsonRpcErrorV {
        JsonRpcErrorV { code: self.code as int, message: self.message@ }
    }
}

/// Absolute paths and paths below a home directory.
pub const PATH_PATTERN: &'static str = "~?/\\S*";

/// Lines of a stack trace.
pub const TRACE_PATTERN: &'static str = "(?m)^.*(?:Traceback|File \"|line \\d+).*$";

/// Runs of whitespace.
pub const SPACE_PATTERN: &'static str = "\\s+";

/// `needle` stands somewhere in `hay`.
pub open spec fn occurs(hay: Seq<char>, needle: Seq<char>) -> bool {
    exists|i: int|
        0 <= i <= hay.len() - needle.len() && #[trigger] hay.subrange(i, i + needle.len())
            == needle
}

/// `s` from its first whitespace character on.
pub open spec fn after_word(s: Seq<char>) -> Seq<char>
    decreases s.len(),
{
    if s.len() > 0 && !is_white(s[0]) {
        after_word(s.skip(1))
    } else {
        s
    }
}

/// A path begins here: a slash, or a tilde and a slash.
pub open spec fn path_start(s: Seq<char>) -> bool {
    s.len() > 0 && (s[0] == '/' || (s.len() > 1 && s[0] == '~' && s[1] == '/'))
}

proof fn after_word_shrinks(s: Seq<char>)
    ensures
        after_word(s).len() <= s.len(),
        path_start(s) ==> after_word(s).len() < s.len(),
    decreases s.len(),
{
    if s.len() > 0 && !is_white(s[0]) {
        after_word_shrinks(s.skip(1));
    }
}

/// `s` without its paths; a path runs to the next whitespace.
pub open spec fn without_paths(s: Seq<char>) -> Seq<char>
    decreases s.len(),
    via without_paths_shrinks
{
    if s.len() == 0 {
        s
    } else if path_start(s) {
        without_paths(after_word(s))
    } else {
        seq![s[0]] + without_paths(s.skip(1))
    }
}

#[via_fn]
proof fn without_paths_shrinks(s: Seq<char>) {
    after_word_shrinks(s);
}

/// `s` with each run of whitespace made one space.
pub open spec fn collapsed(s: Seq<char>) -> Seq<char>
    decreases s.len(),
{
    if s.len() == 0 {
        s
    } else if !is_white(s.last()) {
        collapsed(s.drop_last()).push(s.last())
    } else if s.len() > 1 && is_white(s[s.len() - 2]) {
        collapsed(s.drop_last())
    } else {
        collapsed(s.drop_last()).push(' ')
    }
}

/// What `Regex::replace_all` makes of `text` when every match of `pattern` is
/// replaced by `replacement`.
pub uninterp spec fn regex_replaced(
    pattern: Seq<char>,
    text: Seq<char>,
    replacement: Seq<char>,
) -> Seq<char>;

/// `regex::Regex::new` and `Regex::replace_all`, for the three patterns of the
/// redaction policy, all of which compile.
///
/// The result is a function of pattern, text and replacement. Removing
/// `PATH_PATTERN` leaves the text without its paths. Replacing `SPACE_PATTERN`
/// by a space makes each run of whitespace one space. Removing `TRACE_PATTERN`
/// empties whole lines: no `Traceback` is left, no character is added, and a
/// text that holds none of the three markers stays as it is.
#[verifier::external_body]
fn replace_all(pattern: &str, text: &str, replacement: &str) -> (r: String)
    requires
        pattern@ == PATH_PATTERN@ || pattern@ == TRACE_PATTERN@ || pattern@ == SPACE_PATTERN@,
    ensures
        r@ == regex_replaced(pattern@, text@, replacement@),
        pattern@ == PATH_PATTERN@ && replacement@.len() == 0 ==> r@ == without_paths(text@),
        pattern@ == SPACE_PATTERN@ && replacement@ == seq![' '] ==> r@ == collapsed(text@),
        pattern@ == TRACE_PATTERN@ && replacement@.len() == 0 ==> !occurs(r@, "Traceback"@)
            && (forall|i: int| 0 <= i < r@.len() ==> text@.contains(#[trigger] r@[i])),
        pattern@ == TRACE_PATTERN@ && replacement@.len() == 0 && !occurs(text@, "Traceback"@)
            && !occurs(text@, "File \""@) && !occurs(text@, "line "@) ==> r@ == text@,
{
    let re = regex::Regex::new(pattern).unwrap();
    re.replace_all(text, replacement).into_owned()
}

/// `s` without the lines of a stack trace.
pub open spec fn without_traces(s: Seq<char>) -> Seq<char> {
    regex_replaced(TRACE_PATTERN@, s, Seq::empty())
}

/// The first `n` characters of `s`, or all of it when it has fewer.
pub open spec fn at_most(s: Seq<char>, n: nat) -> Seq<char> {
    if s.len() <= n {
        s
    } else {
        s.take(n as int)
    }
}

/// What of a message may reach a caller: no paths, no stack trace, single
/// spaces, and at most 500 characters.
pub open spec fn sanitized(message: Seq<char>) -> Seq<char> {
    at_most(trimmed(collapsed(without_traces(without_paths(message)))), 500)
}

/// Every whitespace is a single space.
pub open spec fn spaced(s: Seq<char>) -> bool {
    forall|i: int|
        0 <= i < s.len() ==> (is_white(#[trigger] s[i]) ==> s[i] == ' ' && (i + 1 < s.len()
            ==> !is_white(s[i + 1])))
}

/// What holds of every sanitized text: at most 500 characters, no slash and so
/// no path, no `Traceback`, and no whitespace but single spaces.
pub open spec fn clean(s: Seq<char>) -> bool {
    &&& s.len() <= 500
    &&& !s.contains('/')
    &&& !occurs(s, "Traceback"@)
    &&& spaced(s)
}

/// A text that sanitizing has no reason to touch.
pub open spec fn plain(s: Seq<char>) -> bool {
    &&& clean(s)
    &&& !occurs(s, "File \""@)
    &&& !occurs(s, "line "@)
    &&& s.len() > 0 ==> s[0] != ' ' && s.last() != ' '
}

/// A text in which nothing looks like a line of a stack trace.
pub open spec fn unmarked(s: Seq<char>) -> bool {
    !occurs(s, "Traceback"@) && !occurs(s, "File \""@) && !occurs(s, "line "@)
}

/// What is known of a sanitized text: it is clean, a plain text is left as it
/// is, of a text without marks of a stack trace only paths and excess whitespace
/// go, and nothing is left of a blank one.
pub open spec fn sanitizing_known(message: Seq<char>) -> bool {
    &&& clean(sanitized(message))
    &&& plain(message) ==> sanitized(message) == message
    &&& unmarked(without_paths(message)) ==> sanitized(message) == at_most(
        trimmed(collapsed(without_paths(message))),
        500,
    )
    &&& blank(message) ==> sanitized(message).len() == 0
}

/// Strip paths, stack traces and excess whitespace from text bound for a
/// caller. Whatever comes in, what goes out is clean; a plain text goes out as
/// it came.
pub fn sanitize_message(message: &str) -> (r: String)
    ensures
        r@ == sanitized(message@),
        clean(r@),
        plain(message@) ==> r@ == message@,
        unmarked(without_paths(message@)) ==> r@ == at_most(
            trimmed(collapsed(without_paths(message@))),
            500,
        ),
        blank(message@) ==> r@.len() == 0,
{
    proof {
        reveal_strlit("");
        reveal_strlit(" ");
        assert(""@ =~= Seq::<char>::empty());
        assert(" "@ =~= seq![' ']);
    }
    let without = replace_all(PATH_PATTERN, message, "");
    let traced = replace_all(TRACE_PATTERN, without.as_str(), "");
    let single = replace_all(SPACE_PATTERN, traced.as_str(), " ");
    proof {
        sanitized_is_clean(message@);
        if blank(message@) {
            nothing_is_left_of_blank(message@);
        }
        if plain(message@) {
            plain_has_no_paths(message@);
            plain_is_collapsed(message@);
            if message@.len() > 0 {
                assert(!is_white(message@[0]));
                assert(!is_white(message@[message@.len() - 1]));
            }
        }
    }
    let cut: Vec<char> = chars_of(trim(single.as_str()).as_str());
    if cut.len() <= 500 {
        assert(cut@.subrange(0, cut@.len() as int) =~= cut@);
        slice(&cut, 0, cut.len())
    } else {
        slice(&cut, 0, 500)
    }
}

/// A schema error that speaks of what the server produced, not of what the
/// caller sent.
pub open spec fn server_side(message: Seq<char>) -> bool {
    ||| message == "Output validation failed"@
    ||| message == "Config validation failed"@
    ||| "Output schema is invalid: "@.is_prefix_of(message)
    ||| "Config schema is invalid: "@.is_prefix_of(message)
}

/// Whether a schema error is about something the server produced rather than
/// something the caller sent. The direction at the front of the message is the
/// only signal; any other wording counts as the caller's.
pub fn is_server_side_schema_error(message: &str) -> (r: bool)
    ensures
        r == server_side(message@),
{
    str_eq(message, "Output validation failed") || str_eq(message, "Config validation failed")
        || starts_with(message, "Output schema is invalid: ") || starts_with(
        message,
        "Config schema is invalid: ",
    )
}

/// The three codes by which a policy or a person refuses a call.
pub open spec fn is_refusal(code: ErrorCode) -> bool {
    code == ErrorCode::ACLDenied || code == ErrorCode::ApprovalDenied || code
        == ErrorCode::ApprovalTimeout
}

/// Whether an error's own message reaches the caller, sanitized, or gives way
/// to a fixed text.
pub open spec fn carries_detail(code: ErrorCode, message: Seq<char>, disclose: bool) -> bool {
    match code {
        ErrorCode::ModuleNotFound | ErrorCode::GeneralInvalidInput => true,
        ErrorCode::SchemaValidationError => !server_side(message),
        ErrorCode::ACLDenied | ErrorCode::ApprovalDenied | ErrorCode::ApprovalTimeout => disclose,
        _ => false,
    }
}

/// Whether an error's own message reaches the caller, sanitized, or gives way
/// to a fixed text. Only such a message may be widened by guidance.
pub fn carries_caller_detail(error: &ModuleError, disclose_refusal_reason: bool) -> (r: bool)
    ensures
        r == carries_detail(error.code, error.message@, disclose_refusal_reason),
{
    match error.code {
        ErrorCode::ModuleNotFound | ErrorCode::GeneralInvalidInput => true,
        ErrorCode::SchemaValidationError => !is_server_side_schema_error(error.message.as_str()),
        ErrorCode::ACLDenied | ErrorCode::ApprovalDenied | ErrorCode::ApprovalTimeout => {
            disclose_refusal_reason
        },
        _ => false,
    }
}

/// What a caller is told of a refusal: the fixed text, or with `disclose` the
/// sanitized reason unless nothing is left of it.
pub open spec fn refusal_text(fixed: Seq<char>, message: Seq<char>, disclose: bool) -> Seq<char> {
    if !disclose || trimmed(sanitized(message)).len() == 0 {
        fixed
    } else {
        sanitized(message)
    }
}

/// What a caller is told of a refusal.
fn refusal_message(fixed: &str, error: &ModuleError, disclose_refusal_reason: bool) -> (r: String)
    ensures
        r@ == refusal_text(fixed@, error.message@, disclose_refusal_reason),
        disclose_refusal_reason ==> sanitizing_known(error.message@),
{
    if !disclose_refusal_reason {
        return owned(fixed);
    }
    let disclosed: String = sanitize_message(error.message.as_str());
    if trim(disclosed.as_str()).as_str().is_empty() {
        owned(fixed)
    } else {
        disclosed
    }
}

/// The fixed text of a refusal.
pub open spec fn refusal_class(code: ErrorCode) -> Seq<char> {
    match code {
        ErrorCode::ACLDenied => "Access denied"@,
        ErrorCode::ApprovalDenied => "Approval denied"@,
        _ => "Approval timed out"@,
    }
}

/// The JSON-RPC code of an error.
pub open spec fn mapped_code(code: ErrorCode, message: Seq<char>) -> int {
    match code {
        ErrorCode::ModuleNotFound => -32601,
        ErrorCode::SchemaValidationError => if server_side(message) {
            -32603
        } else {
            -32602
        },
        ErrorCode::GeneralInvalidInput => -32602,
        ErrorCode::ACLDenied => -32040,
        ErrorCode::ApprovalDenied => -32041,
        ErrorCode::ApprovalTimeout => -32042,
        _ => -32603,
    }
}

/// The JSON-RPC message of an error.
pub open spec fn mapped_message(code: ErrorCode, message: Seq<char>, disclose: bool) -> Seq<char> {
    match code {
        ErrorCode::ModuleNotFound => sanitized(message),
        ErrorCode::SchemaValidationError => if server_side(message) {
            "Internal server error"@
        } else {
            sanitized(message)
        },
        ErrorCode::GeneralInvalidInput => "Invalid input: "@ + sanitized(message),
        ErrorCode::ACLDenied => refusal_text("Access denied"@, message, disclose),
        ErrorCode::ApprovalDenied => refusal_text("Approval denied"@, message, disclose),
        ErrorCode::ApprovalTimeout => refusal_text("Approval timed out"@, message, disclose),
        ErrorCode::ModuleTimeout => "Execution timeout"@,
        ErrorCode::ExecutionCancelled => "Execution cancelled"@,
        ErrorCode::CircuitBreakerOpen
        | ErrorCode::TaskLimitExceeded => "Service temporarily unavailable"@,
        ErrorCode::CallDepthExceeded
        | ErrorCode::CircularCall
        | ErrorCode::CallFrequencyExceeded => "Safety limit exceeded"@,
        ErrorCode::ModuleDisabled => "Module is currently disabled"@,
        ErrorCode::ConfigNamespaceDuplicate
        | ErrorCode::ConfigMountError
        | ErrorCode::ConfigBindError => "Configuration error"@,
        _ => "Internal server error"@,
    }
}

/// The JSON-RPC error that an error of code `code` with text `message` becomes.
pub open spec fn mapped(code: ErrorCode, message: Seq<char>, disclose: bool) -> JsonRpcErrorV {
    JsonRpcErrorV {
        code: mapped_code(code, message),
        message: mapped_message(code, message, disclose),
    }
}

fn rpc(code: i32, message: &str) -> (r: JsonRpcError)
    ensures
        r@ == (JsonRpcErrorV { code: code as int, message: message@ }),
{
    JsonRpcError { code, message: owned(message) }
}

/// Maps module errors to JSON-RPC errors.
pub struct ErrorMapper;

impl ErrorMapper {
    /// Map an error with the default policy: a refusal is told by a fixed text.
    pub fn to_jsonrpc_error(error: &ModuleError) -> (r: JsonRpcError)
        ensures
            r@ == mapped(error.code, error.message@, false),
            carries_detail(error.code, error.message@, false) ==> sanitizing_known(
                error.message@,
            ),
    {
        Self::to_jsonrpc_error_with(error, false)
    }

    /// Map an error; with `disclose_refusal_reason` a refusal carries its own
    /// sanitized reason. The flag widens the message and leaves the code alone.
    pub fn to_jsonrpc_error_with(error: &ModuleError, disclose_refusal_reason: bool) -> (r:
        JsonRpcError)
        ensures
            r@ == mapped(error.code, error.message@, disclose_refusal_reason),
            carries_detail(error.code, error.message@, disclose_refusal_reason)
                ==> sanitizing_known(error.message@),
            is_refusal(error.code) && (!disclose_refusal_reason || blank(error.message@))
                ==> r.message@ == refusal_class(error.code),
    {
        proof {
            blank_is_trimmed_empty(Seq::empty());
        }
        match error.code {
            ErrorCode::ModuleNotFound => JsonRpcError {
                code: CODE_METHOD_NOT_FOUND,
                message: sanitize_message(error.message.as_str()),
            },
            ErrorCode::SchemaValidationError => {
                if is_server_side_schema_error(error.message.as_str()) {
                    rpc(CODE_INTERNAL_ERROR, "Internal server error")
                } else {
                    JsonRpcError {
                        code: CODE_INVALID_PARAMS,
                        message: sanitize_message(error.message.as_str()),
                    }
                }
            },
            ErrorCode::ACLDenied => JsonRpcError {
                code: CODE_ACCESS_DENIED,
                message: refusal_message("Access denied", error, disclose_refusal_reason),
            },
            ErrorCode::ApprovalDenied => JsonRpcError {
                code: CODE_APPROVAL_DENIED,
                message: refusal_message("Approval denied", error, disclose_refusal_reason),
            },
            ErrorCode::ApprovalTimeout => JsonRpcError {
                code: CODE_APPROVAL_TIMEOUT,
                message: refusal_message("Approval timed out", error, disclose_refusal_reason),
            },
            ErrorCode::ModuleTimeout => rpc(CODE_INTERNAL_ERROR, "Execution timeout"),
            ErrorCode::ExecutionCancelled => rpc(CODE_INTERNAL_ERROR, "Execution cancelled"),
            ErrorCode::CircuitBreakerOpen | ErrorCode::TaskLimitExceeded => {
                rpc(CODE_INTERNAL_ERROR, "Service temporarily unavailable")
            },
            ErrorCode::CallDepthExceeded
            | ErrorCode::CircularCall
            | ErrorCode::CallFrequencyExceeded => {
                rpc(CODE_INTERNAL_ERROR, "Safety limit exceeded")
            },
            ErrorCode::ModuleDisabled => rpc(CODE_INTERNAL_ERROR, "Module is currently disabled"),
            ErrorCode::ConfigNamespaceDuplicate
            | ErrorCode::ConfigMountError
            | ErrorCode::ConfigBindError => rpc(CODE_INTERNAL_ERROR, "Configuration error"),
            ErrorCode::GeneralInvalidInput => JsonRpcError {
                code: CODE_INVALID_PARAMS,
                message: join("Invalid input: ", sanitize_message(error.message.as_str()).as_str()),
            },
            _ => rpc(CODE_INTERNAL_ERROR, "Internal server error"),
        }
    }
}

/// The JSON form of a JSON-RPC error.
pub open spec fn rpc_error_json(e: JsonRpcErrorV) -> JsonV {
    JsonV::Object(seq![("code"@, integer_v(e.code)), ("message"@, JsonV::Str(e.message))])
}

impl JsonRpcError {
    /// The JSON form of the error.
    pub fn to_json(&self) -> (r: Json)
        ensures
            r@ == rpc_error_json(self@),
    {
        let mut m: Vec<(String, Json)> = Vec::new();
        put(&mut m, "code", integer(self.code as i64));
        put(&mut m, "message", string(self.message.as_str()));
        assert(fields(m@) =~= rpc_error_json(self@)->Object_0);
        object(m)
    }
}

/// Renders module errors for apcore's formatter registry.
pub struct A2aErrorFormatter;

impl A2aErrorFormatter {
    /// The JSON form of an error under the default policy.
    pub fn format(&self, error: &ModuleError) -> (r: Json)
        ensures
            r@ == rpc_error_json(mapped(error.code, error.message@, false)),
    {
        ErrorMapper::to_jsonrpc_error(error).to_json()
    }
}

/// Disclosure widens the message of a refusal and nothing else: the code is the
/// same under either setting, and so is every error that is no refusal.
pub proof fn disclosure_moves_only_refusal_text(code: ErrorCode, message: Seq<char>)
    ensures
        mapped(code, message, true).code == mapped(code, message, false).code,
        !is_refusal(code) ==> mapped(code, message, true) == mapped(code, message, false),
{
}

/// No module error becomes "task not found": that code is left to task ids.
pub proof fn no_error_reads_as_task_not_found(code: ErrorCode, message: Seq<char>, disclose: bool)
    ensures
        mapped(code, message, disclose).code != CODE_TASK_NOT_FOUND,
{
}

/// The three refusals, and they alone, have the three refusal codes.
pub proof fn refusals_have_their_own_codes(code: ErrorCode, message: Seq<char>, disclose: bool)
    ensures
        mapped(code, message, disclose).code == CODE_ACCESS_DENIED <==> code
            == ErrorCode::ACLDenied,
        mapped(code, message, disclose).code == CODE_APPROVAL_DENIED <==> code
            == ErrorCode::ApprovalDenied,
        mapped(code, message, disclose).code == CODE_APPROVAL_TIMEOUT <==> code
            == ErrorCode::ApprovalTimeout,
{
}

/// Where an error carries no detail, its message says nothing of the error's
/// own text: two such errors of one code read alike. Where it does, what the
/// caller reads of the text is its sanitized form.
pub proof fn detail_reaches_the_caller_only_by_policy(
    code: ErrorCode,
    message: Seq<char>,
    other: Seq<char>,
    disclose: bool,
)
    ensures
        !carries_detail(code, message, disclose) && !carries_detail(code, other, disclose)
            ==> mapped(code, message, disclose) == mapped(code, other, disclose),
        carries_detail(code, message, disclose) && !is_refusal(code) ==> mapped(
            code,
            message,
            disclose,
        ).message == sanitized(message) || mapped(code, message, disclose).message
            == "Invalid input: "@ + sanitized(message),
        carries_detail(code, message, disclose) && is_refusal(code) && trimmed(
            sanitized(message),
        ).len() > 0 ==> mapped(code, message, disclose).message == sanitized(message),
{
}

proof fn paths_leave_no_slash(s: Seq<char>)
    ensures
        !without_paths(s).contains('/'),
    decreases s.len(),
{
    after_word_shrinks(s);
    if s.len() == 0 {
    } else if path_start(s) {
        paths_leave_no_slash(after_word(s));
    } else {
        paths_leave_no_slash(s.skip(1));
        let r = seq![s[0]] + without_paths(s.skip(1));
        assert forall|i: int| 0 <= i < r.len() implies r[i] != '/' by {
            if i > 0 {
                assert(r[i] == without_paths(s.skip(1))[i - 1]);
                assert(without_paths(s.skip(1)).contains(r[i]));
            }
        }
    }
}

/// Collapsing keeps every character that is no whitespace and makes every
/// whitespace a space, of which no two are adjacent.
proof fn collapsed_shape(s: Seq<char>)
    ensures
        forall|i: int|
            0 <= i < collapsed(s).len() ==> (#[trigger] collapsed(s)[i] == ' ' || (s.contains(
                collapsed(s)[i],
            ) && !is_white(collapsed(s)[i]))),
        forall|i: int|
            0 <= i < collapsed(s).len() - 1 && #[trigger] collapsed(s)[i] == ' ' ==> collapsed(
                s,
            )[i + 1] != ' ',
        s.len() > 0 ==> collapsed(s).len() > 0 && (is_white(s.last()) <==> collapsed(s).last()
            == ' '),
    decreases s.len(),
{
    if s.len() > 0 {
        let p = s.drop_last();
        collapsed_shape(p);
        let c = collapsed(s);
        assert forall|i: int| 0 <= i < c.len() implies (#[trigger] c[i] == ' ' || (s.contains(c[i])
            && !is_white(c[i]))) by {
            if i < collapsed(p).len() {
                assert(c[i] == collapsed(p)[i]);
                if c[i] != ' ' {
                    let k = choose|k: int| 0 <= k < p.len() && p[k] == c[i];
                    assert(s[k] == c[i]);
                }
            } else {
                assert(s[s.len() - 1] == s.last());
            }
        }
        assert forall|i: int| 0 <= i < c.len() - 1 && #[trigger] c[i] == ' ' implies c[i + 1]
            != ' ' by {
            assert(c[i] == collapsed(p)[i]);
            if i + 1 < collapsed(p).len() {
                assert(c[i + 1] == collapsed(p)[i + 1]);
            } else {
                assert(collapsed(p).last() == ' ');
                assert(p.len() > 0);
                assert(p.last() == s[s.len() - 2]);
            }
        }
    }
}

proof fn trim_left_is_suffix(s: Seq<char>) -> (k: int)
    ensures
        0 <= k <= s.len(),
        trim_left(s) == s.subrange(k, s.len() as int),
    decreases s.len(),
{
    if s.len() > 0 && is_white(s[0]) {
        let k = trim_left_is_suffix(s.skip(1));
        assert(s.skip(1).subrange(k, s.skip(1).len() as int) =~= s.subrange(k + 1, s.len() as int));
        k + 1
    } else {
        assert(s.subrange(0, s.len() as int) =~= s);
        0
    }
}

proof fn trim_right_is_prefix(s: Seq<char>) -> (k: int)
    ensures
        0 <= k <= s.len(),
        trim_right(s) == s.subrange(0, k),
    decreases s.len(),
{
    if s.len() > 0 && is_white(s.last()) {
        let k = trim_right_is_prefix(s.drop_last());
        assert(s.drop_last().subrange(0, k) =~= s.subrange(0, k));
        k
    } else {
        assert(s.subrange(0, s.len() as int) =~= s);
        s.len() as int
    }
}

/// Trimming and cutting leave a contiguous piece.
proof fn cut_is_piece(s: Seq<char>) -> (b: (int, int))
    ensures
        0 <= b.0 <= b.1 <= s.len(),
        at_most(trimmed(s), 500) == s.subrange(b.0, b.1),
{
    let i = trim_left_is_suffix(s);
    let t = trim_left(s);
    let j = trim_right_is_prefix(t);
    assert(trimmed(s) =~= s.subrange(i, i + j));
    let e = if j <= 500 {
        i + j
    } else {
        i + 500
    };
    assert(at_most(trimmed(s), 500) =~= s.subrange(i, e));
    (i, e)
}

/// A word that occurs after collapsing occurred before: a word has no
/// whitespace, so no run of it was shortened.
proof fn collapsed_brings_no_word(s: Seq<char>, w: Seq<char>)
    requires
        occurs(collapsed(s), w),
        w.len() > 0,
        forall|i: int| 0 <= i < w.len() ==> !is_white(#[trigger] w[i]),
    ensures
        occurs(s, w),
    decreases s.len(),
{
    let c = collapsed(s);
    let i = choose|i: int|
        0 <= i <= c.len() - w.len() && #[trigger] c.subrange(i, i + w.len()) == w;
    if s.len() > 0 {
        let p = s.drop_last();
        if i + w.len() <= collapsed(p).len() {
            assert(collapsed(p).subrange(i, i + w.len()) =~= w) by {
                assert forall|k: int| 0 <= k < w.len() implies collapsed(p)[i + k] == w[k] by {
                    assert(c.subrange(i, i + w.len())[k] == c[i + k]);
                }
            }
            collapsed_brings_no_word(p, w);
            let q = choose|q: int|
                0 <= q <= p.len() - w.len() && #[trigger] p.subrange(q, q + w.len()) == w;
            assert(s.subrange(q, q + w.len()) =~= p.subrange(q, q + w.len()));
        } else {
            assert(i + w.len() == c.len());
            assert(c.last() == w[w.len() - 1]) by {
                assert(c.subrange(i, i + w.len())[w.len() - 1] == c[c.len() - 1]);
            }
            collapsed_shape(s);
            assert(!is_white(s.last()));
            assert forall|k: int| c.len() - w.len() <= k < c.len() implies !is_white(
                #[trigger] c[k],
            ) by {
                assert(c.subrange(i, i + w.len())[k - i] == w[k - i]);
            }
            collapsed_ends_alike(s, w.len() as int);
            assert(c.subrange(i, c.len() as int) =~= w);
            let q = s.len() - w.len();
            assert(s.subrange(q, q + w.len()) =~= w);
        }
    } else {
        assert(c.len() == 0);
    }
}

/// Where the last `n` characters after collapsing are no whitespace, they are
/// the last `n` characters before.
proof fn collapsed_ends_alike(s: Seq<char>, n: int)
    requires
        0 <= n <= collapsed(s).len(),
        forall|i: int|
            collapsed(s).len() - n <= i < collapsed(s).len() ==> !is_white(
                #[trigger] collapsed(s)[i],
            ),
    ensures
        n <= s.len(),
        s.subrange(s.len() - n, s.len() as int) == collapsed(s).subrange(
            collapsed(s).len() - n,
            collapsed(s).len() as int,
        ),
    decreases s.len(),
{
    let c = collapsed(s);
    if n == 0 {
        assert(s.subrange(s.len() as int, s.len() as int) =~= c.subrange(
            c.len() as int,
            c.len() as int,
        ));
    } else {
        collapsed_shape(s);
        assert(s.len() > 0);
        let p = s.drop_last();
        assert(!is_white(c[c.len() - 1]));
        assert(!is_white(s.last()));
        assert(c == collapsed(p).push(s.last()));
        assert forall|i: int|
            collapsed(p).len() - (n - 1) <= i < collapsed(p).len() implies !is_white(
            #[trigger] collapsed(p)[i],
        ) by {
            assert(c[i] == collapsed(p)[i]);
        }
        collapsed_ends_alike(p, n - 1);
        let a = s.subrange(s.len() - n, s.len() as int);
        let b = c.subrange(c.len() - n, c.len() as int);
        assert(a =~= p.subrange(p.len() - (n - 1), p.len() as int).push(s.last()));
        assert(b =~= collapsed(p).subrange(
            collapsed(p).len() - (n - 1),
            collapsed(p).len() as int,
        ).push(s.last()));
    }
}

proof fn sanitized_is_clean(message: Seq<char>)
    requires
        forall|i: int|
            0 <= i < without_traces(without_paths(message)).len() ==> without_paths(
                message,
            ).contains(#[trigger] without_traces(without_paths(message))[i]),
        !occurs(without_traces(without_paths(message)), "Traceback"@),
    ensures
        clean(sanitized(message)),
{
    let t = without_traces(without_paths(message));
    let c = collapsed(t);
    let r = sanitized(message);
    paths_leave_no_slash(message);
    collapsed_shape(t);
    let b = cut_is_piece(c);
    assert(forall|i: int| 0 <= i < r.len() ==> r[i] == c[b.0 + i]);
    assert forall|i: int| 0 <= i < r.len() implies r[i] != '/' by {
        let x = c[b.0 + i];
        if x == '/' {
            assert(t.contains(x));
            let k = choose|k: int| 0 <= k < t.len() && t[k] == x;
            assert(without_paths(message).contains(t[k]));
        }
    }
    assert forall|i: int| 0 <= i < r.len() - 1 && #[trigger] r[i] == ' ' implies r[i + 1] != ' ' by {
        assert(c[b.0 + i] == ' ');
        assert(c[b.0 + i + 1] != ' ');
    }
    let w = "Traceback"@;
    reveal_strlit("Traceback");
    if occurs(r, w) {
        let i = choose|i: int|
            0 <= i <= r.len() - w.len() && #[trigger] r.subrange(i, i + w.len()) == w;
        let k = b.0 + i;
        assert(c.subrange(k, k + w.len()) =~= r.subrange(i, i + w.len()));
        collapsed_brings_no_word(t, w);
    }
}

proof fn nothing_is_left_of_blank(s: Seq<char>)
    requires
        blank(s),
    ensures
        unmarked(without_paths(s)),
        at_most(trimmed(collapsed(without_paths(s))), 500).len() == 0,
{
    assert forall|i: int| 0 <= i < s.len() implies #[trigger] s[i] != '/' by {
        assert(is_white(s[i]));
    }
    plain_has_no_paths(s);
    reveal_strlit("Traceback");
    reveal_strlit("File \"");
    reveal_strlit("line ");
    holds_no_word(s, "Traceback"@);
    holds_no_word(s, "File \""@);
    holds_no_word(s, "line "@);
    collapsed_shape(s);
    let c = collapsed(s);
    assert forall|i: int| 0 <= i < c.len() implies is_white(#[trigger] c[i]) by {
        if c[i] != ' ' {
            let k = choose|k: int| 0 <= k < s.len() && s[k] == c[i];
            assert(is_white(s[k]));
        }
    }
    blank_is_trimmed_empty(c);
}

proof fn holds_no_word(s: Seq<char>, w: Seq<char>)
    requires
        blank(s),
        w.len() > 0,
        !is_white(w[0]),
    ensures
        !occurs(s, w),
{
    if occurs(s, w) {
        let i = choose|i: int|
            0 <= i <= s.len() - w.len() && #[trigger] s.subrange(i, i + w.len()) == w;
        assert(s.subrange(i, i + w.len())[0] == s[i]);
        assert(is_white(s[i]));
    }
}

proof fn plain_has_no_paths(s: Seq<char>)
    requires
        !s.contains('/'),
    ensures
        without_paths(s) == s,
    decreases s.len(),
{
    if s.len() > 0 {
        assert(s[0] != '/');
        if s.len() > 1 {
            assert(s[1] != '/');
        }
        assert forall|i: int| 0 <= i < s.skip(1).len() implies s.skip(1)[i] != '/' by {
            assert(s[i + 1] != '/');
        }
        plain_has_no_paths(s.skip(1));
        assert(seq![s[0]] + s.skip(1) =~= s);
    }
}

proof fn plain_is_collapsed(s: Seq<char>)
    requires
        spaced(s),
    ensures
        collapsed(s) == s,
    decreases s.len(),
{
    if s.len() > 0 {
        let p = s.drop_last();
        assert forall|i: int| 0 <= i < p.len() && is_white(#[trigger] p[i]) implies p[i] == ' ' && (
        i + 1 < p.len() ==> !is_white(p[i + 1])) by {
            assert(p[i] == s[i]);
        }
        plain_is_collapsed(p);
        if is_white(s.last()) {
            assert(s[s.len() - 1] == ' ');
            if s.len() > 1 {
                assert(!is_white(s[s.len() - 2])) by {
                    let k = s.len() - 2;
                    if is_white(s[k]) {
                        assert(!is_white(s[k + 1]));
                    }
                }
            }
        }
        assert(p.push(s.last()) =~= s);
    }
}

/// The code of an error tells its class: an unknown module, what the caller sent,
/// one of the three refusals, and for everything else a failure that the caller can
/// do nothing about.
pub proof fn codes_tell_the_class(code: ErrorCode, message: Seq<char>, disclose: bool)
    ensures
        mapped(code, message, disclose).code == -32601 <==> code == ErrorCode::ModuleNotFound,
        mapped(code, message, disclose).code == -32602 <==> code == ErrorCode::GeneralInvalidInput
            || (code == ErrorCode::SchemaValidationError && !server_side(message)),
        mapped(code, message, disclose).code == -32040 <==> code == ErrorCode::ACLDenied,
        mapped(code, message, disclose).code == -32041 <==> code == ErrorCode::ApprovalDenied,
        mapped(code, message, disclose).code == -32042 <==> code == ErrorCode::ApprovalTimeout,
        mapped(code, message, disclose).code == -32603 <==> code != ErrorCode::ModuleNotFound && code
            != ErrorCode::GeneralInvalidInput && !is_refusal(code) && !(code
            == ErrorCode::SchemaValidationError && !server_side(message)),
{
}

/// A failure that the caller can do nothing about is told by a fixed text that
/// names its kind and nothing of the error's own message.
pub proof fn failures_are_told_by_their_kind(code: ErrorCode, message: Seq<char>, disclose: bool)
    requires
        mapped(code, message, disclose).code == -32603,
    ensures
        ({
            let text = mapped(code, message, disclose).message;
            if code == ErrorCode::ModuleTimeout {
                text == "Execution timeout"@
            } else if code == ErrorCode::ExecutionCancelled {
                text == "Execution cancelled"@
            } else if code == ErrorCode::CircuitBreakerOpen || code
                == ErrorCode::TaskLimitExceeded {
                text == "Service temporarily unavailable"@
            } else if code == ErrorCode::CallDepthExceeded || code == ErrorCode::CircularCall || code
                == ErrorCode::CallFrequencyExceeded {
                text == "Safety limit exceeded"@
            } else if code == ErrorCode::ModuleDisabled {
                text == "Module is currently disabled"@
            } else if code == ErrorCode::ConfigNamespaceDuplicate || code
                == ErrorCode::ConfigMountError || code == ErrorCode::ConfigBindError {
                text == "Configuration error"@
            } else {
                text == "Internal server error"@
            }
        }),
{
}

/// What the caller sent wrong is told in its own words, sanitized: an unknown module
/// and a schema error as they are, any other input error behind a prefix.
pub proof fn input_errors_are_told_in_their_words(
    code: ErrorCode,
    message: Seq<char>,
    disclose: bool,
)
    ensures
        code == ErrorCode::ModuleNotFound ==> mapped(code, message, disclose).message == sanitized(
            message,
        ),
        code == ErrorCode::SchemaValidationError && !server_side(message) ==> mapped(
            code,
            message,
            disclose,
        ).message == sanitized(message),
        code == ErrorCode::GeneralInvalidInput ==> mapped(code, message, disclose).message
            == "Invalid input: "@ + sanitized(message),
{
}

/// A refusal is told by its kind, and by its own reason only where reasons are
/// disclosed and something is left of it.
pub proof fn refusals_are_told_by_their_kind(code: ErrorCode, message: Seq<char>, disclose: bool)
    requires
        code == ErrorCode::ACLDenied || code == ErrorCode::ApprovalDenied || code
            == ErrorCode::ApprovalTimeout,
    ensures
        is_refusal(code),
        ({
            let kind = if code == ErrorCode::ACLDenied {
                "Access denied"@
            } else if code == ErrorCode::ApprovalDenied {
                "Approval denied"@
            } else {
                "Approval timed out"@
            };
            &&& refusal_class(code) == kind
            &&& !disclose ==> mapped(code, message, disclose).message == kind
            &&& disclose && blank(sanitized(message)) ==> mapped(code, message, disclose).message
                == kind
            &&& disclose && !blank(sanitized(message)) ==> mapped(code, message, disclose).message
                == sanitized(message)
        }),
{
    blank_is_trimmed_empty(sanitized(message));
}

/// Only the three refusals are refusals.
pub proof fn there_are_three_refusals(code: ErrorCode)
    ensures
        is_refusal(code) <==> code == ErrorCode::ACLDenied || code == ErrorCode::ApprovalDenied
            || code == ErrorCode::ApprovalTimeout,
{
}

/// The message of an error reaches a caller where the error is of what the caller
/// sent, or where refusals are disclosed and it is one; and nowhere else.
pub proof fn detail_is_of_the_callers_making(code: ErrorCode, message: Seq<char>, disclose: bool)
    ensures
        carries_detail(code, message, disclose) <==> code == ErrorCode::ModuleNotFound || code
            == ErrorCode::GeneralInvalidInput || (code == ErrorCode::SchemaValidationError
            && !server_side(message)) || (disclose && is_refusal(code)),
{
}

/// A schema error is the server's where its message says that output or
/// configuration failed to validate, or that their schema is invalid, whatever
/// follows.
pub proof fn server_side_schema_errors_say_so(rest: Seq<char>, message: Seq<char>)
    ensures
        server_side("Output validation failed"@),
        server_side("Config validation failed"@),
        server_side("Output schema is invalid: "@ + rest),
        server_side("Config schema is invalid: "@ + rest),
        server_side(message) ==> message.len() > 6 && (message.take(6) == "Output"@ || message.take(6)
            == "Config"@),
{
    reveal_strlit("Output validation failed");
    reveal_strlit("Config validation failed");
    reveal_strlit("Output schema is invalid: ");
    reveal_strlit("Config schema is invalid: ");
    reveal_strlit("Output");
    reveal_strlit("Config");
    let a = "Output schema is invalid: "@ + rest;
    let b = "Config schema is invalid: "@ + rest;
    assert("Output schema is invalid: "@ =~= a.subrange(0, 26));
    assert("Config schema is invalid: "@ =~= b.subrange(0, 26));
    if server_side(message) {
        if "Output schema is invalid: "@.is_prefix_of(message) {
            assert forall|i: int| 0 <= i < 26 implies message[i]
                == "Output schema is invalid: "@[i] by {
                assert(message.subrange(0, 26)[i] == message[i]);
            }
            assert(message.take(6) =~= "Output"@);
        } else if "Config schema is invalid: "@.is_prefix_of(message) {
            assert forall|i: int| 0 <= i < 26 implies message[i]
                == "Config schema is invalid: "@[i] by {
                assert(message.subrange(0, 26)[i] == message[i]);
            }
            assert(message.take(6) =~= "Config"@);
        } else if message == "Output validation failed"@ {
            assert(message.take(6) =~= "Output"@);
        } else {
            assert(message.take(6) =~= "Config"@);
        }
    }
}

/// What is known of a sanitized text, in plain words: it has at most five hundred
/// characters, no slash and no `Traceback`, no whitespace but spaces, and no two of
/// those in a row.
pub proof fn sanitized_texts_are_safe_to_show(message: Seq<char>, i: int)
    requires
        sanitizing_known(message),
    ensures
        ({
            let s = sanitized(message);
            &&& s.len() <= 500
            &&& !s.contains('/')
            &&& !occurs(s, "Traceback"@)
            &&& 0 <= i < s.len() && is_white(s[i]) ==> s[i] == ' '
            &&& 0 <= i < s.len() - 1 && s[i] == ' ' ==> s[i + 1] != ' '
            &&& blank(message) ==> s.len() == 0
        }),
{
}

/// A short text without slashes, in single spaces and with none at its ends, in
/// which nothing looks like a stack trace is shown as it is.
pub proof fn harmless_texts_are_shown_as_they_are(message: Seq<char>)
    requires
        sanitizing_known(message),
        message.len() <= 500,
        !message.contains('/'),
        !occurs(message, "Traceback"@),
        !occurs(message, "File \""@),
        !occurs(message, "line "@),
        forall|i: int| 0 <= i < message.len() && is_white(#[trigger] message[i]) ==> message[i] == ' ',
        forall|i: int|
            0 <= i < message.len() - 1 && #[trigger] message[i] == ' ' ==> message[i + 1] != ' ',
        message.len() > 0 ==> message[0] != ' ' && message.last() != ' ',
    ensures
        sanitized(message) == message,
{
    assert forall|i: int| 0 <= i < message.len() && is_white(#[trigger] message[i]) implies message[i]
        == ' ' && (i + 1 < message.len() ==> !is_white(message[i + 1])) by {
        if i + 1 < message.len() && is_white(message[i + 1]) {
            assert(message[i + 1] == ' ');
        }
    }
    assert(plain(message));
}

/// Paths go, up to the next whitespace, and nothing else does: no slash is left,
/// and a text without slashes stays as it is.
pub proof fn only_paths_go(s: Seq<char>, path: Seq<char>, rest: Seq<char>)
    ensures
        !without_paths(s).contains('/'),
        !s.contains('/') ==> without_paths(s) == s,
        (forall|i: int| 0 <= i < path.len() ==> !is_white(#[trigger] path[i])) && (rest.len() == 0
            || is_white(rest[0])) ==> without_paths(seq!['/'] + path + rest) == without_paths(rest),
{
    paths_leave_no_slash(s);
    if !s.contains('/') {
        plain_has_no_paths(s);
    }
    if (forall|i: int| 0 <= i < path.len() ==> !is_white(#[trigger] path[i])) && (rest.len() == 0
        || is_white(rest[0])) {
        let t = seq!['/'] + path + rest;
        let w = seq!['/'] + path;
        assert forall|i: int| 0 <= i < w.len() implies !is_white(#[trigger] w[i]) by {
            if i > 0 {
                assert(w[i] == path[i - 1]);
            }
        }
        word_is_passed(w, rest);
        assert(t[0] == '/');
    }
}

proof fn word_is_passed(w: Seq<char>, rest: Seq<char>)
    requires
        forall|i: int| 0 <= i < w.len() ==> !is_white(#[trigger] w[i]),
        rest.len() == 0 || is_white(rest[0]),
    ensures
        after_word(w + rest) == rest,
    decreases w.len(),
{
    if w.len() > 0 {
        assert((w + rest)[0] == w[0]);
        assert((w + rest).skip(1) =~= w.skip(1) + rest);
        assert forall|i: int| 0 <= i < w.skip(1).len() implies !is_white(
            #[trigger] w.skip(1)[i],
        ) by {
            assert(w.skip(1)[i] == w[i + 1]);
        }
        word_is_passed(w.skip(1), rest);
    } else {
        assert(w + rest =~= rest);
    }
}

/// Collapsing leaves each character that is no whitespace, and one space for each
/// run of whitespace: a text in single spaces stays as it is.
pub proof fn only_runs_of_whitespace_collapse(s: Seq<char>)
    ensures
        spaced(collapsed(s)),
        spaced(s) ==> collapsed(s) == s,
        collapsed(s).len() <= s.len(),
        s.len() > 0 ==> collapsed(s).len() > 0,
    decreases s.len(),
{
    collapsed_shape(s);
    let c = collapsed(s);
    assert forall|i: int| 0 <= i < c.len() && is_white(#[trigger] c[i]) implies c[i] == ' ' && (i + 1
        < c.len() ==> !is_white(c[i + 1])) by {
        assert(c[i] == ' ' || (s.contains(c[i]) && !is_white(c[i])));
        if i + 1 < c.len() {
            assert(c[i + 1] != ' ');
            assert(c[i + 1] == ' ' || (s.contains(c[i + 1]) && !is_white(c[i + 1])));
        }
    }
    if spaced(s) {
        plain_is_collapsed(s);
    }
    if s.len() > 0 {
        only_runs_of_whitespace_collapse(s.drop_last());
    }
}

/// Collapsing goes character by character: what is no whitespace stays, whitespace
/// behind whitespace goes, and any other becomes a space.
pub proof fn whitespace_collapses_to_a_space(s: Seq<char>, c: char)
    ensures
        !is_white(c) ==> collapsed(s.push(c)) == collapsed(s).push(c),
        is_white(c) && s.len() > 0 && is_white(s.last()) ==> collapsed(s.push(c)) == collapsed(s),
        is_white(c) && !(s.len() > 0 && is_white(s.last())) ==> collapsed(s.push(c)) == collapsed(
            s,
        ).push(' '),
        collapsed(Seq::<char>::empty()).len() == 0,
{
    assert(s.push(c).drop_last() =~= s);
    if s.len() > 0 {
        assert(s.push(c)[s.len() - 1] == s.last());
    }
}

/// A text is gone over character by character: one that begins no path stays, and a
/// path below a home directory goes like any other.
pub proof fn what_is_no_path_stays(c: char, s: Seq<char>, path: Seq<char>, rest: Seq<char>)
    ensures
        c != '/' && !(c == '~' && s.len() > 0 && s[0] == '/') ==> without_paths(seq![c] + s)
            == seq![c] + without_paths(s),
        (forall|i: int| 0 <= i < path.len() ==> !is_white(#[trigger] path[i])) && (rest.len() == 0
            || is_white(rest[0])) ==> without_paths(seq!['~', '/'] + path + rest) == without_paths(
            rest,
        ),
{
    let t = seq![c] + s;
    assert(t[0] == c && t.skip(1) =~= s);
    if s.len() > 0 {
        assert(t[1] == s[0]);
    }
    if (forall|i: int| 0 <= i < path.len() ==> !is_white(#[trigger] path[i])) && (rest.len() == 0
        || is_white(rest[0])) {
        let w = seq!['~', '/'] + path;
        let all = w + rest;
        assert(all[0] == '~' && all[1] == '/');
        assert forall|i: int| 0 <= i < w.len() implies !is_white(#[trigger] w[i]) by {
            if i > 1 {
                assert(w[i] == path[i - 2]);
            }
        }
        word_is_passed(w, rest);
    }
}

/// A word occurs in a text that holds it, and in none that is shorter.
pub proof fn words_occur_where_they_stand(a: Seq<char>, w: Seq<char>, b: Seq<char>)
    ensures
        occurs(a + w + b, w),
        a.len() < w.len() ==> !occurs(a, w),
{
    let s = a + w + b;
    let at = a.len() as int;
    assert(s.subrange(at, at + w.len()) =~= w);
}

/// A long text without slashes, in single spaces and with none at its ends, in which
/// nothing looks like a stack trace is cut behind its five hundredth character.
pub proof fn long_texts_are_cut(message: Seq<char>)
    requires
        sanitizing_known(message),
        message.len() > 500,
        !message.contains('/'),
        !occurs(message, "Traceback"@),
        !occurs(message, "File \""@),
        !occurs(message, "line "@),
        forall|i: int| 0 <= i < message.len() && is_white(#[trigger] message[i]) ==> message[i] == ' ',
        forall|i: int|
            0 <= i < message.len() - 1 && #[trigger] message[i] == ' ' ==> message[i + 1] != ' ',
        message[0] != ' ' && message.last() != ' ',
    ensures
        sanitized(message) == message.take(500),
{
    assert forall|i: int| 0 <= i < message.len() && is_white(#[trigger] message[i]) implies message[i]
        == ' ' && (i + 1 < message.len() ==> !is_white(message[i + 1])) by {
        if i + 1 < message.len() && is_white(message[i + 1]) {
            assert(message[i + 1] == ' ');
        }
    }
    plain_has_no_paths(message);
    plain_is_collapsed(message);
    assert(!is_white(message[0])) by {
        if is_white(message[0]) {
            assert(message[0] == ' ');
        }
    }
    assert(!is_white(message.last())) by {
        if is_white(message[message.len() - 1]) {
            assert(message[message.len() - 1] == ' ');
        }
    }
    assert(trimmed(message) == message);
}

} // verus!
