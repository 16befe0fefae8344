//! What can go wrong with a call to a remote agent.

use vstd::prelude::*;
use vstd::string::*;

use crate::text::{join, opt_view, owned};
use crate::wire::{signed_decimal, signed_numeral};

verus! {

pub const CODE_TASK_NOT_FOUND: i32 = -32001;

pub const CODE_TASK_NOT_CANCELABLE: i32 = -32002;

pub const CODE_INTERNAL_ERROR: i32 = -32603;

/// Refused by an access rule.
pub const CODE_ACCESS_DENIED: i32 = -32040;

/// Refused by an approver.
pub const CODE_APPROVAL_DENIED: i32 = -32041;

/// No approver answered in time.
pub const CODE_APPROVAL_TIMEOUT: i32 = -32042;

/// What went wrong with a call to a remote agent.
#[derive(Debug)]
pub enum A2AClientError {
    /// The network, or an HTTP status that is no success.
    Connection(String),
    /// The Agent Card could not be had.
    Discovery(String),
    /// There is no such task.
    TaskNotFound { task_id: Option<String> },
    /// The task has ended.
    TaskNotCancelable { state: Option<String> },
    /// An access rule refused the call.
    AccessDenied { message: String },
    /// A person refused the call.
    ApprovalDenied { message: String },
    /// Nobody answered a request for approval; a new call may still be approved.
    ApprovalTimeout { message: String },
    /// Any other error of the server.
    Server { code: i32, message: String },
    /// The URL of the agent is no HTTP URL.
    InvalidUrl(String),
}

/// What a client error denotes.
#[verifier::ext_equal]
pub enum ClientErrorV {
    Connection(Seq<char>),
    Discovery(Seq<char>),
    TaskNotFound(Option<Seq<char>>),
    TaskNotCancelable(Option<Seq<char>>),
    AccessDenied(Seq<char>),
    ApprovalDenied(Seq<char>),
    ApprovalTimeout(Seq<char>),
    Server(int, Seq<char>),
    InvalidUrl(Seq<char>),
}

impl View for A2AClientError {
    type V = ClientErrorV;

    open spec fn view(&self) -> ClientErrorV {
        match self {
            A2AClientError::Connection(m) => ClientErrorV::Connection(m@),
            A2AClientError::Discovery(m) => ClientErrorV::Discovery(m@),
            A2AClientError::TaskNotFound { task_id } => ClientErrorV::TaskNotFound(
                opt_view(*task_id),
            ),
            A2AClientError::TaskNotCancelable { state } => ClientErrorV::TaskNotCancelable(
                opt_view(*state),
            ),
            A2AClientError::AccessDenied { message } => ClientErrorV::AccessDenied(message@),
            A2AClientError::ApprovalDenied { message } => ClientErrorV::ApprovalDenied(message@),
            A2AClientError::ApprovalTimeout { message } => ClientErrorV::ApprovalTimeout(message@),
            A2AClientError::Server { code, message } => ClientErrorV::Server(
                *code as int,
                message@,
            ),
            A2AClientError::InvalidUrl(u) => ClientErrorV::InvalidUrl(u@),
        }
    }
}

/// The error that a JSON-RPC error stands for.
pub open spec fn typed_error(code: int, message: Seq<char>) -> ClientErrorV {
    if code == -32001 {
        ClientErrorV::TaskNotFound(None)
    } else if code == -32002 {
        ClientErrorV::TaskNotCancelable(None)
    } else if code == -32040 {
        ClientErrorV::AccessDenied(message)
    } else if code == -32041 {
        ClientErrorV::ApprovalDenied(message)
    } else if code == -32042 {
        ClientErrorV::ApprovalTimeout(message)
    } else {
        ClientErrorV::Server(code, message)
    }
}

/// A policy or a person refused the call.
pub open spec fn refused(e: ClientErrorV) -> bool {
    e is AccessDenied || e is ApprovalDenied || e is ApprovalTimeout
}

/// `prefix` and, where there is one, a colon and `detail`.
pub open spec fn with_detail(prefix: Seq<char>, detail: Option<Seq<char>>) -> Seq<char> {
    match detail {
        Some(d) => prefix + ": "@ + d,
        None => prefix,
    }
}

/// What an error says.
pub open spec fn error_message(e: ClientErrorV) -> Seq<char> {
    match e {
        ClientErrorV::Connection(m) => "A2A connection error: "@ + m,
        ClientErrorV::Discovery(m) => "A2A discovery error: "@ + m,
        ClientErrorV::TaskNotFound(t) => with_detail("Task not found"@, t),
        ClientErrorV::TaskNotCancelable(s) => with_detail("Task not cancelable"@, s),
        ClientErrorV::AccessDenied(m) => "Access denied: "@ + m,
        ClientErrorV::ApprovalDenied(m) => "Approval denied: "@ + m,
        ClientErrorV::ApprovalTimeout(m) => "Approval timed out: "@ + m,
        ClientErrorV::Server(c, m) => "A2A server error ("@ + signed_numeral(c) + "): "@ + m,
        ClientErrorV::InvalidUrl(u) => "Invalid A2A agent URL: "@ + u
            + " (must be http:// or https://)"@,
    }
}

fn detailed(prefix: &str, detail: &Option<String>) -> (r: String)
    ensures
        r@ == with_detail(prefix@, opt_view(*detail)),
{
    match detail {
        Some(d) => {
            let mut out: String = join(prefix, ": ");
            out.append(d.as_str());
            out
        },
        None => owned(prefix),
    }
}

impl A2AClientError {
    /// The error that a JSON-RPC error stands for.
    pub fn from_jsonrpc(code: i32, message: &str) -> (r: A2AClientError)
        ensures
            r@ == typed_error(code as int, message@),
    {
        if code == CODE_TASK_NOT_FOUND {
            A2AClientError::TaskNotFound { task_id: None }
        } else if code == CODE_TASK_NOT_CANCELABLE {
            A2AClientError::TaskNotCancelable { state: None }
        } else if code == CODE_ACCESS_DENIED {
            A2AClientError::AccessDenied { message: owned(message) }
        } else if code == CODE_APPROVAL_DENIED {
            A2AClientError::ApprovalDenied { message: owned(message) }
        } else if code == CODE_APPROVAL_TIMEOUT {
            A2AClientError::ApprovalTimeout { message: owned(message) }
        } else {
            A2AClientError::Server { code, message: owned(message) }
        }
    }

    /// Whether a policy or a person refused the call. Trying again does not help
    /// against a refusal.
    pub fn is_governance_refusal(&self) -> (r: bool)
        ensures
            r == refused(self@),
    {
        matches!(
            self,
            A2AClientError::AccessDenied { .. }
            | A2AClientError::ApprovalDenied { .. }
            | A2AClientError::ApprovalTimeout { .. }
        )
    }

    /// What the error says.
    pub fn message(&self) -> (r: String)
        ensures
            r@ == error_message(self@),
    {
        match self {
            A2AClientError::Connection(m) => join("A2A connection error: ", m.as_str()),
            A2AClientError::Discovery(m) => join("A2A discovery error: ", m.as_str()),
            A2AClientError::TaskNotFound { task_id } => detailed("Task not found", task_id),
            A2AClientError::TaskNotCancelable { state } => detailed("Task not cancelable", state),
            A2AClientError::AccessDenied { message } => join("Access denied: ", message.as_str()),
            A2AClientError::ApprovalDenied { message } => join(
                "Approval denied: ",
                message.as_str(),
            ),
            A2AClientError::ApprovalTimeout { message } => join(
                "Approval timed out: ",
                message.as_str(),
            ),
            A2AClientError::Server { code, message } => {
                let mut out: String = join(
                    "A2A server error (",
                    signed_decimal(*code as i64).as_str(),
                );
                out.append("): ");
                out.append(message.as_str());
                out
            },
            A2AClientError::InvalidUrl(u) => {
                let mut out: String = join("Invalid A2A agent URL: ", u.as_str());
                out.append(" (must be http:// or https://)");
                out
            },
        }
    }
}

/// What a call to a remote agent ends in.
pub type ClientResult<T> = Result<T, A2AClientError>;

/// The refusals that a server tells apart are told apart by its client, and no
/// other code reads as a refusal.
pub proof fn refusals_are_recognized(
    code: crate::adapters::errors::ErrorCode,
    message: Seq<char>,
    disclose: bool,
)
    ensures
        ({
            let sent = crate::adapters::errors::mapped(code, message, disclose);
            refused(typed_error(sent.code, sent.message))
                <==> crate::adapters::errors::is_refusal(code)
        }),
        ({
            let sent = crate::adapters::errors::mapped(code, message, disclose);
            typed_error(sent.code, sent.message) !is TaskNotFound
        }),
{
}

/// Each error of the protocol is known by its code, and keeps what it says; any
/// other is an error of the server, with its code and its text.
pub proof fn errors_are_known_by_their_codes(code: int, message: Seq<char>)
    ensures
        typed_error(code, message) is TaskNotFound <==> code == -32001,
        typed_error(code, message) is TaskNotCancelable <==> code == -32002,
        typed_error(code, message) == ClientErrorV::AccessDenied(message) <==> code == -32040,
        typed_error(code, message) == ClientErrorV::ApprovalDenied(message) <==> code == -32041,
        typed_error(code, message) == ClientErrorV::ApprovalTimeout(message) <==> code == -32042,
        code != -32001 && code != -32002 && code != -32040 && code != -32041 && code != -32042
            ==> typed_error(code, message) == ClientErrorV::Server(code, message),
        code == -32001 ==> typed_error(code, message) == ClientErrorV::TaskNotFound(None),
        code == -32002 ==> typed_error(code, message) == ClientErrorV::TaskNotCancelable(None),
{
}

/// Of all errors of a client, the refusals are those of access and of approval.
pub proof fn refusals_are_of_access_or_approval(e: ClientErrorV)
    ensures
        refused(e) <==> (e is AccessDenied || e is ApprovalDenied || e is ApprovalTimeout),
        e is Connection || e is Discovery || e is TaskNotFound || e is TaskNotCancelable || e is Server
            || e is InvalidUrl ==> !refused(e),
{
}

/// An error is told by its kind, and then by what it is about.
pub proof fn client_errors_are_told_by_their_kind(e: ClientErrorV)
    ensures
        e matches ClientErrorV::Connection(m) ==> error_message(e) == "A2A connection error: "@ + m,
        e matches ClientErrorV::Discovery(m) ==> error_message(e) == "A2A discovery error: "@ + m,
        e matches ClientErrorV::TaskNotFound(Some(t)) ==> error_message(e) == "Task not found"@
            + ": "@ + t,
        e == ClientErrorV::TaskNotFound(None) ==> error_message(e) == "Task not found"@,
        e matches ClientErrorV::TaskNotCancelable(Some(s)) ==> error_message(e)
            == "Task not cancelable"@ + ": "@ + s,
        e == ClientErrorV::TaskNotCancelable(None) ==> error_message(e) == "Task not cancelable"@,
        e matches ClientErrorV::AccessDenied(m) ==> error_message(e) == "Access denied: "@ + m,
        e matches ClientErrorV::ApprovalDenied(m) ==> error_message(e) == "Approval denied: "@ + m,
        e matches ClientErrorV::ApprovalTimeout(m) ==> error_message(e) == "Approval timed out: "@
            + m,
        e matches ClientErrorV::Server(c, m) ==> error_message(e) == "A2A server error ("@
            + signed_numeral(c) + "): "@ + m,
        e matches ClientErrorV::InvalidUrl(u) ==> error_message(e) == "Invalid A2A agent URL: "@ + u
            + " (must be http:// or https://)"@,
{
}

} // verus!
