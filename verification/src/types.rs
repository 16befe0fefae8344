//! A2A 1.0 protocol types and their wire form.
//!
//! - A part is its bare content: `{"text": …}`, `{"data": …}`, `{"url": …}` or
//!   `{"raw": …}`, with no discriminator.
//! - A task state and a role are spelled by their full names.
//! - A stream event is wrapped under `task`, `statusUpdate` or `artifactUpdate`.

use vstd::prelude::*;
use vstd::string::*;

use crate::json::{
    array, fields, items, object, put, string, Json, JsonV,
};
use crate::text::{clone_opt, opt_view, owned};

verus! {

/// Who sent a message.
#[derive(Debug, Clone, Copy, PartialEq, Eq, Structural)]
pub enum Role {
    Unspecified,
    User,
    Agent,
}

/// The lifecycle state of a task.
#[derive(Debug, Clone, Copy, PartialEq, Eq, Structural)]
pub enum TaskState {
    Submitted,
    Working,
    Completed,
    Failed,
    Canceled,
    InputRequired,
    Rejected,
}

/// The states that end a stream.
pub open spec fn terminal(s: TaskState) -> bool {
    s == TaskState::Completed || s == TaskState::Failed || s == TaskState::Canceled || s
        == TaskState::Rejected
}

/// The wire name of a state.
pub open spec fn state_name(s: TaskState) -> Seq<char> {
    match s {
        TaskState::Submitted => "TASK_STATE_SUBMITTED"@,
        TaskState::Working => "TASK_STATE_WORKING"@,
        TaskState::Completed => "TASK_STATE_COMPLETED"@,
        TaskState::Failed => "TASK_STATE_FAILED"@,
        TaskState::Canceled => "TASK_STATE_CANCELED"@,
        TaskState::InputRequired => "TASK_STATE_INPUT_REQUIRED"@,
        TaskState::Rejected => "TASK_STATE_REJECTED"@,
    }
}

/// The wire name of a role.
pub open spec fn role_name(r: Role) -> Seq<char> {
    match r {
        Role::Unspecified => "ROLE_UNSPECIFIED"@,
        Role::User => "ROLE_USER"@,
        Role::Agent => "ROLE_AGENT"@,
    }
}

impl TaskState {
    /// Whether the state ends a stream.
    pub fn is_terminal(self) -> (r: bool)
        ensures
            r == terminal(self),
    {
        matches!(
            self,
            TaskState::Completed | TaskState::Failed | TaskState::Canceled | TaskState::Rejected
        )
    }

    /// The wire name of the state.
    pub fn name(self) -> (r: &'static str)
        ensures
            r@ == state_name(self),
    {
        match self {
            TaskState::Submitted => "TASK_STATE_SUBMITTED",
            TaskState::Working => "TASK_STATE_WORKING",
            TaskState::Completed => "TASK_STATE_COMPLETED",
            TaskState::Failed => "TASK_STATE_FAILED",
            TaskState::Canceled => "TASK_STATE_CANCELED",
            TaskState::InputRequired => "TASK_STATE_INPUT_REQUIRED",
            TaskState::Rejected => "TASK_STATE_REJECTED",
        }
    }
}

impl Role {
    /// The wire name of the role.
    pub fn name(self) -> (r: &'static str)
        ensures
            r@ == role_name(self),
    {
        match self {
            Role::Unspecified => "ROLE_UNSPECIFIED",
            Role::User => "ROLE_USER",
            Role::Agent => "ROLE_AGENT",
        }
    }
}

/// One piece of content.
#[derive(Debug, PartialEq)]
pub enum Part {
    Text { text: String },
    Data { data: Json },
    FileUrl { url: String },
    FileRaw { raw: String },
}

/// What a part denotes.
#[verifier::ext_equal]
pub enum PartV {
    Text(Seq<char>),
    Data(JsonV),
    FileUrl(Seq<char>),
    FileRaw(Seq<char>),
}

impl View for Part {
    type V = PartV;

    open spec fn view(&self) -> PartV {
        match self {
            Part::Text { text } => PartV::Text(text@),
            Part::Data { data } => PartV::Data(data@),
            Part::FileUrl { url } => PartV::FileUrl(url@),
            Part::FileRaw { raw } => PartV::FileRaw(raw@),
        }
    }
}

/// What a list of parts denotes.
pub open spec fn part_views(s: Seq<Part>) -> Seq<PartV> {
    s.map_values(|p: Part| p@)
}

/// The wire form of a part.
pub open spec fn part_json(p: PartV) -> JsonV {
    match p {
        PartV::Text(t) => JsonV::Object(seq![("text"@, JsonV::Str(t))]),
        PartV::Data(d) => JsonV::Object(seq![("data"@, d)]),
        PartV::FileUrl(u) => JsonV::Object(seq![("url"@, JsonV::Str(u))]),
        PartV::FileRaw(r) => JsonV::Object(seq![("raw"@, JsonV::Str(r))]),
    }
}

impl Part {
    /// A text part.
    pub fn text(s: &str) -> (r: Part)
        ensures
            r@ == PartV::Text(s@),
    {
        Part::Text { text: owned(s) }
    }

    /// A data part.
    pub fn data(v: Json) -> (r: Part)
        ensures
            r@ == PartV::Data(v@),
    {
        Part::Data { data: v }
    }

    /// The wire form of the part.
    pub fn to_json(&self) -> (r: Json)
        ensures
            r@ == part_json(self@),
    {
        let mut m: Vec<(String, Json)> = Vec::new();
        match self {
            Part::Text { text } => put(&mut m, "text", string(text.as_str())),
            Part::Data { data } => put(&mut m, "data", data.copy()),
            Part::FileUrl { url } => put(&mut m, "url", string(url.as_str())),
            Part::FileRaw { raw } => put(&mut m, "raw", string(raw.as_str())),
        }
        assert(fields(m@) =~= part_json(self@)->Object_0);
        object(m)
    }

    /// A copy of the part.
    pub fn copy(&self) -> (r: Part)
        ensures
            r@ == self@,
    {
        match self {
            Part::Text { text } => Part::Text { text: text.clone() },
            Part::Data { data } => Part::Data { data: data.copy() },
            Part::FileUrl { url } => Part::FileUrl { url: url.clone() },
            Part::FileRaw { raw } => Part::FileRaw { raw: raw.clone() },
        }
    }
}

impl Clone for Part {
    fn clone(&self) -> (r: Self)
        ensures
            r@ == self@,
    {
        self.copy()
    }
}

/// A copy of a list of parts.
pub fn clone_parts(v: &Vec<Part>) -> (r: Vec<Part>)
    ensures
        part_views(r@) == part_views(v@),
{
    let mut out: Vec<Part> = Vec::new();
    let mut i: usize = 0;
    while i < v.len()
        invariant
            i <= v.len(),
            out.len() == i,
            forall|k: int| 0 <= k < i ==> (#[trigger] out[k])@ == v[k]@,
        decreases v.len() - i,
    {
        out.push(v[i].copy());
        i += 1;
    }
    assert(part_views(out@) =~= part_views(v@));
    out
}

/// The wire form of a list of parts.
pub open spec fn parts_json(s: Seq<PartV>) -> JsonV {
    JsonV::Array(s.map_values(|p: PartV| part_json(p)))
}

/// The wire form of a list of parts.
pub fn parts_to_json(v: &Vec<Part>) -> (r: Json)
    ensures
        r@ == parts_json(part_views(v@)),
{
    let mut out: Vec<Json> = Vec::new();
    let mut i: usize = 0;
    while i < v.len()
        invariant
            i <= v.len(),
            out.len() == i,
            forall|k: int| 0 <= k < i ==> (#[trigger] out[k])@ == part_json(v[k]@),
        decreases v.len() - i,
    {
        out.push(v[i].to_json());
        i += 1;
    }
    assert(items(out@) =~= parts_json(part_views(v@))->Array_0);
    array(out)
}

/// A message.
#[derive(Debug)]
pub struct Message {
    pub message_id: String,
    pub role: Role,
    pub parts: Vec<Part>,
    pub context_id: Option<String>,
    pub task_id: Option<String>,
    pub metadata: Option<Json>,
}

/// What a message denotes.
#[verifier::ext_equal]
pub struct MessageV {
    pub message_id: Seq<char>,
    pub role: Role,
    pub parts: Seq<PartV>,
    pub context_id: Option<Seq<char>>,
    pub task_id: Option<Seq<char>>,
    pub metadata: Option<JsonV>,
}

impl View for Message {
    type V = MessageV;

    open spec fn view(&self) -> MessageV {
        MessageV {
            message_id: self.message_id@,
            role: self.role,
            parts: part_views(self.parts@),
            context_id: opt_view(self.context_id),
            task_id: opt_view(self.task_id),
            metadata: crate::json::opt(self.metadata),
        }
    }
}

/// The member `key` when there is a value for it, nothing otherwise.
pub open spec fn opt_member(key: Seq<char>, v: Option<JsonV>) -> Seq<(Seq<char>, JsonV)> {
    match v {
        Some(x) => seq![(key, x)],
        None => seq![],
    }
}

/// An optional string as an optional JSON string.
pub open spec fn opt_text(s: Option<Seq<char>>) -> Option<JsonV> {
    match s {
        Some(x) => Some(JsonV::Str(x)),
        None => None,
    }
}

/// The wire form of a message.
pub open spec fn message_json(m: MessageV) -> JsonV {
    JsonV::Object(
        seq![
            ("messageId"@, JsonV::Str(m.message_id)),
            ("role"@, JsonV::Str(role_name(m.role))),
            ("parts"@, parts_json(m.parts)),
        ] + opt_member("contextId"@, opt_text(m.context_id)) + opt_member(
            "taskId"@,
            opt_text(m.task_id),
        ) + opt_member("metadata"@, m.metadata),
    )
}

/// Appends the member `key` when there is a value for it.
pub fn put_opt(m: &mut Vec<(String, Json)>, key: &str, value: Option<Json>)
    ensures
        fields(final(m)@) == fields(old(m)@) + opt_member(key@, crate::json::opt(value)),
{
    match value {
        Some(v) => put(m, key, v),
        None => {},
    }
    assert(fields(m@) =~= fields(old(m)@) + opt_member(key@, crate::json::opt(value)));
}

/// Appends the string member `key` when there is a string for it.
pub fn put_opt_str(m: &mut Vec<(String, Json)>, key: &str, value: &Option<String>)
    ensures
        fields(final(m)@) == fields(old(m)@) + opt_member(key@, opt_text(opt_view(*value))),
{
    match value {
        Some(s) => put(m, key, string(s.as_str())),
        None => {},
    }
    assert(fields(m@) =~= fields(old(m)@) + opt_member(key@, opt_text(opt_view(*value))));
}

/// The characters of a random UUID, hyphenated and in lower case.
pub open spec fn is_uuid_text(s: Seq<char>) -> bool {
    &&& s.len() == 36
    &&& forall|i: int|
        0 <= i < 36 ==> if i == 8 || i == 13 || i == 18 || i == 23 {
            #[trigger] s[i] == '-'
        } else if i == 14 {
            s[i] == '4'
        } else if i == 19 {
            s[i] == '8' || s[i] == '9' || s[i] == 'a' || s[i] == 'b'
        } else {
            ('0' <= s[i] && s[i] <= '9') || ('a' <= s[i] && s[i] <= 'f')
        }
}

/// A fresh random identifier.
///
/// `uuid::Uuid::new_v4` and its `to_string`: a random UUID as 36 characters,
/// lower-case hexadecimal digits with a hyphen at four fixed places, and with
/// the marks of version and variant. Which UUID comes is chance; that it is new
/// is not stated.
#[verifier::external_body]
pub(crate) fn fresh_id() -> (r: String)
    ensures
        is_uuid_text(r@),
{
    uuid::Uuid::new_v4().to_string()
}

/// A time as `2024-01-02T03:04:05.678Z`: a year of four digits or more, and
/// behind it twenty characters of a fixed layout.
pub open spec fn is_iso8601_millis(s: Seq<char>) -> bool {
    s.len() >= 24 && forall|i: int|
        s.len() - 20 <= i < s.len() ==> {
            let k = s.len() - i;
            if k == 1 {
                #[trigger] s[i] == 'Z'
            } else if k == 5 {
                s[i] == '.'
            } else if k == 8 || k == 11 {
                s[i] == ':'
            } else if k == 14 {
                s[i] == 'T'
            } else if k == 17 || k == 20 {
                s[i] == '-'
            } else {
                '0' <= s[i] && s[i] <= '9'
            }
        }
}

/// The current UTC time in ISO 8601 form, to the millisecond.
///
/// `chrono::Utc::now` and `DateTime::to_rfc3339_opts`, with milliseconds and
/// with `Z` for the offset. What time it names depends on the clock and is not
/// stated.
#[verifier::external_body]
pub fn now_iso8601() -> (r: String)
    ensures
        is_iso8601_millis(r@),
{
    chrono::Utc::now().to_rfc3339_opts(chrono::SecondsFormat::Millis, true)
}

/// A message of the agent that holds one text.
pub open spec fn agent_message(id: Seq<char>, text: Seq<char>) -> MessageV {
    MessageV {
        message_id: id,
        role: Role::Agent,
        parts: seq![PartV::Text(text)],
        context_id: None,
        task_id: None,
        metadata: None,
    }
}

impl Message {
    /// A message of the agent that holds one text, under a fresh id.
    pub fn agent_text(text: &str) -> (r: Message)
        ensures
            r@ == agent_message(r.message_id@, text@),
            is_uuid_text(r.message_id@),
    {
        Self::agent_text_as(fresh_id(), text)
    }

    /// A message of the agent that holds one text, under the given id.
    pub fn agent_text_as(message_id: String, text: &str) -> (r: Message)
        ensures
            r@ == agent_message(message_id@, text@),
            r.message_id == message_id,
    {
        let mut parts: Vec<Part> = Vec::new();
        parts.push(Part::text(text));
        let r = Message {
            message_id,
            role: Role::Agent,
            parts,
            context_id: None,
            task_id: None,
            metadata: None,
        };
        assert(r@ =~= agent_message(message_id@, text@));
        r
    }

    /// The wire form of the message.
    pub fn to_json(&self) -> (r: Json)
        ensures
            r@ == message_json(self@),
    {
        let mut m: Vec<(String, Json)> = Vec::new();
        put(&mut m, "messageId", string(self.message_id.as_str()));
        put(&mut m, "role", string(self.role.name()));
        put(&mut m, "parts", parts_to_json(&self.parts));
        put_opt_str(&mut m, "contextId", &self.context_id);
        put_opt_str(&mut m, "taskId", &self.task_id);
        put_opt(&mut m, "metadata", crate::json::clone_opt(&self.metadata));
        assert(fields(m@) =~= message_json(self@)->Object_0);
        object(m)
    }

    /// A copy of the message.
    pub fn copy(&self) -> (r: Message)
        ensures
            r@ == self@,
    {
        Message {
            message_id: self.message_id.clone(),
            role: self.role,
            parts: clone_parts(&self.parts),
            context_id: clone_opt(&self.context_id),
            task_id: clone_opt(&self.task_id),
            metadata: crate::json::clone_opt(&self.metadata),
        }
    }
}

impl Clone for Message {
    fn clone(&self) -> (r: Self)
        ensures
            r@ == self@,
    {
        self.copy()
    }
}

/// The status of a task.
#[derive(Debug)]
pub struct TaskStatus {
    pub state: TaskState,
    pub message: Option<Message>,
    pub timestamp: Option<String>,
}

/// What a status denotes.
#[verifier::ext_equal]
pub struct TaskStatusV {
    pub state: TaskState,
    pub message: Option<MessageV>,
    pub timestamp: Option<Seq<char>>,
}

impl View for TaskStatus {
    type V = TaskStatusV;

    open spec fn view(&self) -> TaskStatusV {
        TaskStatusV {
            state: self.state,
            message: match self.message {
                Some(m) => Some(m@),
                None => None,
            },
            timestamp: opt_view(self.timestamp),
        }
    }
}

/// The wire form of a status.
pub open spec fn status_json(s: TaskStatusV) -> JsonV {
    JsonV::Object(
        seq![("state"@, JsonV::Str(state_name(s.state)))] + opt_member(
            "message"@,
            match s.message {
                Some(m) => Some(message_json(m)),
                None => None,
            },
        ) + opt_member("timestamp"@, opt_text(s.timestamp)),
    )
}

/// A status that says nothing but its state and its time.
pub open spec fn bare_status(s: TaskStatusV, state: TaskState) -> bool {
    &&& s.state == state
    &&& s.message is None
    &&& s.timestamp matches Some(t) && is_iso8601_millis(t)
}

/// A status with a message of the agent that holds one text, and a time.
pub open spec fn told_status(s: TaskStatusV, state: TaskState, text: Seq<char>) -> bool {
    &&& s.state == state
    &&& s.timestamp matches Some(t) && is_iso8601_millis(t)
    &&& s.message matches Some(m) && m == agent_message(m.message_id, text) && is_uuid_text(
        m.message_id,
    )
}

impl TaskStatus {
    /// A status of now, with no message.
    pub fn new(state: TaskState) -> (r: TaskStatus)
        ensures
            bare_status(r@, state),
    {
        TaskStatus { state, message: None, timestamp: Some(now_iso8601()) }
    }

    /// A status of now, with a message.
    pub fn with_message(state: TaskState, message: Message) -> (r: TaskStatus)
        ensures
            r.state == state,
            r.message == Some(message),
            r@.timestamp matches Some(t) && is_iso8601_millis(t),
    {
        TaskStatus { state, message: Some(message), timestamp: Some(now_iso8601()) }
    }

    /// The wire form of the status.
    pub fn to_json(&self) -> (r: Json)
        ensures
            r@ == status_json(self@),
    {
        let mut m: Vec<(String, Json)> = Vec::new();
        put(&mut m, "state", string(self.state.name()));
        match &self.message {
            Some(x) => put_opt(&mut m, "message", Some(x.to_json())),
            None => put_opt(&mut m, "message", None),
        }
        put_opt_str(&mut m, "timestamp", &self.timestamp);
        assert(fields(m@) =~= status_json(self@)->Object_0);
        object(m)
    }

    /// A copy of the status.
    pub fn copy(&self) -> (r: TaskStatus)
        ensures
            r@ == self@,
    {
        TaskStatus {
            state: self.state,
            message: match &self.message {
                Some(m) => Some(m.copy()),
                None => None,
            },
            timestamp: clone_opt(&self.timestamp),
        }
    }
}

impl Clone for TaskStatus {
    fn clone(&self) -> (r: Self)
        ensures
            r@ == self@,
    {
        self.copy()
    }
}

/// A piece of a task's output.
#[derive(Debug)]
pub struct Artifact {
    pub artifact_id: String,
    pub parts: Vec<Part>,
    pub name: Option<String>,
}

/// What an artifact denotes.
#[verifier::ext_equal]
pub struct ArtifactV {
    pub artifact_id: Seq<char>,
    pub parts: Seq<PartV>,
    pub name: Option<Seq<char>>,
}

impl View for Artifact {
    type V = ArtifactV;

    open spec fn view(&self) -> ArtifactV {
        ArtifactV {
            artifact_id: self.artifact_id@,
            parts: part_views(self.parts@),
            name: opt_view(self.name),
        }
    }
}

/// The wire form of an artifact.
pub open spec fn artifact_json(a: ArtifactV) -> JsonV {
    JsonV::Object(
        seq![("artifactId"@, JsonV::Str(a.artifact_id)), ("parts"@, parts_json(a.parts))]
            + opt_member("name"@, opt_text(a.name)),
    )
}

impl Artifact {
    /// An artifact without a name.
    pub fn new(artifact_id: &str, parts: Vec<Part>) -> (r: Artifact)
        ensures
            r@ == (ArtifactV {
                artifact_id: artifact_id@,
                parts: part_views(parts@),
                name: None,
            }),
    {
        Artifact { artifact_id: owned(artifact_id), parts, name: None }
    }

    /// The wire form of the artifact.
    pub fn to_json(&self) -> (r: Json)
        ensures
            r@ == artifact_json(self@),
    {
        let mut m: Vec<(String, Json)> = Vec::new();
        put(&mut m, "artifactId", string(self.artifact_id.as_str()));
        put(&mut m, "parts", parts_to_json(&self.parts));
        put_opt_str(&mut m, "name", &self.name);
        assert(fields(m@) =~= artifact_json(self@)->Object_0);
        object(m)
    }

    /// A copy of the artifact.
    pub fn copy(&self) -> (r: Artifact)
        ensures
            r@ == self@,
    {
        Artifact {
            artifact_id: self.artifact_id.clone(),
            parts: clone_parts(&self.parts),
            name: clone_opt(&self.name),
        }
    }
}

impl Clone for Artifact {
    fn clone(&self) -> (r: Self)
        ensures
            r@ == self@,
    {
        self.copy()
    }
}

/// What a list of artifacts denotes.
pub open spec fn artifact_views(s: Seq<Artifact>) -> Seq<ArtifactV> {
    s.map_values(|a: Artifact| a@)
}

/// What a list of messages denotes.
pub open spec fn message_views(s: Seq<Message>) -> Seq<MessageV> {
    s.map_values(|m: Message| m@)
}

/// The wire form of a list of artifacts.
pub open spec fn artifacts_json(s: Seq<ArtifactV>) -> JsonV {
    JsonV::Array(s.map_values(|a: ArtifactV| artifact_json(a)))
}

/// The wire form of a list of messages.
pub open spec fn messages_json(s: Seq<MessageV>) -> JsonV {
    JsonV::Array(s.map_values(|m: MessageV| message_json(m)))
}

fn artifacts_to_json(v: &Vec<Artifact>) -> (r: Json)
    ensures
        r@ == artifacts_json(artifact_views(v@)),
{
    let mut out: Vec<Json> = Vec::new();
    let mut i: usize = 0;
    while i < v.len()
        invariant
            i <= v.len(),
            out.len() == i,
            forall|k: int| 0 <= k < i ==> (#[trigger] out[k])@ == artifact_json(v[k]@),
        decreases v.len() - i,
    {
        out.push(v[i].to_json());
        i += 1;
    }
    assert(items(out@) =~= artifacts_json(artifact_views(v@))->Array_0);
    array(out)
}

fn messages_to_json(v: &Vec<Message>) -> (r: Json)
    ensures
        r@ == messages_json(message_views(v@)),
{
    let mut out: Vec<Json> = Vec::new();
    let mut i: usize = 0;
    while i < v.len()
        invariant
            i <= v.len(),
            out.len() == i,
            forall|k: int| 0 <= k < i ==> (#[trigger] out[k])@ == message_json(v[k]@),
        decreases v.len() - i,
    {
        out.push(v[i].to_json());
        i += 1;
    }
    assert(items(out@) =~= messages_json(message_views(v@))->Array_0);
    array(out)
}

/// A task.
#[derive(Debug)]
pub struct Task {
    pub id: String,
    pub context_id: String,
    pub status: TaskStatus,
    pub artifacts: Vec<Artifact>,
    pub history: Vec<Message>,
}

/// What a task denotes.
#[verifier::ext_equal]
pub struct TaskV {
    pub id: Seq<char>,
    pub context_id: Seq<char>,
    pub status: TaskStatusV,
    pub artifacts: Seq<ArtifactV>,
    pub history: Seq<MessageV>,
}

impl View for Task {
    type V = TaskV;

    open spec fn view(&self) -> TaskV {
        TaskV {
            id: self.id@,
            context_id: self.context_id@,
            status: self.status@,
            artifacts: artifact_views(self.artifacts@),
            history: message_views(self.history@),
        }
    }
}

/// The wire form of a task.
pub open spec fn task_json(t: TaskV) -> JsonV {
    JsonV::Object(
        seq![
            ("id"@, JsonV::Str(t.id)),
            ("contextId"@, JsonV::Str(t.context_id)),
            ("status"@, status_json(t.status)),
            ("artifacts"@, artifacts_json(t.artifacts)),
            ("history"@, messages_json(t.history)),
        ],
    )
}

impl Task {
    /// The wire form of the task.
    pub fn to_json(&self) -> (r: Json)
        ensures
            r@ == task_json(self@),
    {
        let mut m: Vec<(String, Json)> = Vec::new();
        put(&mut m, "id", string(self.id.as_str()));
        put(&mut m, "contextId", string(self.context_id.as_str()));
        put(&mut m, "status", self.status.to_json());
        put(&mut m, "artifacts", artifacts_to_json(&self.artifacts));
        put(&mut m, "history", messages_to_json(&self.history));
        assert(fields(m@) =~= task_json(self@)->Object_0);
        object(m)
    }
}

/// A change of a task's status.
#[derive(Debug)]
pub struct TaskStatusUpdateEvent {
    pub task_id: String,
    pub context_id: String,
    pub status: TaskStatus,
}

/// A piece of output of a running task.
#[derive(Debug)]
pub struct TaskArtifactUpdateEvent {
    pub task_id: String,
    pub context_id: String,
    pub artifact: Artifact,
    pub append: bool,
    pub last_chunk: bool,
}

/// An event of a stream or of a push notification.
#[derive(Debug)]
pub enum StreamEvent {
    Task(Task),
    StatusUpdate(TaskStatusUpdateEvent),
    ArtifactUpdate(TaskArtifactUpdateEvent),
}

/// What an event denotes.
#[verifier::ext_equal]
pub enum EventV {
    Task(TaskV),
    Status { task_id: Seq<char>, context_id: Seq<char>, status: TaskStatusV },
    Artifact {
        task_id: Seq<char>,
        context_id: Seq<char>,
        artifact: ArtifactV,
        append: bool,
        last_chunk: bool,
    },
}

impl View for StreamEvent {
    type V = EventV;

    open spec fn view(&self) -> EventV {
        match self {
            StreamEvent::Task(t) => EventV::Task(t@),
            StreamEvent::StatusUpdate(e) => EventV::Status {
                task_id: e.task_id@,
                context_id: e.context_id@,
                status: e.status@,
            },
            StreamEvent::ArtifactUpdate(e) => EventV::Artifact {
                task_id: e.task_id@,
                context_id: e.context_id@,
                artifact: e.artifact@,
                append: e.append,
                last_chunk: e.last_chunk,
            },
        }
    }
}

/// The wire form of an event: the payload under the one key that names it.
pub open spec fn event_json(e: EventV) -> JsonV {
    match e {
        EventV::Task(t) => JsonV::Object(seq![("task"@, task_json(t))]),
        EventV::Status { task_id, context_id, status } => JsonV::Object(
            seq![
                (
                    "statusUpdate"@,
                    JsonV::Object(
                        seq![
                            ("taskId"@, JsonV::Str(task_id)),
                            ("contextId"@, JsonV::Str(context_id)),
                            ("status"@, status_json(status)),
                        ],
                    ),
                ),
            ],
        ),
        EventV::Artifact { task_id, context_id, artifact, append, last_chunk } => JsonV::Object(
            seq![
                (
                    "artifactUpdate"@,
                    JsonV::Object(
                        seq![
                            ("taskId"@, JsonV::Str(task_id)),
                            ("contextId"@, JsonV::Str(context_id)),
                            ("artifact"@, artifact_json(artifact)),
                            ("append"@, JsonV::Bool(append)),
                            ("lastChunk"@, JsonV::Bool(last_chunk)),
                        ],
                    ),
                ),
            ],
        ),
    }
}

impl StreamEvent {
    /// The wire form of the event.
    pub fn to_json(&self) -> (r: Json)
        ensures
            r@ == event_json(self@),
    {
        let mut outer: Vec<(String, Json)> = Vec::new();
        let mut m: Vec<(String, Json)> = Vec::new();
        match self {
            StreamEvent::Task(t) => {
                put(&mut outer, "task", t.to_json());
            },
            StreamEvent::StatusUpdate(e) => {
                put(&mut m, "taskId", string(e.task_id.as_str()));
                put(&mut m, "contextId", string(e.context_id.as_str()));
                put(&mut m, "status", e.status.to_json());
                assert(fields(m@) =~= seq![
                    ("taskId"@, JsonV::Str(e.task_id@)),
                    ("contextId"@, JsonV::Str(e.context_id@)),
                    ("status"@, status_json(e.status@)),
                ]);
                put(&mut outer, "statusUpdate", object(m));
            },
            StreamEvent::ArtifactUpdate(e) => {
                put(&mut m, "taskId", string(e.task_id.as_str()));
                put(&mut m, "contextId", string(e.context_id.as_str()));
                put(&mut m, "artifact", e.artifact.to_json());
                put(&mut m, "append", Json::Bool(e.append));
                put(&mut m, "lastChunk", Json::Bool(e.last_chunk));
                assert(fields(m@) =~= seq![
                    ("taskId"@, JsonV::Str(e.task_id@)),
                    ("contextId"@, JsonV::Str(e.context_id@)),
                    ("artifact"@, artifact_json(e.artifact@)),
                    ("append"@, JsonV::Bool(e.append)),
                    ("lastChunk"@, JsonV::Bool(e.last_chunk)),
                ]);
                put(&mut outer, "artifactUpdate", object(m));
            },
        }
        assert(fields(outer@) =~= event_json(self@)->Object_0);
        object(outer)
    }
}

/// A status update event.
pub fn status_event(task_id: &str, context_id: &str, status: TaskStatus) -> (r: StreamEvent)
    ensures
        r@ == (EventV::Status { task_id: task_id@, context_id: context_id@, status: status@ }),
{
    StreamEvent::StatusUpdate(
        TaskStatusUpdateEvent { task_id: owned(task_id), context_id: owned(context_id), status },
    )
}

/// An event is told by its one member: there is no `kind` and no `final` beside
/// it, nor a `final` in a status update.
pub proof fn events_are_told_by_one_member(e: EventV)
    ensures
        event_json(e) matches JsonV::Object(m) && m.len() == 1 && m[0].0 == (match e {
            EventV::Task(_) => "task"@,
            EventV::Status { .. } => "statusUpdate"@,
            EventV::Artifact { .. } => "artifactUpdate"@,
        }),
        event_json(e).get("kind"@) is None,
        event_json(e).get("final"@) is None,
        e is Status ==> event_json(e)->Object_0[0].1.get("final"@) is None,
{
    reveal_with_fuel(crate::json::member, 5);
    reveal_strlit("kind");
    reveal_strlit("final");
    reveal_strlit("task");
    reveal_strlit("statusUpdate");
    reveal_strlit("artifactUpdate");
    reveal_strlit("taskId");
    reveal_strlit("contextId");
    reveal_strlit("status");
    assert("kind"@[0] == 'k');
    assert("final"@[0] == 'f');
    assert("task"@[0] == 't');
    assert("statusUpdate"@[0] == 's');
    assert("artifactUpdate"@[0] == 'a');
    assert("taskId"@[0] == 't');
    assert("contextId"@[0] == 'c');
    assert("status"@[0] == 's');
    let m = event_json(e)->Object_0;
    assert(m.skip(1).len() == 0);
    if e is Status {
        let u = m[0].1->Object_0;
        assert(u.skip(1)[0] == u[1]);
        assert(u.skip(1).skip(1)[0] == u[2]);
        assert(u.skip(1).skip(1).skip(1).len() == 0);
    }
}

/// A task has ended exactly where it was not just submitted, is not being worked
/// on and waits for nothing.
pub proof fn tasks_end_in_four_states(s: TaskState)
    ensures
        !terminal(s) <==> s == TaskState::Submitted || s == TaskState::Working || s
            == TaskState::InputRequired,
{
}

/// States and roles go by their protocol names.
pub proof fn states_and_roles_go_by_their_names(s: TaskState, r: Role)
    ensures
        state_name(s) == (if s == TaskState::Submitted {
            "TASK_STATE_SUBMITTED"@
        } else if s == TaskState::Working {
            "TASK_STATE_WORKING"@
        } else if s == TaskState::Completed {
            "TASK_STATE_COMPLETED"@
        } else if s == TaskState::Failed {
            "TASK_STATE_FAILED"@
        } else if s == TaskState::Canceled {
            "TASK_STATE_CANCELED"@
        } else if s == TaskState::Rejected {
            "TASK_STATE_REJECTED"@
        } else {
            "TASK_STATE_INPUT_REQUIRED"@
        }),
        role_name(r) == (if r == Role::User {
            "ROLE_USER"@
        } else if r == Role::Agent {
            "ROLE_AGENT"@
        } else {
            "ROLE_UNSPECIFIED"@
        }),
{
}

/// What an agent tells with a status is one text, in its own role, bound to no
/// other task or conversation.
pub proof fn agents_tell_one_text(s: TaskStatusV, state: TaskState, text: Seq<char>)
    ensures
        told_status(s, state, text) ==> s.state == state && s.timestamp is Some && (s.message
            matches Some(m) && m.role == Role::Agent && m.parts == seq![PartV::Text(text)]
            && m.context_id is None && m.task_id is None && m.metadata is None
            && m.message_id.len() == 36),
        bare_status(s, state) ==> s.state == state && s.message is None && s.timestamp is Some,
{
}

/// A written part has one member, under the name of its kind.
pub proof fn written_parts_have_one_member(p: PartV)
    ensures
        part_json(p) matches JsonV::Object(m) && m.len() == 1,
        p matches PartV::Text(t) ==> part_json(p).text_at("text"@) == Some(t),
        p matches PartV::Data(d) ==> part_json(p).get("data"@) == Some(d),
        p matches PartV::FileUrl(u) ==> part_json(p).text_at("url"@) == Some(u),
        p matches PartV::FileRaw(r) ==> part_json(p).text_at("raw"@) == Some(r),
{
}

/// A written event carries its task and its conversation beside what it tells.
pub proof fn written_events_carry_their_fields(e: EventV)
    ensures
        e matches EventV::Task(t) ==> event_json(e).get("task"@) == Some(task_json(t)),
        e matches EventV::Status { task_id, context_id, status } ==> (event_json(e).get(
            "statusUpdate"@,
        ) matches Some(u) && u.text_at("taskId"@) == Some(task_id) && u.text_at("contextId"@)
            == Some(context_id) && u.get("status"@) == Some(status_json(status))),
        e matches EventV::Artifact { task_id, context_id, artifact, append, last_chunk } ==> (
        event_json(e).get("artifactUpdate"@) matches Some(u) && u.text_at("taskId"@) == Some(task_id)
            && u.text_at("contextId"@) == Some(context_id) && u.get("artifact"@) == Some(
            artifact_json(artifact),
        ) && u.get("append"@) == Some(JsonV::Bool(append)) && u.get("lastChunk"@) == Some(
            JsonV::Bool(last_chunk),
        )),
{
    reveal_strlit("taskId");
    reveal_strlit("contextId");
    reveal_strlit("status");
    reveal_strlit("artifact");
    reveal_strlit("append");
    reveal_strlit("lastChunk");
    assert("taskId"@.len() == 6 && "taskId"@[0] == 't');
    assert("contextId"@.len() == 9 && "contextId"@[0] == 'c');
    assert("status"@.len() == 6 && "status"@[0] == 's');
    assert("artifact"@.len() == 8);
    assert("append"@.len() == 6 && "append"@[0] == 'a');
    assert("lastChunk"@.len() == 9 && "lastChunk"@[0] == 'l');
    let m = event_json(e)->Object_0[0].1;
    match e {
        EventV::Task(_) => {},
        EventV::Status { .. } => {
            crate::json::member_at(m->Object_0, "taskId"@, 0);
            crate::json::member_at(m->Object_0, "contextId"@, 1);
            crate::json::member_at(m->Object_0, "status"@, 2);
        },
        EventV::Artifact { .. } => {
            crate::json::member_at(m->Object_0, "taskId"@, 0);
            crate::json::member_at(m->Object_0, "contextId"@, 1);
            crate::json::member_at(m->Object_0, "artifact"@, 2);
            crate::json::member_at(m->Object_0, "append"@, 3);
            crate::json::member_at(m->Object_0, "lastChunk"@, 4);
        },
    }
}

} // verus!
