//! `message/stream`: which events a stream carries, and in which order.
//!
//! A stream opens with the submitted task. A skill that is not known ends it at
//! once. Otherwise the task is working, each chunk of the module's output is an
//! artifact update, an empty artifact marks the last chunk, and the status in
//! which the task ends closes the stream. An error skips the marker.

use vstd::prelude::*;
use vstd::string::*;

use crate::adapters::errors::{carries_detail, JsonRpcError, ModuleError};
use crate::adapters::parts::{output_artifact, PartConverter};
use crate::json::{fields, Json, JsonV};
use crate::server::handlers::{
    error_state, error_to_status, error_words, fail_task, outcome_is, parsed_request, parsed_view,
    status_says, texts_known, unknown_skill_text, AppState, Outcome, ParseFailure, ParsedRequest,
    ParsedV,
};
use crate::text::{join, opt_view, owned, views};
use crate::types::{
    is_uuid_text, part_views, status_event, terminal, Artifact, ArtifactV, EventV, Part, PartV,
    StreamEvent, Task, TaskArtifactUpdateEvent, TaskState, TaskStatus,
};

verus! {

/// What an event says, but for its time and the id of its message.
#[verifier::ext_equal]
pub enum ShapeV {
    Status(TaskState, Option<Seq<char>>),
    Artifact { artifact: ArtifactV, append: bool, last_chunk: bool },
}

/// An event of a task says what a shape says.
pub open spec fn has_shape(
    e: EventV,
    task_id: Seq<char>,
    context_id: Seq<char>,
    shape: ShapeV,
) -> bool {
    match shape {
        ShapeV::Status(state, text) => e matches EventV::Status {
            task_id: t,
            context_id: c,
            status,
        } && t == task_id && c == context_id && status_says(status, state, text),
        ShapeV::Artifact { artifact, append, last_chunk } => e == (EventV::Artifact {
            task_id,
            context_id,
            artifact,
            append,
            last_chunk,
        }),
    }
}

/// Events of a task say, one by one, what shapes say.
pub open spec fn have_shapes(
    events: Seq<EventV>,
    task_id: Seq<char>,
    context_id: Seq<char>,
    shapes: Seq<ShapeV>,
) -> bool {
    events.len() == shapes.len() && forall|i: int|
        0 <= i < events.len() ==> has_shape(#[trigger] events[i], task_id, context_id, shapes[i])
}

/// What a list of events denotes.
pub open spec fn event_views(s: Seq<StreamEvent>) -> Seq<EventV> {
    s.map_values(|e: StreamEvent| e@)
}

/// How far a stream has come.
#[derive(Debug, Clone, Copy, PartialEq, Eq, Structural)]
pub enum Phase {
    /// Nothing was sent.
    Fresh,
    /// The module is running.
    Running,
    /// The stream has ended.
    Ended,
}

/// Events to send, and the end of the stream where it has come: the task is
/// stored and its webhook told before the event of the end is sent.
#[derive(Debug)]
pub struct StreamStep {
    pub events: Vec<StreamEvent>,
    pub end: Option<Outcome>,
}

impl StreamStep {
    /// Everything that the step sends, in order.
    pub open spec fn sent(&self) -> Seq<EventV> {
        match self.end {
            Some(o) => event_views(self.events@).push(o.event@),
            None => event_views(self.events@),
        }
    }
}

/// The end of a stream: an empty task with the status that its event tells.
pub open spec fn ends_task(
    o: Outcome,
    task_id: Seq<char>,
    context_id: Seq<char>,
    state: TaskState,
    text: Option<Seq<char>>,
) -> bool {
    outcome_is(o, task_id, context_id, Seq::empty(), Seq::empty(), state, text)
}

/// A stream.
#[derive(Debug)]
pub struct StreamSession {
    task_id: String,
    context_id: String,
    skill_id: String,
    skill_known: bool,
    disclose_refusal_reason: bool,
    converter: PartConverter,
    any_chunk: bool,
    phase: Phase,
}

/// What a stream denotes.
#[verifier::ext_equal]
pub struct SessionV {
    pub task_id: Seq<char>,
    pub context_id: Seq<char>,
    pub skill_id: Seq<char>,
    pub skill_known: bool,
    pub disclose: bool,
    pub any_chunk: bool,
    pub phase: Phase,
}

impl View for StreamSession {
    type V = SessionV;

    closed spec fn view(&self) -> SessionV {
        SessionV {
            task_id: self.task_id@,
            context_id: self.context_id@,
            skill_id: self.skill_id@,
            skill_known: self.skill_known,
            disclose: self.disclose_refusal_reason,
            any_chunk: self.any_chunk,
            phase: self.phase,
        }
    }
}

/// What a stream opens with.
pub open spec fn opening(s: SessionV) -> Seq<ShapeV> {
    if s.phase != Phase::Fresh {
        seq![]
    } else if s.skill_known {
        seq![
            ShapeV::Status(TaskState::Submitted, None),
            ShapeV::Status(TaskState::Working, None),
        ]
    } else {
        seq![
            ShapeV::Status(TaskState::Submitted, None),
            ShapeV::Status(TaskState::Failed, Some(unknown_skill_text(s.skill_id))),
        ]
    }
}

/// A stream that was opened.
pub open spec fn opened(s: SessionV) -> SessionV {
    if s.phase != Phase::Fresh {
        s
    } else if s.skill_known {
        SessionV { phase: Phase::Running, ..s }
    } else {
        SessionV { phase: Phase::Ended, ..s }
    }
}

/// What is sent for a chunk of output.
pub open spec fn chunk_shape(s: SessionV, chunk: JsonV) -> ShapeV {
    ShapeV::Artifact {
        artifact: output_artifact(chunk, s.task_id),
        append: s.any_chunk,
        last_chunk: false,
    }
}

/// The empty artifact that marks the last chunk.
pub open spec fn marker_shape(s: SessionV) -> ShapeV {
    ShapeV::Artifact {
        artifact: ArtifactV { artifact_id: "art-"@ + s.task_id, parts: seq![], name: None },
        append: s.any_chunk,
        last_chunk: true,
    }
}

/// What a stream closes with, after the module has ended.
pub open spec fn closing(
    s: SessionV,
    error: Option<(TaskState, Seq<char>)>,
) -> Seq<ShapeV> {
    if s.phase != Phase::Running {
        seq![]
    } else {
        match error {
            None => seq![marker_shape(s), ShapeV::Status(TaskState::Completed, None)],
            Some((state, text)) => seq![ShapeV::Status(state, Some(text))],
        }
    }
}

/// A stream that was closed.
pub open spec fn closed_stream(s: SessionV) -> SessionV {
    if s.phase != Phase::Running {
        s
    } else {
        SessionV { phase: Phase::Ended, ..s }
    }
}

/// The state and the text in which an error leaves a task.
pub open spec fn error_end(e: ModuleError, disclose: bool) -> (TaskState, Seq<char>) {
    (error_state(e.code), error_words(e.code, e.message@, opt_view(e.ai_guidance), disclose))
}

/// The error that ended a module's run, where there was one.
pub open spec fn error_end_of(e: Option<ModuleError>, disclose: bool) -> Option<
    (TaskState, Seq<char>),
> {
    match e {
        Some(x) => Some(error_end(x, disclose)),
        None => None,
    }
}

fn plain_status(task_id: &str, context_id: &str, state: TaskState) -> (r: StreamEvent)
    ensures
        has_shape(r@, task_id@, context_id@, ShapeV::Status(state, None)),
{
    status_event(task_id, context_id, TaskStatus::new(state))
}

fn end_with(
    task_id: &str,
    context_id: &str,
    status: TaskStatus,
    Ghost(state): Ghost<TaskState>,
    Ghost(text): Ghost<Option<Seq<char>>>,
) -> (r: Outcome)
    requires
        status_says(status@, state, text),
    ensures
        ends_task(r, task_id@, context_id@, state, text),
{
    let event: StreamEvent = status_event(task_id, context_id, status.copy());
    let task = Task {
        id: owned(task_id),
        context_id: owned(context_id),
        status,
        artifacts: Vec::new(),
        history: Vec::new(),
    };
    assert(task@.artifacts =~= Seq::empty());
    assert(task@.history =~= Seq::empty());
    Outcome { task, event }
}

impl StreamSession {
    /// A stream of which nothing was sent.
    pub fn new(
        request: &ParsedRequest,
        skill_known: bool,
        disclose_refusal_reason: bool,
        converter: PartConverter,
    ) -> (r: StreamSession)
        ensures
            r@ == (SessionV {
                task_id: request.task_id@,
                context_id: request.context_id@,
                skill_id: request.skill_id@,
                skill_known,
                disclose: disclose_refusal_reason,
                any_chunk: false,
                phase: Phase::Fresh,
            }),
    {
        StreamSession {
            task_id: request.task_id.clone(),
            context_id: request.context_id.clone(),
            skill_id: request.skill_id.clone(),
            skill_known,
            disclose_refusal_reason,
            converter,
            any_chunk: false,
            phase: Phase::Fresh,
        }
    }

    /// How far the stream has come.
    pub fn phase(&self) -> (r: Phase)
        ensures
            r == self@.phase,
    {
        self.phase
    }

    /// Open the stream.
    pub fn start(&mut self) -> (r: StreamStep)
        ensures
            final(self)@ == opened(old(self)@),
            have_shapes(r.sent(), old(self)@.task_id, old(self)@.context_id, opening(old(self)@)),
            r.end is Some <==> old(self)@.phase == Phase::Fresh && !old(self)@.skill_known,
            r.end matches Some(o) ==> ends_task(
                o,
                old(self)@.task_id,
                old(self)@.context_id,
                TaskState::Failed,
                Some(unknown_skill_text(old(self)@.skill_id)),
            ),
    {
        let mut events: Vec<StreamEvent> = Vec::new();
        if self.phase != Phase::Fresh {
            let r = StreamStep { events, end: None };
            assert(r.sent() =~= Seq::empty());
            return r;
        }
        events.push(
            plain_status(self.task_id.as_str(), self.context_id.as_str(), TaskState::Submitted),
        );
        if self.skill_known {
            events.push(
                plain_status(self.task_id.as_str(), self.context_id.as_str(), TaskState::Working),
            );
            self.phase = Phase::Running;
            StreamStep { events, end: None }
        } else {
            let end: Outcome = fail_task(
                self.task_id.as_str(),
                self.context_id.as_str(),
                join("Skill not found: ", self.skill_id.as_str()).as_str(),
            );
            self.phase = Phase::Ended;
            let r = StreamStep { events, end: Some(end) };
            assert(r.sent()[1] == end.event@);
            r
        }
    }

    /// What is sent for a chunk of the module's output; nothing where the module
    /// is not running.
    pub fn chunk(&mut self, chunk: &Json) -> (r: Option<StreamEvent>)
        ensures
            r is Some <==> old(self)@.phase == Phase::Running,
            r matches Some(e) ==> has_shape(
                e@,
                old(self)@.task_id,
                old(self)@.context_id,
                chunk_shape(old(self)@, chunk@),
            ) && final(self)@ == (SessionV { any_chunk: true, ..old(self)@ }),
            r is None ==> final(self)@ == old(self)@,
    {
        if self.phase != Phase::Running {
            return None;
        }
        let append: bool = self.any_chunk;
        self.any_chunk = true;
        Some(
            StreamEvent::ArtifactUpdate(
                TaskArtifactUpdateEvent {
                    task_id: self.task_id.clone(),
                    context_id: self.context_id.clone(),
                    artifact: self.converter.output_to_parts(chunk, self.task_id.as_str()),
                    append,
                    last_chunk: false,
                },
            ),
        )
    }

    /// Close the stream after the module has ended, in an error or not.
    pub fn finish(&mut self, error: Option<ModuleError>) -> (r: StreamStep)
        ensures
            final(self)@ == closed_stream(old(self)@),
            have_shapes(
                r.sent(),
                old(self)@.task_id,
                old(self)@.context_id,
                closing(old(self)@, error_end_of(error, old(self)@.disclose)),
            ),
            r.end is Some <==> old(self)@.phase == Phase::Running,
            r.end matches Some(o) ==> (match error_end_of(error, old(self)@.disclose) {
                None => ends_task(
                    o,
                    old(self)@.task_id,
                    old(self)@.context_id,
                    TaskState::Completed,
                    None,
                ),
                Some((state, text)) => ends_task(
                    o,
                    old(self)@.task_id,
                    old(self)@.context_id,
                    state,
                    Some(text),
                ),
            }),
            old(self)@.phase == Phase::Running ==> (error matches Some(e) ==> (carries_detail(
                e.code,
                e.message@,
                old(self)@.disclose,
            ) ==> texts_known(e))),
    {
        let mut events: Vec<StreamEvent> = Vec::new();
        if self.phase != Phase::Running {
            let r = StreamStep { events, end: None };
            assert(r.sent() =~= Seq::empty());
            return r;
        }
        self.phase = Phase::Ended;
        match error {
            None => {
                let parts: Vec<Part> = Vec::new();
                assert(part_views(parts@) =~= seq![]);
                events.push(
                    StreamEvent::ArtifactUpdate(
                        TaskArtifactUpdateEvent {
                            task_id: self.task_id.clone(),
                            context_id: self.context_id.clone(),
                            artifact: Artifact::new(
                                join("art-", self.task_id.as_str()).as_str(),
                                parts,
                            ),
                            append: self.any_chunk,
                            last_chunk: true,
                        },
                    ),
                );
                let end: Outcome = end_with(
                    self.task_id.as_str(),
                    self.context_id.as_str(),
                    TaskStatus::new(TaskState::Completed),
                    Ghost(TaskState::Completed),
                    Ghost(None),
                );
                let r = StreamStep { events, end: Some(end) };
                assert(r.sent()[1] == end.event@);
                r
            },
            Some(e) => {
                let disclose: bool = self.disclose_refusal_reason;
                let end: Outcome = end_with(
                    self.task_id.as_str(),
                    self.context_id.as_str(),
                    error_to_status(&e, disclose),
                    Ghost(error_end(e, disclose).0),
                    Ghost(Some(error_end(e, disclose).1)),
                );
                let r = StreamStep { events, end: Some(end) };
                assert(r.sent()[0] == end.event@);
                r
            },
        }
    }
}

/// What `message/stream` does first.
#[derive(Debug)]
pub enum StreamStart {
    /// It ends in an error, and there is no stream.
    Refuse(JsonRpcError),
    /// The stream tells of a task that has failed.
    Fail(StreamStep),
    /// The stream is opened and, where the skill is known, the skill is run.
    Run { request: ParsedRequest, session: StreamSession },
}

/// The stream of a task that failed before it was run: submitted, then failed.
pub fn failed_task_stream(task_id: &str, context_id: &str, message: &str) -> (r: StreamStep)
    ensures
        have_shapes(
            r.sent(),
            task_id@,
            context_id@,
            seq![
                ShapeV::Status(TaskState::Submitted, None),
                ShapeV::Status(TaskState::Failed, Some(message@)),
            ],
        ),
        r.end matches Some(o) && ends_task(
            o,
            task_id@,
            context_id@,
            TaskState::Failed,
            Some(message@),
        ),
{
    let mut events: Vec<StreamEvent> = Vec::new();
    events.push(plain_status(task_id, context_id, TaskState::Submitted));
    let end: Outcome = fail_task(task_id, context_id, message);
    let r = StreamStep { events, end: Some(end) };
    assert(r.sent()[1] == end.event@);
    r
}

/// What `message/stream` does first, for a request that was read.
pub open spec fn stream_starts(
    s: StreamStart,
    p: ParsedV,
    skills: Seq<Seq<char>>,
    disclose: bool,
) -> bool {
    match p {
        ParsedV::Rpc(e) => s matches StreamStart::Refuse(x) && x@ == e,
        ParsedV::Failed { task_id, context_id, message } => s matches StreamStart::Fail(step)
            && have_shapes(
            step.sent(),
            task_id,
            context_id,
            seq![
                ShapeV::Status(TaskState::Submitted, None),
                ShapeV::Status(TaskState::Failed, Some(message)),
            ],
        ) && (step.end matches Some(o) && ends_task(
            o,
            task_id,
            context_id,
            TaskState::Failed,
            Some(message),
        )),
        ParsedV::Run { skill_id, task_id, context_id, inputs } => s matches StreamStart::Run {
            request,
            session,
        } && parsed_view(Ok(request)) == p && session@ == (SessionV {
            task_id,
            context_id,
            skill_id,
            skill_known: skills.contains(skill_id),
            disclose,
            any_chunk: false,
            phase: Phase::Fresh,
        }),
    }
}

impl AppState {
    /// What `message/stream` does first.
    pub fn begin_stream(&self, params: &Json) -> (r: StreamStart)
        ensures
            exists|task_id: Seq<char>|
                is_uuid_text(task_id) && stream_starts(
                    r,
                    #[trigger] parsed_request(params@, fields(self.input_schemas@), task_id),
                    views(self.skill_ids@),
                    self.executor.discloses(),
                ),
    {
        let p = self.parse_request(params);
        self.start_stream(p)
    }

    /// What `message/stream` does first, for a request that was read.
    pub fn start_stream(&self, parsed: Result<ParsedRequest, ParseFailure>) -> (r: StreamStart)
        ensures
            stream_starts(
                r,
                parsed_view(parsed),
                views(self.skill_ids@),
                self.executor.discloses(),
            ),
    {
        match parsed {
            Err(ParseFailure::Rpc(e)) => StreamStart::Refuse(e),
            Err(ParseFailure::Task { task_id, context_id, message }) => StreamStart::Fail(
                failed_task_stream(task_id.as_str(), context_id.as_str(), message.as_str()),
            ),
            Ok(request) => {
                let known: bool = self.knows(request.skill_id.as_str());
                let session = StreamSession::new(
                    &request,
                    known,
                    self.executor.disclose_refusal_reason(),
                    *self.executor.part_converter(),
                );
                StreamStart::Run { request, session }
            },
        }
    }
}

/// What is sent while a module runs, for its chunks in order, and the stream
/// after them.
pub open spec fn streamed(s: SessionV, chunks: Seq<JsonV>) -> (SessionV, Seq<ShapeV>)
    decreases chunks.len(),
{
    if chunks.len() == 0 {
        (s, seq![])
    } else {
        let (t, sent) = streamed(s, chunks.drop_last());
        (SessionV { any_chunk: true, ..t }, sent.push(chunk_shape(t, chunks.last())))
    }
}

/// Everything a stream carries, from its opening to its close.
pub open spec fn transcript(
    s: SessionV,
    chunks: Seq<JsonV>,
    error: Option<(TaskState, Seq<char>)>,
) -> Seq<ShapeV> {
    if !s.skill_known {
        opening(s)
    } else {
        opening(s) + streamed(opened(s), chunks).1 + closing(streamed(opened(s), chunks).0, error)
    }
}

proof fn streamed_shapes(s: SessionV, chunks: Seq<JsonV>)
    requires
        !s.any_chunk,
    ensures
        streamed(s, chunks).0 == (SessionV { any_chunk: chunks.len() > 0, ..s }),
        streamed(s, chunks).1.len() == chunks.len(),
        forall|i: int|
            0 <= i < chunks.len() ==> #[trigger] streamed(s, chunks).1[i] == (ShapeV::Artifact {
                artifact: output_artifact(chunks[i], s.task_id),
                append: i > 0,
                last_chunk: false,
            }),
    decreases chunks.len(),
{
    if chunks.len() > 0 {
        streamed_shapes(s, chunks.drop_last());
    }
}

/// The stream of a known skill: submitted, working, one artifact update for each
/// chunk, of which all but the first append, an empty marker of the last chunk
/// unless there was an error, and the status in which the task ends.
pub proof fn stream_has_its_order(
    s: SessionV,
    chunks: Seq<JsonV>,
    error: Option<(TaskState, Seq<char>)>,
)
    requires
        s.phase == Phase::Fresh,
        s.skill_known,
        !s.any_chunk,
    ensures
        ({
            let t = transcript(s, chunks, error);
            let n = chunks.len() as int;
            &&& t[0] == ShapeV::Status(TaskState::Submitted, None)
            &&& t[1] == ShapeV::Status(TaskState::Working, None)
            &&& forall|i: int|
                0 <= i < n ==> #[trigger] t[2 + i] == (ShapeV::Artifact {
                    artifact: output_artifact(chunks[i], s.task_id),
                    append: i > 0,
                    last_chunk: false,
                })
            &&& match error {
                None => t.len() == n + 4 && t[n + 2] == (ShapeV::Artifact {
                    artifact: ArtifactV {
                        artifact_id: "art-"@ + s.task_id,
                        parts: seq![],
                        name: None,
                    },
                    append: n > 0,
                    last_chunk: true,
                }) && t[n + 3] == ShapeV::Status(TaskState::Completed, None),
                Some((state, text)) => t.len() == n + 3 && t[n + 2] == ShapeV::Status(
                    state,
                    Some(text),
                ),
            }
        }),
{
    streamed_shapes(opened(s), chunks);
    let t = transcript(s, chunks, error);
    assert forall|i: int| 0 <= i < chunks.len() implies #[trigger] t[2 + i] == (ShapeV::Artifact {
        artifact: output_artifact(chunks[i], s.task_id),
        append: i > 0,
        last_chunk: false,
    }) by {
        assert(t[2 + i] == streamed(opened(s), chunks).1[i]);
    }
}

/// A status that ends a stream.
pub open spec fn ends_stream(shape: ShapeV) -> bool {
    shape matches ShapeV::Status(state, _) && terminal(state)
}

/// Nothing follows a status that ends a stream: no event but the last has one.
pub proof fn nothing_follows_the_end(
    s: SessionV,
    chunks: Seq<JsonV>,
    error: Option<(TaskState, Seq<char>)>,
    i: int,
)
    requires
        s.phase == Phase::Fresh,
        !s.any_chunk,
        0 <= i < transcript(s, chunks, error).len() - 1,
    ensures
        !ends_stream(transcript(s, chunks, error)[i]),
{
    if s.skill_known {
        stream_has_its_order(s, chunks, error);
        let t = transcript(s, chunks, error);
        if i >= 2 && i < chunks.len() + 2 {
            assert(t[2 + (i - 2)] == t[i]);
        }
    }
}

/// A module that ends without an error, or in one that is not a pending
/// approval, ends its stream.
pub proof fn stream_ends(s: SessionV, chunks: Seq<JsonV>, error: Option<ModuleError>)
    requires
        s.phase == Phase::Fresh,
        !s.any_chunk,
        error matches Some(e) ==> e.code != crate::adapters::errors::ErrorCode::ApprovalPending,
    ensures
        ends_stream(transcript(s, chunks, error_end_of(error, s.disclose)).last()),
{
    if s.skill_known {
        stream_has_its_order(s, chunks, error_end_of(error, s.disclose));
        if let Some(e) = error {
            crate::server::handlers::error_states_are_told_apart(e.code);
        }
    }
}

/// Every event of a stream is of its task and of its conversation.
pub proof fn events_are_of_one_task(
    e: EventV,
    task_id: Seq<char>,
    context_id: Seq<char>,
    shape: ShapeV,
)
    requires
        has_shape(e, task_id, context_id, shape),
    ensures
        match e {
            EventV::Status { task_id: t, context_id: c, status } => t == task_id && c == context_id
                && (shape matches ShapeV::Status(state, text) && status.state == state && (text
                is None ==> status.message is None) && (text matches Some(x) ==> (status.message
                matches Some(m) && m.parts == seq![PartV::Text(x)]))),
            EventV::Artifact { task_id: t, context_id: c, artifact, append, last_chunk } => t
                == task_id && c == context_id && shape == (ShapeV::Artifact {
                artifact,
                append,
                last_chunk,
            }),
            EventV::Task(_) => false,
        },
{
}

/// What `message/stream` starts with belongs to the request: the stream is of its
/// task, its conversation and its skill, knows the skill exactly where it is among
/// those of the server, and of it nothing was sent; a request that cannot be run is
/// a stream of a task that was submitted and has failed.
pub proof fn streams_start_what_was_asked(
    s: StreamStart,
    p: ParsedV,
    skills: Seq<Seq<char>>,
    disclose: bool,
)
    requires
        stream_starts(s, p, skills, disclose),
    ensures
        s is Refuse <==> p is Rpc,
        s matches StreamStart::Refuse(x) ==> p == ParsedV::Rpc(x@),
        s is Run <==> p is Run,
        s matches StreamStart::Run { request, session } ==> p == (ParsedV::Run {
            skill_id: session@.skill_id,
            task_id: session@.task_id,
            context_id: session@.context_id,
            inputs: request.inputs@,
        }) && (session@.skill_known <==> skills.contains(session@.skill_id)) && session@.disclose
            == disclose && !session@.any_chunk && session@.phase == Phase::Fresh
            && request.skill_id@ == session@.skill_id,
        s matches StreamStart::Fail(step) ==> (p matches ParsedV::Failed {
            task_id,
            context_id,
            message,
        } && step.sent().len() == 2 && (step.sent()[0] matches EventV::Status {
            task_id: t,
            context_id: c,
            status,
        } && t == task_id && c == context_id && status.state == TaskState::Submitted) && (
        step.sent()[1] matches EventV::Status { task_id: t, context_id: c, status } && t == task_id
            && c == context_id && status.state == TaskState::Failed && (status.message matches Some(
            m,
        ) && m.parts == seq![PartV::Text(message)]))),
{
    if let StreamStart::Fail(step) = s {
        if let ParsedV::Failed { task_id, context_id, message } = p {
            let shapes = seq![
                ShapeV::Status(TaskState::Submitted, None),
                ShapeV::Status(TaskState::Failed, Some(message)),
            ];
            assert(has_shape(step.sent()[0], task_id, context_id, shapes[0]));
            assert(has_shape(step.sent()[1], task_id, context_id, shapes[1]));
        }
    }
}

/// A stream ends in an error as a call would have: in the same state, with the
/// same text.
pub proof fn streams_fail_as_calls_do(e: ModuleError, disclose: bool)
    ensures
        error_end_of(Some(e), disclose) == Some(
            (
                error_state(e.code),
                error_words(e.code, e.message@, opt_view(e.ai_guidance), disclose),
            ),
        ),
        error_end_of(None, disclose) is None,
{
}

/// The stream of a skill that is not known: the task was submitted and has failed,
/// and says which skill it was.
pub proof fn streams_of_unknown_skills_fail(
    s: SessionV,
    chunks: Seq<JsonV>,
    error: Option<(TaskState, Seq<char>)>,
)
    requires
        s.phase == Phase::Fresh,
        !s.skill_known,
    ensures
        transcript(s, chunks, error) == seq![
            ShapeV::Status(TaskState::Submitted, None),
            ShapeV::Status(TaskState::Failed, Some("Skill not found: "@ + s.skill_id)),
        ],
        opened(s).phase == Phase::Ended,
{
}

/// Opening, chunks and close leave a stream what it is: only its phase moves, from
/// fresh to running to ended, and that a chunk was sent.
pub proof fn streams_stay_what_they_are(s: SessionV)
    ensures
        opened(s).task_id == s.task_id && opened(s).context_id == s.context_id && opened(s).skill_id
            == s.skill_id && opened(s).disclose == s.disclose && opened(s).any_chunk == s.any_chunk,
        closed_stream(s).task_id == s.task_id && closed_stream(s).context_id == s.context_id,
        s.phase == Phase::Fresh && s.skill_known ==> opened(s).phase == Phase::Running,
        s.phase != Phase::Fresh ==> opened(s) == s && opening(s).len() == 0,
        s.phase == Phase::Running ==> closed_stream(s).phase == Phase::Ended,
        s.phase != Phase::Running ==> closed_stream(s) == s,
{
}

} // verus!
