//! Run events: the records of the append-only log, and the factories for canonical shapes.
use crate::action::AgentRole;
use crate::error::NexusError;
use crate::run_id::{clock_error, clock_unavailable, now_utc, UtcTime};
use crate::settings::views;
use vstd::prelude::*;
use vstd::string::*;

verus! {

/// Correlation of an event with a trace.
#[derive(Debug, Clone, Default)]
pub struct TraceInfo {
    pub correlation_id: Option<String>,
    pub span_id: Option<String>,
    pub parent_span_id: Option<String>,
}

/// Who emitted an event.
#[derive(Debug, Clone, Default)]
pub struct Actor {
    pub agent: Option<AgentRole>,
    pub provider: Option<String>,
    pub model: Option<String>,
}

/// A payload kept outside the log.
#[derive(Debug, Clone)]
pub struct PayloadRef {
    pub uri: String,
    pub mime: Option<String>,
    pub sha256: Option<String>,
    pub size_bytes: Option<u64>,
    pub label: Option<String>,
}

/// One value of an event payload. Values of any other JSON shape are kept as their JSON text.
#[derive(Debug, Clone)]
pub enum PayloadValue {
    Str(String),
    UInt(u64),
    Bool(bool),
    StrList(Vec<String>),
    Json(String),
}

/// The free-form payload of an event: an object of named values, or any other JSON value as
/// its text.
#[derive(Debug, Clone)]
pub enum Payload {
    Object(Vec<(String, PayloadValue)>),
    Json(String),
}

/// A record of the log. `event_seq` is not part of it: the writer assigns it on append.
#[derive(Debug, Clone)]
pub struct RunEvent {
    pub v: String,
    pub run_id: String,
    pub workflow_id: Option<String>,
    pub node_id: Option<String>,
    pub event_type: String,
    pub time: UtcTime,
    pub trace: Option<TraceInfo>,
    pub actor: Option<Actor>,
    pub payload: Option<Payload>,
    pub payload_ref: Option<PayloadRef>,
}

/// A payload value seen as plain values.
pub enum ValueView {
    Str(Seq<char>),
    UInt(u64),
    Bool(bool),
    StrList(Seq<Seq<char>>),
    Json(Seq<char>),
}

pub open spec fn value_view(v: PayloadValue) -> ValueView {
    match v {
        PayloadValue::Str(s) => ValueView::Str(s@),
        PayloadValue::UInt(n) => ValueView::UInt(n),
        PayloadValue::Bool(b) => ValueView::Bool(b),
        PayloadValue::StrList(l) => ValueView::StrList(views(l@)),
        PayloadValue::Json(j) => ValueView::Json(j@),
    }
}

pub open spec fn fields_view(f: Seq<(String, PayloadValue)>) -> Seq<(Seq<char>, ValueView)> {
    f.map_values(|p: (String, PayloadValue)| (p.0@, value_view(p.1)))
}

/// The event's payload is an object with exactly these fields, in this order.
pub open spec fn has_fields(e: RunEvent, fields: Seq<(Seq<char>, ValueView)>) -> bool {
    match e.payload {
        Some(Payload::Object(f)) => fields_view(f@) == fields,
        _ => false,
    }
}

pub open spec fn opt_str_view(o: Option<String>) -> Option<Seq<char>> {
    match o {
        Some(s) => Some(s@),
        None => None,
    }
}

/// An actor seen as plain values.
pub open spec fn actor_view(a: Actor) -> (Option<AgentRole>, Option<Seq<char>>, Option<Seq<char>>) {
    (a.agent, opt_str_view(a.provider), opt_str_view(a.model))
}

/// The schema version every event carries.
pub open spec fn schema_v() -> Seq<char> {
    "nexus/1"@
}

/// A fresh event of type `t` for run `run_id`: schema version set, every optional part
/// absent, the time a valid moment.
pub open spec fn fresh_event(e: RunEvent, run_id: Seq<char>, t: Seq<char>) -> bool {
    &&& e.v@ == schema_v()
    &&& e.run_id@ == run_id
    &&& e.event_type@ == t
    &&& e.workflow_id is None
    &&& e.node_id is None
    &&& e.trace is None
    &&& e.payload_ref is None
    &&& e.time.wf()
}

impl RunEvent {
    /// A new event of `event_type` for `run_id`, stamped with moment `time`.
    pub fn at(run_id: &str, event_type: &str, time: UtcTime) -> (r: Self)
        requires
            time.wf(),
        ensures
            fresh_event(r, run_id@, event_type@),
            r.time == time,
            r.actor is None,
            r.payload is None,
    {
        RunEvent {
            v: String::from_str("nexus/1"),
            run_id: String::from_str(run_id),
            workflow_id: None,
            node_id: None,
            event_type: String::from_str(event_type),
            time,
            trace: None,
            actor: None,
            payload: None,
            payload_ref: None,
        }
    }

    /// A new event of `event_type` for `run_id`, stamped with the current UTC time. Fails
    /// only where the clock gives no usable time.
    pub fn new(run_id: &str, event_type: &str) -> (r: Result<Self, NexusError>)
        ensures
            r matches Ok(e) ==> fresh_event(e, run_id@, event_type@),
            r matches Ok(e) ==> (e.actor is None && e.payload is None),
            r matches Err(e) ==> clock_error(e),
    {
        match now_utc() {
            Some(t) => Ok(RunEvent::at(run_id, event_type, t)),
            None => Err(clock_unavailable()),
        }
    }

    /// This event with `payload` set.
    pub fn with_payload(self, payload: Payload) -> (r: Self)
        ensures
            r == (RunEvent { payload: Some(payload), ..self }),
    {
        let mut e = self;
        e.payload = Some(payload);
        e
    }

    /// This event with `actor` set.
    pub fn with_actor(self, actor: Actor) -> (r: Self)
        ensures
            r == (RunEvent { actor: Some(actor), ..self }),
    {
        let mut e = self;
        e.actor = Some(actor);
        e
    }
}

/// The actor of tool events: agent `tool`, no provider, no model.
pub open spec fn is_tool_actor(a: Option<Actor>) -> bool {
    match a {
        Some(x) => actor_view(x) == (Some(AgentRole::Tool), None::<Seq<char>>, None::<Seq<char>>),
        None => false,
    }
}

/// The default actor of executor events: agent `executor`, provider `openai`, model `codex`.
pub open spec fn is_default_executor_actor(a: Option<Actor>) -> bool {
    match a {
        Some(x) => actor_view(x) == (Some(AgentRole::Executor), Some("openai"@), Some("codex"@)),
        None => false,
    }
}

/// The actor of tool events.
pub fn tool_actor() -> (r: Actor)
    ensures
        is_tool_actor(Some(r)),
{
    Actor { agent: Some(AgentRole::Tool), provider: None, model: None }
}

/// The default actor of executor events.
pub fn default_executor_actor() -> (r: Actor)
    ensures
        is_default_executor_actor(Some(r)),
{
    Actor {
        agent: Some(AgentRole::Executor),
        provider: Some(String::from_str("openai")),
        model: Some(String::from_str("codex")),
    }
}

fn text_field(key: &str, value: &str) -> (r: (String, PayloadValue))
    ensures
        r.0@ == key@,
        value_view(r.1) == ValueView::Str(value@),
{
    (String::from_str(key), PayloadValue::Str(String::from_str(value)))
}

fn number_field(key: &str, value: u64) -> (r: (String, PayloadValue))
    ensures
        r.0@ == key@,
        value_view(r.1) == ValueView::UInt(value),
{
    (String::from_str(key), PayloadValue::UInt(value))
}

fn flag_field(key: &str, value: bool) -> (r: (String, PayloadValue))
    ensures
        r.0@ == key@,
        value_view(r.1) == ValueView::Bool(value),
{
    (String::from_str(key), PayloadValue::Bool(value))
}

/// An object payload from fields built in order.
fn object1(a: (String, PayloadValue)) -> (r: Payload)
    ensures
        r matches Payload::Object(f) && fields_view(f@) == seq![(a.0@, value_view(a.1))],
{
    let mut f: Vec<(String, PayloadValue)> = Vec::new();
    f.push(a);
    assert(fields_view(f@) =~= seq![(a.0@, value_view(a.1))]);
    Payload::Object(f)
}

fn object2(a: (String, PayloadValue), b: (String, PayloadValue)) -> (r: Payload)
    ensures
        r matches Payload::Object(f) && fields_view(f@) == seq![
            (a.0@, value_view(a.1)),
            (b.0@, value_view(b.1)),
        ],
{
    let mut f: Vec<(String, PayloadValue)> = Vec::new();
    f.push(a);
    f.push(b);
    assert(fields_view(f@) =~= seq![(a.0@, value_view(a.1)), (b.0@, value_view(b.1))]);
    Payload::Object(f)
}

fn object3(a: (String, PayloadValue), b: (String, PayloadValue), c: (String, PayloadValue)) -> (r:
    Payload)
    ensures
        r matches Payload::Object(f) && fields_view(f@) == seq![
            (a.0@, value_view(a.1)),
            (b.0@, value_view(b.1)),
            (c.0@, value_view(c.1)),
        ],
{
    let mut f: Vec<(String, PayloadValue)> = Vec::new();
    f.push(a);
    f.push(b);
    f.push(c);
    assert(fields_view(f@) =~= seq![
        (a.0@, value_view(a.1)),
        (b.0@, value_view(b.1)),
        (c.0@, value_view(c.1)),
    ]);
    Payload::Object(f)
}

/// `run.started` with `{task}`, by the tool actor.
pub fn run_started(run_id: &str, task: &str) -> (r: Result<RunEvent, NexusError>)
    ensures
        r matches Err(e) ==> clock_error(e),
        r is Ok ==> (fresh_event(r->Ok_0, run_id@, "run.started"@)),
        r is Ok ==> (is_tool_actor(r->Ok_0.actor)),
        r is Ok ==> (has_fields(r->Ok_0, seq![("task"@, ValueView::Str(task@))])),
{
    let e = match RunEvent::new(run_id, "run.started") {
        Ok(e) => e,
        Err(err) => return Err(err),
    };
    Ok(e.with_actor(tool_actor()).with_payload(
        object1(text_field("task", task)),
    ))
}

/// `run.completed` with `{status, actions_applied}`, by the tool actor.
pub fn run_completed(run_id: &str, status: &str, actions_applied: u32) -> (r: Result<RunEvent, NexusError>)
    ensures
        r matches Err(e) ==> clock_error(e),
        r is Ok ==> (fresh_event(r->Ok_0, run_id@, "run.completed"@)),
        r is Ok ==> (is_tool_actor(r->Ok_0.actor)),
        r is Ok ==> (has_fields(
            r->Ok_0,
            seq![
                ("status"@, ValueView::Str(status@)),
                ("actions_applied"@, ValueView::UInt(actions_applied as u64)),
            ],
        )),
{
    let e = match RunEvent::new(run_id, "run.completed") {
        Ok(e) => e,
        Err(err) => return Err(err),
    };
    Ok(e.with_actor(tool_actor()).with_payload(
        object2(text_field("status", status), number_field("actions_applied", actions_applied as u64)),
    ))
}

/// `action.proposed` with `{action_id, kind, summary}`, by `actor`, or by the default
/// executor actor where none is given.
pub fn action_proposed(
    run_id: &str,
    action_id: &str,
    kind: &str,
    summary: &str,
    actor: Option<Actor>,
) -> (r: Result<RunEvent, NexusError>)
    ensures
        r matches Err(e) ==> clock_error(e),
        r is Ok ==> (fresh_event(r->Ok_0, run_id@, "action.proposed"@)),
        r is Ok ==> (match actor {
            Some(a) => r->Ok_0.actor == Some(a),
            None => is_default_executor_actor(r->Ok_0.actor),
        }),
        r is Ok ==> (has_fields(
            r->Ok_0,
            seq![
                ("action_id"@, ValueView::Str(action_id@)),
                ("kind"@, ValueView::Str(kind@)),
                ("summary"@, ValueView::Str(summary@)),
            ],
        )),
{
    let actor = match actor {
        Some(a) => a,
        None => default_executor_actor(),
    };
    let e = match RunEvent::new(run_id, "action.proposed") {
        Ok(e) => e,
        Err(err) => return Err(err),
    };
    Ok(e.with_actor(actor).with_payload(
        object3(
            text_field("action_id", action_id),
            text_field("kind", kind),
            text_field("summary", summary),
        ),
    ))
}

/// `permission.granted` with `{action_id, scope}`, by the tool actor.
pub fn permission_granted(run_id: &str, action_id: &str, scope: &str) -> (r: Result<RunEvent, NexusError>)
    ensures
        r matches Err(e) ==> clock_error(e),
        r is Ok ==> (fresh_event(r->Ok_0, run_id@, "permission.granted"@)),
        r is Ok ==> (is_tool_actor(r->Ok_0.actor)),
        r is Ok ==> (has_fields(
            r->Ok_0,
            seq![("action_id"@, ValueView::Str(action_id@)), ("scope"@, ValueView::Str(scope@))],
        )),
{
    let e = match RunEvent::new(run_id, "permission.granted") {
        Ok(e) => e,
        Err(err) => return Err(err),
    };
    Ok(e.with_actor(tool_actor()).with_payload(
        object2(text_field("action_id", action_id), text_field("scope", scope)),
    ))
}

/// `permission.denied` with `{action_id, reason}`, by the tool actor.
pub fn permission_denied(run_id: &str, action_id: &str, reason: &str) -> (r: Result<RunEvent, NexusError>)
    ensures
        r matches Err(e) ==> clock_error(e),
        r is Ok ==> (fresh_event(r->Ok_0, run_id@, "permission.denied"@)),
        r is Ok ==> (is_tool_actor(r->Ok_0.actor)),
        r is Ok ==> (has_fields(
            r->Ok_0,
            seq![("action_id"@, ValueView::Str(action_id@)), ("reason"@, ValueView::Str(reason@))],
        )),
{
    let e = match RunEvent::new(run_id, "permission.denied") {
        Ok(e) => e,
        Err(err) => return Err(err),
    };
    Ok(e.with_actor(tool_actor()).with_payload(
        object2(text_field("action_id", action_id), text_field("reason", reason)),
    ))
}

/// `tool.executed` with `{action_id, success: true, files_modified}`, by the tool actor.
pub fn tool_executed(run_id: &str, action_id: &str, files_modified: Vec<String>) -> (r: Result<RunEvent, NexusError>)
    ensures
        r matches Err(e) ==> clock_error(e),
        r is Ok ==> (fresh_event(r->Ok_0, run_id@, "tool.executed"@)),
        r is Ok ==> (is_tool_actor(r->Ok_0.actor)),
        r is Ok ==> (has_fields(
            r->Ok_0,
            seq![
                ("action_id"@, ValueView::Str(action_id@)),
                ("success"@, ValueView::Bool(true)),
                ("files_modified"@, ValueView::StrList(views(files_modified@))),
            ],
        )),
{
    let e = match RunEvent::new(run_id, "tool.executed") {
        Ok(e) => e,
        Err(err) => return Err(err),
    };
    Ok(e.with_actor(tool_actor()).with_payload(
        object3(
            text_field("action_id", action_id),
            flag_field("success", true),
            (String::from_str("files_modified"), PayloadValue::StrList(files_modified)),
        ),
    ))
}

/// `tool.failed` with `{action_id, success: false, error}`, by the tool actor.
pub fn tool_failed(run_id: &str, action_id: &str, error: &str) -> (r: Result<RunEvent, NexusError>)
    ensures
        r matches Err(e) ==> clock_error(e),
        r is Ok ==> (fresh_event(r->Ok_0, run_id@, "tool.failed"@)),
        r is Ok ==> (is_tool_actor(r->Ok_0.actor)),
        r is Ok ==> (has_fields(
            r->Ok_0,
            seq![
                ("action_id"@, ValueView::Str(action_id@)),
                ("success"@, ValueView::Bool(false)),
                ("error"@, ValueView::Str(error@)),
            ],
        )),
{
    let e = match RunEvent::new(run_id, "tool.failed") {
        Ok(e) => e,
        Err(err) => return Err(err),
    };
    Ok(e.with_actor(tool_actor()).with_payload(
        object3(
            text_field("action_id", action_id),
            flag_field("success", false),
            text_field("error", error),
        ),
    ))
}

/// `executor.started` with `{task, file_count, model}`, by the executor with provider
/// `openai` and the given model.
pub fn executor_started(run_id: &str, task: &str, file_count: usize, model: &str) -> (r: Result<RunEvent, NexusError>)
    ensures
        r matches Err(e) ==> clock_error(e),
        r is Ok ==> (fresh_event(r->Ok_0, run_id@, "executor.started"@)),
        r is Ok ==> (r->Ok_0.actor matches Some(a) && actor_view(a) == (
            Some(AgentRole::Executor),
            Some("openai"@),
            Some(model@),
        )),
        r is Ok ==> (has_fields(
            r->Ok_0,
            seq![
                ("task"@, ValueView::Str(task@)),
                ("file_count"@, ValueView::UInt(file_count as u64)),
                ("model"@, ValueView::Str(model@)),
            ],
        )),
{
    let actor = Actor {
        agent: Some(AgentRole::Executor),
        provider: Some(String::from_str("openai")),
        model: Some(String::from_str(model)),
    };
    let e = match RunEvent::new(run_id, "executor.started") {
        Ok(e) => e,
        Err(err) => return Err(err),
    };
    Ok(e.with_actor(actor).with_payload(
        object3(
            text_field("task", task),
            number_field("file_count", file_count as u64),
            text_field("model", model),
        ),
    ))
}

/// `executor.streaming` with `{chunk_size, total_chars}`, by the default executor actor.
pub fn executor_streaming(run_id: &str, chunk_size: usize, total_chars: usize) -> (r: Result<RunEvent, NexusError>)
    ensures
        r matches Err(e) ==> clock_error(e),
        r is Ok ==> (fresh_event(r->Ok_0, run_id@, "executor.streaming"@)),
        r is Ok ==> (is_default_executor_actor(r->Ok_0.actor)),
        r is Ok ==> (has_fields(
            r->Ok_0,
            seq![
                ("chunk_size"@, ValueView::UInt(chunk_size as u64)),
                ("total_chars"@, ValueView::UInt(total_chars as u64)),
            ],
        )),
{
    let e = match RunEvent::new(run_id, "executor.streaming") {
        Ok(e) => e,
        Err(err) => return Err(err),
    };
    Ok(e.with_actor(default_executor_actor()).with_payload(
        object2(
            number_field("chunk_size", chunk_size as u64),
            number_field("total_chars", total_chars as u64),
        ),
    ))
}

/// `executor.completed` with `{action_count, duration_ms, success: true}`, by the default
/// executor actor.
pub fn executor_completed(run_id: &str, action_count: usize, duration_ms: u64) -> (r: Result<RunEvent, NexusError>)
    ensures
        r matches Err(e) ==> clock_error(e),
        r is Ok ==> (fresh_event(r->Ok_0, run_id@, "executor.completed"@)),
        r is Ok ==> (is_default_executor_actor(r->Ok_0.actor)),
        r is Ok ==> (has_fields(
            r->Ok_0,
            seq![
                ("action_count"@, ValueView::UInt(action_count as u64)),
                ("duration_ms"@, ValueView::UInt(duration_ms)),
                ("success"@, ValueView::Bool(true)),
            ],
        )),
{
    let e = match RunEvent::new(run_id, "executor.completed") {
        Ok(e) => e,
        Err(err) => return Err(err),
    };
    Ok(e.with_actor(default_executor_actor()).with_payload(
        object3(
            number_field("action_count", action_count as u64),
            number_field("duration_ms", duration_ms),
            flag_field("success", true),
        ),
    ))
}

/// `executor.failed` with `{error, success: false}`, and `status_code` last where one is
/// given, by the default executor actor.
pub fn executor_failed(run_id: &str, error: &str, status_code: Option<u16>) -> (r: Result<RunEvent, NexusError>)
    ensures
        r matches Err(e) ==> clock_error(e),
        r is Ok ==> (fresh_event(r->Ok_0, run_id@, "executor.failed"@)),
        r is Ok ==> (is_default_executor_actor(r->Ok_0.actor)),
        r is Ok ==> (has_fields(
            r->Ok_0,
            match status_code {
                Some(c) => seq![
                    ("error"@, ValueView::Str(error@)),
                    ("success"@, ValueView::Bool(false)),
                    ("status_code"@, ValueView::UInt(c as u64)),
                ],
                None => seq![("error"@, ValueView::Str(error@)), ("success"@, ValueView::Bool(false))],
            },
        )),
{
    let payload = match status_code {
        Some(c) => object3(
            text_field("error", error),
            flag_field("success", false),
            number_field("status_code", c as u64),
        ),
        None => object2(text_field("error", error), flag_field("success", false)),
    };
    let e = match RunEvent::new(run_id, "executor.failed") {
        Ok(e) => e,
        Err(err) => return Err(err),
    };
    Ok(e.with_actor(default_executor_actor()).with_payload(
        payload,
    ))
}

} // verus!
