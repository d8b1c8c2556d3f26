//! The decisions of one executor run: its configuration, the messages it sends, and the
//! events it records, all correlated by one run identifier.
use crate::action::{action_kind_label, kind_label_spec, PatchFormat, ProposedAction};
use crate::client::{ChatMessage as ClientChatMessage, ClientConfig};
use crate::error::NexusError;
use crate::event::{
    action_proposed, executor_completed, fresh_event, has_fields, is_default_executor_actor,
    RunEvent, ValueView,
};
use crate::parser::{action_id_spec, parse_outcome, ParsedResponse, ResponseParser};
use crate::run_id::clock_error;
use crate::prompt::{ChatMessage as PromptChatMessage, FileContext, PromptBuilder};
use crate::text::{dec, trim, trim_str};
use vstd::prelude::*;
use vstd::string::*;

verus! {

pub const DEFAULT_MODEL: &'static str = "gpt-5.2-codex";

/// The model a run uses for `model`: trimmed, the default where nothing is left.
pub open spec fn effective_model(model: Seq<char>) -> Seq<char> {
    if trim(model).len() == 0 {
        DEFAULT_MODEL@
    } else {
        trim(model)
    }
}

/// An executor that asks a completion service for patches.
pub struct CodexAdapter {
    pub client: ClientConfig,
    pub parser: ResponseParser,
    pub prompt_builder: PromptBuilder,
    pub model: String,
}

impl CodexAdapter {
    pub closed spec fn model_spec(&self) -> Seq<char> {
        self.model@
    }

    /// The default client, parser, prompt and model.
    pub fn new() -> (r: Self)
        ensures
            r.model_spec() == DEFAULT_MODEL@,
    {
        CodexAdapter {
            client: ClientConfig::new(),
            parser: ResponseParser::new(),
            prompt_builder: PromptBuilder::new(),
            model: String::from_str(DEFAULT_MODEL),
        }
    }

    /// This adapter with another model; a blank name means the default.
    pub fn with_model(self, model: &str) -> (r: Self)
        ensures
            r.model_spec() == effective_model(model@),
    {
        let t = trim_str(model);
        let model = if t.as_str().unicode_len() == 0 {
            String::from_str(DEFAULT_MODEL)
        } else {
            t
        };
        CodexAdapter { model, ..self }
    }

    /// This adapter with another endpoint.
    pub fn with_base_url(self, url: &str) -> (r: Self)
        ensures
            r.model_spec() == self.model_spec(),
            r.client.base_url@ == crate::client::effective_base_url(url@),
    {
        let client = self.client.with_base_url(url);
        CodexAdapter { client, ..self }
    }

    /// The model name.
    pub fn model(&self) -> (r: &str)
        ensures
            r@ == self.model_spec(),
    {
        self.model.as_str()
    }

    /// The messages of a request for `task` over `files`.
    pub fn build_messages(
        &self,
        task: &str,
        files: &Vec<FileContext>,
        preferred_format: PatchFormat,
    ) -> (r: Vec<ClientChatMessage>)
        ensures
            r@.len() == 2,
            r@[0].content@ == self.prompt_builder.prompt(),
            r@[1].content@ == crate::prompt::user_message(task@, files@, preferred_format),
    {
        let messages = self.prompt_builder.build_messages(task, files, preferred_format);
        to_client_messages(messages)
    }
}

/// The same messages, as the transport writes them.
pub fn to_client_messages(messages: Vec<PromptChatMessage>) -> (r: Vec<ClientChatMessage>)
    ensures
        r@.len() == messages@.len(),
        forall|i: int|
            0 <= i < r@.len() ==> (#[trigger] r@[i]).role@ == messages@[i].role@ && r@[i].content@
                == messages@[i].content@,
{
    let mut out: Vec<ClientChatMessage> = Vec::new();
    let mut i: usize = 0;
    while i < messages.len()
        invariant
            i <= messages.len(),
            out@.len() == i,
            forall|j: int|
                0 <= j < i ==> (#[trigger] out@[j]).role@ == messages@[j].role@ && out@[j].content@
                    == messages@[j].content@,
        decreases messages.len() - i,
    {
        let m = &messages[i];
        out.push(
            ClientChatMessage {
                role: String::from_str(m.role.as_str()),
                content: String::from_str(m.content.as_str()),
            },
        );
        i = i + 1;
    }
    out
}

/// `e` is the `action.proposed` event of action `a` in run `run_id`.
pub open spec fn proposal_event(e: RunEvent, run_id: Seq<char>, a: ProposedAction) -> bool {
    &&& fresh_event(e, run_id, "action.proposed"@)
    &&& is_default_executor_actor(e.actor)
    &&& has_fields(
        e,
        seq![
            ("action_id"@, ValueView::Str(a.id@)),
            ("kind"@, ValueView::Str(kind_label_spec(a.kind))),
            ("summary"@, ValueView::Str(a.summary@)),
        ],
    )
}

/// The events that close a successful run: one `action.proposed` per action, in order, then
/// `executor.completed`.
pub open spec fn success_events(
    evs: Seq<RunEvent>,
    run_id: Seq<char>,
    actions: Seq<ProposedAction>,
    duration_ms: u64,
) -> bool {
    &&& evs.len() == actions.len() + 1
    &&& forall|i: int|
        0 <= i < actions.len() ==> proposal_event(#[trigger] evs[i], run_id, actions[i])
    &&& fresh_event(evs.last(), run_id, "executor.completed"@)
    &&& is_default_executor_actor(evs.last().actor)
    &&& has_fields(
        evs.last(),
        seq![
            ("action_count"@, ValueView::UInt(actions.len() as u64)),
            ("duration_ms"@, ValueView::UInt(duration_ms)),
            ("success"@, ValueView::Bool(true)),
        ],
    )
}

/// The events that record a successful run after `executor.started`. Fails only where the
/// clock gives no usable time.
pub fn completion_events(run_id: &str, actions: &Vec<ProposedAction>, duration_ms: u64) -> (r:
    Result<Vec<RunEvent>, NexusError>)
    ensures
        r matches Ok(v) ==> success_events(v@, run_id@, actions@, duration_ms),
        r matches Err(e) ==> clock_error(e),
{
    let mut out: Vec<RunEvent> = Vec::new();
    let mut i: usize = 0;
    while i < actions.len()
        invariant
            i <= actions.len(),
            out@.len() == i,
            forall|j: int| 0 <= j < i ==> proposal_event(#[trigger] out@[j], run_id@, actions@[j]),
        decreases actions.len() - i,
    {
        let a = &actions[i];
        let kind = action_kind_label(&a.kind);
        match action_proposed(run_id, a.id.as_str(), kind, a.summary.as_str(), None) {
            Ok(e) => out.push(e),
            Err(err) => return Err(err),
        }
        i = i + 1;
    }
    match executor_completed(run_id, actions.len(), duration_ms) {
        Ok(done) => out.push(done),
        Err(err) => return Err(err),
    }
    Ok(out)
}

/// The status code an `executor.failed` event records: that of an API error, else none.
pub fn failure_status_code(err: &NexusError) -> (r: Option<u16>)
    ensures
        r == match err {
            NexusError::ApiError { status_code, .. } => *status_code,
            _ => None,
        },
{
    match err {
        NexusError::ApiError { status_code, .. } => *status_code,
        _ => None,
    }
}

/// The distinct run identifiers of a list of events.
pub open spec fn run_ids(evs: Seq<RunEvent>) -> Set<Seq<char>> {
    evs.map_values(|e: RunEvent| e.run_id@).to_set()
}

/// Runs are correlated: when a run with identifier `run_id` parses its response into
/// actions, its `executor.started` event and the events that close it carry exactly one run
/// identifier, `run_id`, and every action identifier begins with it.
pub proof fn lemma_run_correlation(
    run_id: Seq<char>,
    response: Seq<char>,
    parsed: Result<ParsedResponse, NexusError>,
    started: RunEvent,
    closing: Seq<RunEvent>,
    duration_ms: u64,
)
    requires
        parse_outcome(response, run_id, parsed),
        parsed matches Ok(ParsedResponse::Actions(_)),
        fresh_event(started, run_id, "executor.started"@),
        success_events(closing, run_id, parsed->Ok_0->Actions_0@, duration_ms),
    ensures
        run_ids(seq![started] + closing) == set![run_id],
        forall|i: int|
            0 <= i < parsed->Ok_0->Actions_0@.len() ==> #[trigger] parsed->Ok_0->Actions_0@[i].id@.subrange(
                0,
                run_id.len() as int,
            ) == run_id,
{
    let all = seq![started] + closing;
    let actions = parsed->Ok_0->Actions_0@;
    assert forall|i: int| 0 <= i < all.len() implies #[trigger] all[i].run_id@ == run_id by {
        if i > 0 {
            if i - 1 < actions.len() {
                assert(proposal_event(closing[i - 1], run_id, actions[i - 1]));
            } else {
                assert(closing[i - 1] == closing.last());
            }
        }
    }
    let ids = all.map_values(|e: RunEvent| e.run_id@);
    assert forall|x: Seq<char>| ids.to_set().contains(x) <==> set![run_id].contains(x) by {
        if ids.to_set().contains(x) {
            let k = choose|k: int| 0 <= k < ids.len() && ids[k] == x;
            assert(all[k].run_id@ == run_id);
        }
        if x == run_id {
            assert(ids[0] == run_id);
        }
    }
    assert(run_ids(all) =~= set![run_id]);
    assert forall|i: int| 0 <= i < actions.len() implies #[trigger] actions[i].id@.subrange(
        0,
        run_id.len() as int,
    ) == run_id by {
        lemma_action_id_prefix(run_id, response, parsed, i);
    }
}

proof fn lemma_action_id_prefix(
    run_id: Seq<char>,
    response: Seq<char>,
    parsed: Result<ParsedResponse, NexusError>,
    i: int,
)
    requires
        parse_outcome(response, run_id, parsed),
        parsed matches Ok(ParsedResponse::Actions(_)),
        0 <= i < parsed->Ok_0->Actions_0@.len(),
    ensures
        parsed->Ok_0->Actions_0@[i].id@.subrange(0, run_id.len() as int) == run_id,
{
    let a = parsed->Ok_0->Actions_0@[i];
    let n = (i + 1) as nat;
    assert(a.id@ == action_id_spec(run_id, n));
    assert((run_id + "-action-"@ + dec(n)).subrange(0, run_id.len() as int) =~= run_id);
}

} // verus!
