use nexus::adapter::{completion_events, failure_status_code, to_client_messages, CodexAdapter};
use nexus::action::PatchFormat;
use nexus::error::NexusError;
use nexus::event::executor_started;
use nexus::parser::ParsedResponse;
use nexus::prompt::FileContext;
use nexus::run_id::{run_id_from_time, run_id_is_valid, UtcTime};

#[test]
fn adapter_defaults_and_overrides() {
    let a = CodexAdapter::new();
    assert_eq!(a.model(), "gpt-5.2-codex");
    let a = a.with_model("  gpt-x  ").with_base_url("http://localhost:8080/");
    assert_eq!(a.model(), "gpt-x");
    assert_eq!(a.client.completions_url(), "http://localhost:8080/chat/completions");
    let a = a.with_model("   ");
    assert_eq!(a.model(), "gpt-5.2-codex");
}

#[test]
fn run_ids_have_the_documented_shape() {
    let t = UtcTime { year: 2026, month: 1, day: 8, hour: 12, minute: 0, second: 0, millis: 42 };
    let id = run_id_from_time(&t);
    assert_eq!(id, "run_20260108_120000_042");
    assert!(run_id_is_valid(&id));
    let id = nexus::run_id::generate_run_id().expect("clock");
    assert!(id.starts_with("run_"));
    assert_eq!(id.len(), "run_20260108_120000_042".len());
}

#[test]
fn one_run_shares_one_run_id() {
    let adapter = CodexAdapter::new();
    let run_id = "run_20260108_120000_042";
    let response = "```diff\n--- a/src/lib.rs\n+++ b/src/lib.rs\n-a\n+b\n```\n--- a/src/main.rs\n+++ b/src/main.rs\n-c\n+d\n";
    let actions = match adapter.parser.parse(response, run_id).unwrap() {
        ParsedResponse::Actions(a) => a,
        other => panic!("unexpected {other:?}"),
    };
    assert_eq!(actions.len(), 2);
    let started = executor_started(run_id, "task", 1, adapter.model()).expect("clock");
    let closing = completion_events(run_id, &actions, 12).expect("clock");
    assert_eq!(closing.len(), 3);
    assert_eq!(closing[0].event_type, "action.proposed");
    assert_eq!(closing[2].event_type, "executor.completed");
    let mut ids: Vec<&str> = std::iter::once(&started).chain(closing.iter()).map(|e| e.run_id.as_str()).collect();
    ids.dedup();
    assert_eq!(ids, vec![run_id]);
    assert!(actions.iter().all(|a| a.id.starts_with(run_id)));
}

#[test]
fn messages_keep_roles_and_contents() {
    let adapter = CodexAdapter::new();
    let files = vec![FileContext { path: "a.rs".to_string(), content: "x".to_string(), language: None }];
    let messages = adapter.build_messages("t", &files, PatchFormat::Unified);
    assert_eq!(messages.len(), 2);
    assert_eq!(messages[0].role, "system");
    assert_eq!(messages[1].role, "user");
    let prompt = adapter.prompt_builder.build_messages("t", &files, PatchFormat::Unified);
    let again = to_client_messages(prompt);
    assert_eq!(again[1].content, messages[1].content);
}

#[test]
fn failed_runs_record_api_status_only() {
    let api = NexusError::ApiError { message: "x".to_string(), status_code: Some(500) };
    assert_eq!(failure_status_code(&api), Some(500));
    assert_eq!(failure_status_code(&NexusError::MissingApiKey), None);
}
