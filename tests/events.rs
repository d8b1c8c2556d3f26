use nexus::action::AgentRole;
use nexus::event::{
    action_proposed, executor_completed, executor_failed, executor_started, executor_streaming,
    permission_denied, permission_granted, run_completed, run_started, tool_executed, tool_failed,
    Actor, Payload, PayloadValue, RunEvent,
};

fn fields(event: &RunEvent) -> Vec<(String, String)> {
    match event.payload.as_ref().expect("payload") {
        Payload::Object(f) => f
            .iter()
            .map(|(k, v)| {
                let v = match v {
                    PayloadValue::Str(s) => format!("{s:?}"),
                    PayloadValue::UInt(n) => n.to_string(),
                    PayloadValue::Bool(b) => b.to_string(),
                    PayloadValue::StrList(l) => format!("{l:?}"),
                    PayloadValue::Json(j) => j.clone(),
                };
                (k.clone(), v)
            })
            .collect(),
        Payload::Json(j) => vec![("json".to_string(), j.clone())],
    }
}

fn pairs(p: &[(&str, &str)]) -> Vec<(String, String)> {
    p.iter().map(|(k, v)| (k.to_string(), v.to_string())).collect()
}

fn assert_tool_actor(actor: &Actor) {
    assert_eq!(actor.agent, Some(AgentRole::Tool));
    assert!(actor.provider.is_none());
    assert!(actor.model.is_none());
}

#[test]
fn test_create_event() {
    let event = RunEvent::new("run-123", "action.proposed").expect("clock");
    assert_eq!(event.v, "nexus/1");
    assert_eq!(event.run_id, "run-123");
    assert_eq!(event.event_type, "action.proposed");
    assert!((1..=12).contains(&event.time.month));
    assert!(event.time.year >= 2024);
}

#[test]
fn test_helper_run_started() {
    let event = run_started("run_001", "rename function").expect("clock");
    assert_eq!(event.v, "nexus/1");
    assert_eq!(event.run_id, "run_001");
    assert_eq!(event.event_type, "run.started");
    assert_tool_actor(event.actor.as_ref().expect("actor should be set"));
    assert_eq!(fields(&event), pairs(&[("task", "\"rename function\"")]));
}

#[test]
fn test_helper_run_completed() {
    let event = run_completed("run_001", "success", 2).expect("clock");
    assert_eq!(event.event_type, "run.completed");
    assert_tool_actor(event.actor.as_ref().expect("actor should be set"));
    assert_eq!(fields(&event), pairs(&[("status", "\"success\""), ("actions_applied", "2")]));
}

#[test]
fn test_helper_action_proposed_default_actor() {
    let event = action_proposed("run_001", "act_001", "patch", "Rename function", None).expect("clock");
    assert_eq!(event.event_type, "action.proposed");
    let actor = event.actor.as_ref().expect("actor should be set");
    assert_eq!(actor.agent, Some(AgentRole::Executor));
    assert_eq!(actor.provider.as_deref(), Some("openai"));
    assert_eq!(actor.model.as_deref(), Some("codex"));
    assert_eq!(
        fields(&event),
        pairs(&[("action_id", "\"act_001\""), ("kind", "\"patch\""), ("summary", "\"Rename function\"")])
    );
}

#[test]
fn test_helper_action_proposed_custom_actor() {
    let custom = Actor {
        agent: Some(AgentRole::Reviewer),
        provider: Some("acme".to_string()),
        model: None,
    };
    let event = action_proposed("run_002", "act_777", "handoff", "Request review", Some(custom)).expect("clock");
    let actor = event.actor.as_ref().expect("actor should be set");
    assert_eq!(actor.agent, Some(AgentRole::Reviewer));
    assert_eq!(actor.provider.as_deref(), Some("acme"));
    assert!(actor.model.is_none());
}

#[test]
fn test_helper_permission_granted() {
    let event = permission_granted("run_001", "act_001", "once").expect("clock");
    assert_eq!(event.event_type, "permission.granted");
    assert_tool_actor(event.actor.as_ref().expect("actor should be set"));
    assert_eq!(fields(&event), pairs(&[("action_id", "\"act_001\""), ("scope", "\"once\"")]));
}

#[test]
fn test_helper_permission_denied() {
    let event = permission_denied("run_001", "act_001", "policy").expect("clock");
    assert_eq!(event.event_type, "permission.denied");
    assert_tool_actor(event.actor.as_ref().expect("actor should be set"));
    assert_eq!(fields(&event), pairs(&[("action_id", "\"act_001\""), ("reason", "\"policy\"")]));
}

#[test]
fn test_helper_tool_executed() {
    let files = vec!["src/api.ts".to_string(), "src/lib.rs".to_string()];
    let event = tool_executed("run_001", "act_001", files).expect("clock");
    assert_eq!(event.event_type, "tool.executed");
    assert_tool_actor(event.actor.as_ref().expect("actor should be set"));
    assert_eq!(
        fields(&event),
        pairs(&[
            ("action_id", "\"act_001\""),
            ("success", "true"),
            ("files_modified", "[\"src/api.ts\", \"src/lib.rs\"]"),
        ])
    );
}

#[test]
fn test_helper_tool_executed_empty_files() {
    let event = tool_executed("run_001", "act_002", Vec::new()).expect("clock");
    assert_eq!(event.event_type, "tool.executed");
    assert_eq!(
        fields(&event),
        pairs(&[("action_id", "\"act_002\""), ("success", "true"), ("files_modified", "[]")])
    );
}

#[test]
fn test_helper_tool_failed() {
    let event = tool_failed("run_001", "act_001", "boom").expect("clock");
    assert_eq!(event.event_type, "tool.failed");
    assert_tool_actor(event.actor.as_ref().expect("actor should be set"));
    assert_eq!(
        fields(&event),
        pairs(&[("action_id", "\"act_001\""), ("success", "false"), ("error", "\"boom\"")])
    );
}

#[test]
fn executor_events_have_their_payloads() {
    let e = executor_started("run_1", "do", 2, "m1").expect("clock");
    assert_eq!(e.actor.as_ref().unwrap().model.as_deref(), Some("m1"));
    assert_eq!(fields(&e), pairs(&[("task", "\"do\""), ("file_count", "2"), ("model", "\"m1\"")]));
    let e = executor_streaming("run_1", 5, 10).expect("clock");
    assert_eq!(fields(&e), pairs(&[("chunk_size", "5"), ("total_chars", "10")]));
    let e = executor_completed("run_1", 3, 1500).expect("clock");
    assert_eq!(fields(&e), pairs(&[("action_count", "3"), ("duration_ms", "1500"), ("success", "true")]));
    let e = executor_failed("run_1", "API error: x", Some(500)).expect("clock");
    assert_eq!(
        fields(&e),
        pairs(&[("error", "\"API error: x\""), ("success", "false"), ("status_code", "500")])
    );
    let e = executor_failed("run_1", "boom", None).expect("clock");
    assert_eq!(fields(&e), pairs(&[("error", "\"boom\""), ("success", "false")]));
}

#[test]
fn events_can_be_stamped_with_a_given_time() {
    let t = nexus::run_id::UtcTime { year: 2026, month: 1, day: 8, hour: 12, minute: 0, second: 0, millis: 42 };
    let e = RunEvent::at("run_1", "run.started", t);
    assert_eq!(e.time, t);
    assert_eq!(e.v, "nexus/1");
    assert!(e.actor.is_none() && e.payload.is_none());
}
