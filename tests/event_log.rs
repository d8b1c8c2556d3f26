use nexus::error::NexusError;
use nexus::event::RunEvent;
use nexus::event_log::{
    corrupted, filter_by_run, filter_by_type, load_all, EventLogPath, EventSequencer, LineCursor,
    LineStep,
};
use std::path::{Path, PathBuf};

#[test]
fn test_event_log_path_valid() {
    let path = EventLogPath::new("/project");
    let result = path.for_run("run_123");
    assert!(result.is_ok());
    let expected = Path::new("/project")
        .join(".nexus")
        .join("runs")
        .join("run_123.jsonl");
    assert_eq!(PathBuf::from(result.unwrap()), expected);
}

#[test]
fn test_event_log_path_rejects_traversal() {
    let path = EventLogPath::new("/project");
    assert!(path.for_run("../etc/passwd").is_err());
    assert!(path.for_run("foo/bar").is_err());
    assert!(path.for_run("foo\\bar").is_err());
    assert!(path.for_run("..").is_err(), "double-dot should be rejected");
    assert!(path.for_run("foo..bar").is_err());
}

#[test]
fn test_event_log_path_rejects_empty() {
    let path = EventLogPath::new("/project");
    assert!(path.for_run("").is_err());
    assert!(path.for_run("   ").is_err());
    assert!(path.for_run("\t\n").is_err());
}

#[test]
fn test_event_log_path_rejects_overlong() {
    let path = EventLogPath::new("/project");
    let ok = "a".repeat(255);
    let too_long = "a".repeat(256);
    assert!(path.for_run(&ok).is_ok());
    assert!(path.for_run(&too_long).is_err());
}

#[test]
fn run_id_length_counts_bytes() {
    let path = EventLogPath::new("/project/");
    let wide = "é".repeat(128);
    assert!(matches!(
        path.for_run(&wide),
        Err(NexusError::InvalidRunId(m)) if m == "run_id exceeds 255 characters"
    ));
    assert_eq!(path.for_run("r").unwrap(), "/project/.nexus/runs/r.jsonl");
    assert!(matches!(
        path.for_run("a/b"),
        Err(NexusError::InvalidRunId(m)) if m == "run_id contains invalid characters: a/b"
    ));
    assert!(matches!(path.for_run(" "), Err(NexusError::InvalidRunId(m)) if m == "empty run_id"));
}

fn frame_all(seq: &mut EventSequencer, objects: &[&str]) -> Vec<String> {
    objects
        .iter()
        .map(|o| {
            let line = seq.frame(o).expect("frame");
            seq.advance();
            line
        })
        .collect()
}

fn seq_of(line: &str) -> u64 {
    let v: serde_json::Value = serde_json::from_str(line.trim_end()).expect("json line");
    v["event_seq"].as_u64().expect("event_seq")
}

#[test]
fn two_appends_to_an_empty_log() {
    let mut seq = EventSequencer::from_lines(&Vec::new()).expect("open");
    assert_eq!(seq.next_seq(), 1);
    let lines = frame_all(
        &mut seq,
        &[r#"{"run_id":"run_1","type":"a"}"#, r#"{"run_id":"run_1","type":"b"}"#],
    );
    let file: String = lines.concat();
    assert_eq!(
        file,
        "{\"run_id\":\"run_1\",\"type\":\"a\",\"event_seq\":1}\n{\"run_id\":\"run_1\",\"type\":\"b\",\"event_seq\":2}\n"
    );
    assert_eq!(file.matches('\n').count(), 2);
    assert_eq!(seq_of(&lines[0]), 1);
    assert_eq!(seq_of(&lines[1]), 2);
}

#[test]
fn reopen_after_three_appends_continues() {
    let mut first = EventSequencer::from_lines(&Vec::new()).expect("open");
    let mut lines = frame_all(&mut first, &["{\"n\":1}", "{\"n\":2}", "{\"n\":3}"]);
    drop(first);
    let existing: Vec<String> = lines.iter().map(|l| l.trim_end_matches('\n').to_string()).collect();
    let mut second = EventSequencer::from_lines(&existing).expect("reopen");
    lines.push(second.frame("{\"n\":4}").expect("frame"));
    second.advance();
    assert_eq!(lines.len(), 4);
    let seqs: Vec<u64> = lines.iter().map(|l| seq_of(l)).collect();
    assert_eq!(seqs, vec![1, 2, 3, 4]);
}

#[test]
fn corrupted_line_is_skipped_when_reopening() {
    let lines = vec![
        "{\"event_seq\":1}".to_string(),
        "not json".to_string(),
        "{\"event_seq\":3}".to_string(),
    ];
    let seq = EventSequencer::from_lines(&lines).expect("open");
    assert_eq!(seq.next_seq(), 4);
}

#[test]
fn lines_without_event_seq_start_at_one() {
    let lines = vec![
        "{\"v\":\"nexus/1\",\"run_id\":\"run_1\",\"type\":\"test\"}".to_string(),
        "   ".to_string(),
        String::new(),
    ];
    assert_eq!(EventSequencer::from_lines(&lines).expect("open").next_seq(), 1);
}

#[test]
fn largest_sequence_number_wins() {
    let lines = vec!["{\"event_seq\":7}".to_string(), "{\"event_seq\":2}".to_string()];
    assert_eq!(EventSequencer::from_lines(&lines).expect("open").next_seq(), 8);
    let full = vec![format!("{{\"event_seq\":{}}}", u64::MAX)];
    assert!(matches!(
        EventSequencer::from_lines(&full),
        Err(NexusError::ValidationError { .. })
    ));
}

#[test]
fn framing_refuses_non_objects_and_keeps_the_number() {
    let mut seq = EventSequencer::from_lines(&Vec::new()).expect("open");
    assert!(matches!(seq.frame("[1]"), Err(NexusError::Serialization(_))));
    assert_eq!(seq.next_seq(), 1);
    assert_eq!(seq.frame("{}").unwrap(), "{\"event_seq\":1}\n");
    assert_eq!(seq.next_seq(), 1);
    seq.advance();
    assert_eq!(seq.next_seq(), 2);
    assert_eq!(seq.frame("{\"a\":1}").unwrap(), "{\"a\":1,\"event_seq\":2}\n");
}

fn event(run: &str, ty: &str) -> RunEvent {
    RunEvent::new(run, ty).expect("clock")
}

#[test]
fn reading_reports_corrupted_lines_by_number() {
    let content = "{\"event_seq\":1}\nnot json\n{\"event_seq\":3}\n";
    let mut cursor = LineCursor::new();
    let mut results: Vec<Result<RunEvent, NexusError>> = Vec::new();
    for line in content.lines() {
        match cursor.step(line) {
            LineStep::Skip => {}
            LineStep::Decode { line: n } => {
                if line.starts_with('{') {
                    results.push(Ok(event("run_1", "t")));
                } else {
                    results.push(Err(corrupted(n, "expected value")));
                }
            }
        }
    }
    assert_eq!(results.len(), 3);
    assert!(results[0].is_ok());
    assert!(matches!(results[1], Err(NexusError::EventLogCorrupted { line: 2, .. })));
    assert!(results[2].is_ok());
    let events = load_all(results).expect("load");
    assert_eq!(events.len(), 2);
}

#[test]
fn blank_lines_are_skipped_but_counted() {
    let mut cursor = LineCursor::new();
    assert!(matches!(cursor.step("{}"), LineStep::Decode { line: 1 }));
    assert!(matches!(cursor.step("  \t"), LineStep::Skip));
    assert!(matches!(cursor.step("{}"), LineStep::Decode { line: 3 }));
    assert_eq!(cursor.line_number(), 3);
}

#[test]
fn load_all_stops_at_an_io_error() {
    let results = vec![
        Ok(event("run_1", "a")),
        Err(NexusError::IoError {
            operation: "read line".to_string(),
            path: "x".to_string(),
            message: "boom".to_string(),
        }),
        Ok(event("run_1", "b")),
    ];
    assert!(matches!(load_all(results), Err(NexusError::IoError { .. })));
}

#[test]
fn filters_keep_matches_and_errors() {
    let results = vec![
        Ok(event("run_A", "run.started")),
        Ok(event("run_B", "run.started")),
        Err(corrupted(3, "bad")),
        Ok(event("run_A", "run.completed")),
    ];
    let by_run = filter_by_run(results, "run_A");
    assert_eq!(by_run.len(), 3);
    assert!(by_run[1].is_err());
    let ok: Vec<RunEvent> = by_run.into_iter().filter_map(|r| r.ok()).collect();
    assert!(ok.iter().all(|e| e.run_id == "run_A"));
    let results = vec![
        Ok(event("run_1", "run.started")),
        Ok(event("run_1", "action.proposed")),
        Ok(event("run_1", "run.completed")),
    ];
    let by_type = filter_by_type(results, "run.started");
    assert_eq!(by_type.len(), 1);
    assert_eq!(by_type[0].as_ref().unwrap().event_type, "run.started");
}

#[test]
fn sequencer_continues_after_the_largest_number() {
    let seq = EventSequencer::from_seqs(&vec![Some(3), None, Some(9), Some(2)]).expect("open");
    assert_eq!(seq.next_seq(), 10);
    assert_eq!(EventSequencer::from_seqs(&Vec::new()).expect("open").next_seq(), 1);
    assert!(EventSequencer::from_seqs(&vec![Some(u64::MAX)]).is_err());
}
