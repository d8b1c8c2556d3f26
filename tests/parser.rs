use nexus::action::{
    ActionDetails, ActionKindTag, FallbackStrategy, MatchMode, OnConflict, PatchDetails, PatchFormat,
};
use nexus::error::NexusError;
use nexus::parser::{
    extract_json_arrays, looks_like_action_array, normalize_line_endings, ParsedResponse,
    ResponseParser,
};

const RUN_ID: &str = "run-123";

#[test]
fn parse_unified_diffs_from_fenced_block() {
    let parser = ResponseParser::new();
    let response = "Patch follows:\n```diff\n--- a/src/lib.rs\n+++ b/src/lib.rs\n@@ -1 +1 @@\n-old\n+new\n```\n";

    let actions = parser.parse_unified_diffs(response, RUN_ID);

    assert_eq!(actions.len(), 1);
    let action = &actions[0];
    assert_eq!(action.id, "run-123-action-1");
    assert_eq!(action.kind, ActionKindTag::Patch);
    match &action.details {
        ActionDetails::Patch(details) => {
            assert_eq!(details.format, PatchFormat::Unified);
            assert!(details.diff.as_ref().unwrap().contains("--- a/src/lib.rs"));
            assert_eq!(details.files, vec!["src/lib.rs".to_string()]);
        }
        _ => panic!("expected patch details"),
    }
}

#[test]
fn parse_unified_diffs_from_raw_diff() {
    let parser = ResponseParser::new();
    let response = "--- a/src/main.rs\n+++ b/src/main.rs\n@@ -1 +1 @@\n-old\n+new\n";

    let actions = parser.parse_unified_diffs(response, RUN_ID);

    assert_eq!(actions.len(), 1);
    match &actions[0].details {
        ActionDetails::Patch(details) => {
            assert_eq!(details.format, PatchFormat::Unified);
            assert_eq!(details.files, vec!["src/main.rs".to_string()]);
        }
        _ => panic!("expected patch details"),
    }
}

#[test]
fn parse_multiple_raw_diffs() {
    let parser = ResponseParser::new();
    let response = "--- a/src/main.rs\n+++ b/src/main.rs\n@@ -1 +1 @@\n-old\n+new\n\n--- a/src/lib.rs\n+++ b/src/lib.rs\n@@ -1 +1 @@\n-old\n+new\n";

    let actions = parser.parse_unified_diffs(response, RUN_ID);

    assert_eq!(actions.len(), 2);
    match &actions[0].details {
        ActionDetails::Patch(details) => {
            assert_eq!(details.files, vec!["src/main.rs".to_string()]);
        }
        _ => panic!("expected patch details"),
    }
    match &actions[1].details {
        ActionDetails::Patch(details) => {
            assert_eq!(details.files, vec!["src/lib.rs".to_string()]);
        }
        _ => panic!("expected patch details"),
    }
}

#[test]
fn parse_search_replace_blocks() {
    let parser = ResponseParser::new();
    let response = "<<<<<<< SEARCH src/lib.rs\nold\n=======\nnew\n>>>>>>> REPLACE\n";

    let actions = parser.parse_search_replace(response, RUN_ID);

    assert_eq!(actions.len(), 1);
    match &actions[0].details {
        ActionDetails::Patch(details) => {
            assert_eq!(details.format, PatchFormat::SearchReplace);
            let blocks = details.search_replace_blocks.as_ref().unwrap();
            assert_eq!(blocks.len(), 1);
            assert_eq!(blocks[0].file, "src/lib.rs");
            assert_eq!(blocks[0].search, "old");
            assert_eq!(blocks[0].replace, "new");
        }
        _ => panic!("expected patch details"),
    }
}

#[test]
fn parse_json_actions_from_fenced_block() {
    let parser = ResponseParser::new();
    let response = "```json\n[\n  {\"id\":\"action-1\",\"summary\":\"Update\",\"kind\":\"patch\",\"details\":{\"format\":\"unified\",\"diff\":\"--- a/src/lib.rs\\n+++ b/src/lib.rs\"}}\n]\n```";

    let json = parser.parse_json_actions(response).expect("json parse");
    let actions: Vec<serde_json::Value> = serde_json::from_str(&json).expect("json parse");

    assert_eq!(actions.len(), 1);
    assert_eq!(actions[0]["id"], "action-1");
    assert_eq!(actions[0]["kind"], "patch");
}

#[test]
fn parse_orchestrates_fallbacks() {
    let parser = ResponseParser::new();
    let response = "<<<<<<< SEARCH src/lib.rs\nold\n=======\nnew\n>>>>>>> REPLACE\n";

    let actions = match parser.parse(response, RUN_ID).expect("parse") {
        ParsedResponse::Actions(a) => a,
        other => panic!("unexpected {other:?}"),
    };

    assert_eq!(actions.len(), 1);
    match &actions[0].details {
        ActionDetails::Patch(details) => {
            assert_eq!(details.format, PatchFormat::SearchReplace);
        }
        _ => panic!("expected patch details"),
    }
}

#[test]
fn test_parse_empty_response() {
    let parser = ResponseParser::new();
    let parsed = parser.parse("", RUN_ID).expect("parse");
    assert!(matches!(parsed, ParsedResponse::Actions(a) if a.is_empty()));
}

#[test]
fn test_extract_files_from_diff() {
    let parser = ResponseParser::new();
    let diff = "--- a/src/lib.rs\n+++ b/src/lib.rs\n@@ -1 +1 @@\n-old\n+new\n";
    let files = parser.extract_files_from_diff(diff);
    assert_eq!(files, vec!["src/lib.rs".to_string()]);
}

#[test]
fn test_extract_files_multiple() {
    let parser = ResponseParser::new();
    let diff = "--- a/src/main.rs\n+++ b/src/main.rs\n@@ -1 +1 @@\n-old\n+new\n\n--- a/src/lib.rs\n+++ b/src/lib.rs\n@@ -1 +1 @@\n-old\n+new\n";
    let files = parser.extract_files_from_diff(diff);
    assert_eq!(files, vec!["src/main.rs".to_string(), "src/lib.rs".to_string()]);
}

#[test]
fn test_extract_files_handles_dev_null() {
    let parser = ResponseParser::new();
    let diff = "--- /dev/null\n+++ b/src/new.rs\n";
    let files = parser.extract_files_from_diff(diff);
    assert_eq!(files, vec!["src/new.rs".to_string()]);
}

#[test]
fn test_generate_summary_single_file() {
    let parser = ResponseParser::new();
    let diff = "--- a/src/lib.rs\n+++ b/src/lib.rs\n";
    let files = vec!["src/lib.rs".to_string()];
    let summary = parser.generate_summary_from_diff(diff, &files);
    assert_eq!(summary, "Apply patch to src/lib.rs");
}

#[test]
fn test_generate_summary_multiple_files() {
    let parser = ResponseParser::new();
    let diff = "--- a/src/main.rs\n+++ b/src/main.rs\n";
    let files = vec![
        "src/main.rs".to_string(),
        "src/lib.rs".to_string(),
        "src/utils.rs".to_string(),
    ];
    let summary = parser.generate_summary_from_diff(diff, &files);
    let remaining = files.len().saturating_sub(1);
    let expected = format!("Apply patch to {} and {} other files", files[0], remaining);
    assert_eq!(summary, expected);
}

#[test]
fn test_generate_summary_empty_files() {
    let parser = ResponseParser::new();
    let diff = "diff-only";
    let files: Vec<String> = Vec::new();
    let summary = parser.generate_summary_from_diff(diff, &files);
    assert_eq!(summary, "Apply patch");
}

#[test]
fn one_fenced_diff_gives_one_patch_action() {
    let parser = ResponseParser::new();
    let response = "Here you go:\n```diff\n--- a/src/lib.rs\n+++ b/src/lib.rs\n@@ -1 +1 @@\n-a\n+b\n```\nDone.";
    let actions = match parser.parse(response, "run_42").expect("parse") {
        ParsedResponse::Actions(a) => a,
        other => panic!("unexpected {other:?}"),
    };
    assert_eq!(actions.len(), 1);
    let a = &actions[0];
    assert_eq!(a.id, "run_42-action-1");
    assert_eq!(a.kind, ActionKindTag::Patch);
    assert_eq!(a.summary, "Apply patch to src/lib.rs");
    assert_eq!(a.risk, 1);
    assert!(a.requires_approval);
    assert!(a.policy_tags.is_empty() && a.created_by.is_none() && a.why.is_none());
    match &a.details {
        ActionDetails::Patch(d) => {
            assert_eq!(d.format, PatchFormat::Unified);
            assert_eq!(d.files, vec!["src/lib.rs".to_string()]);
            assert_eq!(
                d.diff.as_deref(),
                Some("--- a/src/lib.rs\n+++ b/src/lib.rs\n@@ -1 +1 @@\n-a\n+b")
            );
        }
        _ => panic!("expected patch details"),
    }
}

#[test]
fn parsing_twice_gives_the_same_actions() {
    let parser = ResponseParser::new();
    let response = "--- a/x.rs\n+++ b/x.rs\n-1\n+2\n--- a/y.rs\n+++ b/y.rs\n-3\n+4\n";
    let render = |p: ParsedResponse| format!("{p:?}");
    let first = render(parser.parse(response, "run_7").unwrap());
    let second = render(parser.parse(response, "run_7").unwrap());
    assert_eq!(first, second);
    assert!(first.contains("run_7-action-2"));
}

#[test]
fn invalid_run_id_is_refused() {
    let parser = ResponseParser::new();
    assert!(matches!(parser.parse("x", "a/b"), Err(NexusError::InvalidRunId(m)) if m == "a/b"));
    assert!(matches!(parser.parse("x", "  "), Err(NexusError::InvalidRunId(_))));
}

#[test]
fn search_replace_without_path_and_crlf() {
    let parser = ResponseParser::new();
    let response = "<<<<<<< SEARCH\r\nold line\r\n=======\r\nnew line\r\n>>>>>>> REPLACE";
    let actions = parser.parse_search_replace(response, "r1");
    assert_eq!(actions.len(), 1);
    assert_eq!(actions[0].summary, "Apply search/replace block");
    match &actions[0].details {
        ActionDetails::Patch(d) => {
            assert!(d.files.is_empty());
            let b = &d.search_replace_blocks.as_ref().unwrap()[0];
            assert_eq!(b.file, "");
            assert_eq!(b.search, "old line");
            assert_eq!(b.replace, "new line");
            assert_eq!(b.match_mode, MatchMode::Exact);
        }
        _ => panic!("expected patch details"),
    }
}

#[test]
fn summary_without_files_counts_lines() {
    let parser = ResponseParser::new();
    let none: Vec<String> = Vec::new();
    assert_eq!(parser.generate_summary_from_diff("a\nb\n", &none), "Apply patch");
    assert_eq!(parser.generate_summary_from_diff("a\nb\nc", &none), "Apply multi-file patch");
    assert_eq!(parser.generate_action_id("r", 12), "r-action-12");
}

#[test]
fn extract_files_strips_prefixes_and_dedupes() {
    let parser = ResponseParser::new();
    let diff = "--- a/a/x.rs\t2024-01-01\n+++ b/x.rs\n--- a/x.rs\n+++ \n--- /dev/null\n+++ b/b/y\n--- a/\n";
    assert_eq!(
        parser.extract_files_from_diff(diff),
        vec!["a/x.rs".to_string(), "x.rs".to_string(), "b/y".to_string()]
    );
    assert_eq!(parser.extract_files_from_diff("--- a/b/x\n"), vec!["b/x".to_string()]);
}

#[test]
fn inline_json_arrays_are_found() {
    let text = "see [1, \"]\"] and [{\"kind\":\"patch\",\"details\":{}}] end";
    let arrays = extract_json_arrays(text);
    assert_eq!(arrays, vec!["[1, \"]\"]".to_string(), "[{\"kind\":\"patch\",\"details\":{}}]".to_string()]);
    assert!(!looks_like_action_array(&arrays[0]));
    assert!(looks_like_action_array(&arrays[1]));
    let parser = ResponseParser::new();
    assert_eq!(parser.parse_json_actions(text).as_deref(), Some(arrays[1].as_str()));
    assert!(matches!(parser.parse(text, "r"), Ok(ParsedResponse::JsonActions(t)) if t == arrays[1]));
    assert_eq!(normalize_line_endings("a\r\nb\rc\r\n"), "a\nb\rc\n");
}

#[test]
fn search_replace_path_stays_on_the_marker_line() {
    let parser = ResponseParser::new();
    let response = "<<<<<<< SEARCH\nfoo\nold\n=======\nnew\n>>>>>>> REPLACE";
    let actions = parser.parse_search_replace(response, "r1");
    assert_eq!(actions.len(), 1);
    match &actions[0].details {
        ActionDetails::Patch(d) => {
            let b = &d.search_replace_blocks.as_ref().unwrap()[0];
            assert_eq!(b.file, "");
            assert_eq!(b.search, "foo\nold");
            assert_eq!(b.replace, "new");
        }
        _ => panic!("expected patch details"),
    }
    let tabbed = "<<<<<<< SEARCH\tsrc/a.rs\nold\n=======\nnew\n>>>>>>> REPLACE";
    let actions = parser.parse_search_replace(tabbed, "r1");
    assert_eq!(actions[0].summary, "Apply search/replace to src/a.rs");
}

#[test]
fn test_patch_details_defaults() {
    let details = PatchDetails::default();
    assert_eq!(details.format, PatchFormat::Unified);
    assert_eq!(details.on_conflict, OnConflict::Fail);
    assert_eq!(details.fallback_strategy, FallbackStrategy::NoFallback);
}
