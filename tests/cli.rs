use nexus::cli::{api_key_from_env, validate_task, Cli};
use nexus::error::{exit_code_from_anyhow, NexusError};

#[test]
fn test_log_level() {
    let cli = Cli {
        task: "task".to_string(),
        config: ".nexus/settings.json".to_string(),
        dry_run: false,
        verbose: 0,
    };
    assert_eq!(cli.log_level(), "warn");
    let cli = Cli { verbose: 1, ..cli };
    assert_eq!(cli.log_level(), "info");
    let cli = Cli { verbose: 2, ..cli };
    assert_eq!(cli.log_level(), "debug");
    let cli = Cli { verbose: 3, ..cli };
    assert_eq!(cli.log_level(), "trace");
}

#[test]
fn tasks_are_trimmed_and_must_not_be_blank() {
    assert_eq!(validate_task("  rename foo to bar \n"), Ok("rename foo to bar".to_string()));
    assert_eq!(validate_task(" \t "), Err("task description cannot be empty".to_string()));
}

#[test]
fn empty_api_key_counts_as_missing() {
    assert_eq!(api_key_from_env(Some("sk-test-key".to_string())), Some("sk-test-key".to_string()));
    assert_eq!(api_key_from_env(Some(String::new())), None);
    assert_eq!(api_key_from_env(None), None);
}

#[test]
fn exit_codes_follow_the_error() {
    assert_eq!(NexusError::MissingApiKey.exit_code(), 78);
    assert_eq!(NexusError::EventLogLocked.exit_code(), 75);
    assert_eq!(NexusError::InvalidRunId("x".to_string()).exit_code(), 64);
    assert_eq!(NexusError::EventLogCorrupted { line: 2, message: "m".to_string() }.exit_code(), 65);
    let read = NexusError::IoError {
        operation: "read line".to_string(),
        path: "p".to_string(),
        message: "m".to_string(),
    };
    assert_eq!(read.exit_code(), 66);
    let write = NexusError::IoError {
        operation: "write newline".to_string(),
        path: "p".to_string(),
        message: "m".to_string(),
    };
    assert_eq!(write.exit_code(), 74);
    assert_eq!(exit_code_from_anyhow(Some(&NexusError::MissingApiKey), false), 78);
    assert_eq!(exit_code_from_anyhow(None, true), 74);
    assert_eq!(exit_code_from_anyhow(None, false), 1);
}
