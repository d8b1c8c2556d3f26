use nexus::error::SettingsValidationError;
use nexus::settings::{
    check_settings_text, finish_settings, merge_with_defaults, validate_path_pattern,
    AutopilotConfig, NexusSettings, PermissionMode,
};

#[test]
fn test_default_settings() {
    let settings = NexusSettings::default();
    assert_eq!(settings.schema_version, "1.0");
    assert_eq!(settings.permission_mode, PermissionMode::Default);
    assert_eq!(
        settings.deny_paths,
        vec![
            ".env*".to_string(),
            "**/.ssh/**".to_string(),
            "**/.aws/**".to_string(),
            "**/.npmrc".to_string(),
            "**/.pypirc".to_string(),
        ]
    );
    assert!(settings.allow_paths_write.is_empty());
    assert!(settings.allow_commands.is_empty());
    assert!(settings.ask_commands.is_empty());
    assert_eq!(
        settings.deny_commands,
        vec![vec!["sudo".to_string()], vec!["rm".to_string()]]
    );
    assert!(settings.autopilot.is_none());
}

#[test]
fn test_validate_valid_settings() {
    let settings = NexusSettings::default();
    assert!(settings.validate().is_ok());
}

#[test]
fn test_validate_invalid_schema_version() {
    let settings = NexusSettings {
        schema_version: "2.0".to_string(),
        ..Default::default()
    };
    assert!(matches!(
        settings.validate(),
        Err(SettingsValidationError::InvalidSchemaVersion(_))
    ));
}

#[test]
fn test_validate_path_traversal() {
    let mut settings = NexusSettings::default();
    settings.deny_paths.push("../etc/passwd".to_string());
    assert!(matches!(
        settings.validate(),
        Err(SettingsValidationError::InvalidPathPattern { .. })
    ));
}

#[test]
fn test_validate_absolute_path() {
    let mut settings = NexusSettings::default();
    settings.allow_paths_write.push("/etc/passwd".to_string());
    assert!(matches!(
        settings.validate(),
        Err(SettingsValidationError::InvalidPathPattern { .. })
    ));
}

#[test]
fn test_validate_glob_absolute_allowed() {
    assert!(validate_path_pattern("/**/foo").is_ok());
}

#[test]
fn test_validate_windows_drive_path() {
    let result = validate_path_pattern("C:\\Users\\test");
    assert!(matches!(
        result,
        Err(SettingsValidationError::InvalidPathPattern { reason, .. })
        if reason.contains("Windows drive")
    ));
}

#[test]
fn test_validate_windows_unc_path() {
    let result = validate_path_pattern("\\\\server\\share\\file");
    assert!(matches!(
        result,
        Err(SettingsValidationError::InvalidPathPattern { reason, .. })
        if reason.contains("UNC")
    ));
}

#[test]
fn test_validate_control_characters() {
    let result = validate_path_pattern("foo\x7Fbar");
    assert!(matches!(
        result,
        Err(SettingsValidationError::InvalidPathPattern { reason, .. })
        if reason.contains("control characters")
    ));
}

fn reason_of(pattern: &str) -> Option<String> {
    match validate_path_pattern(pattern) {
        Ok(()) => None,
        Err(SettingsValidationError::InvalidPathPattern { path, reason }) => {
            assert_eq!(path, pattern);
            Some(reason)
        }
        Err(other) => panic!("unexpected error {other:?}"),
    }
}

#[test]
fn path_safety_rejects_each_unsafe_pattern() {
    assert_eq!(reason_of("../x").as_deref(), Some("path traversal (..) not allowed"));
    assert_eq!(reason_of("/etc/x").as_deref(), Some("absolute paths not allowed in patterns"));
    assert_eq!(reason_of("C:\\x").as_deref(), Some("Windows drive paths not allowed in patterns"));
    assert_eq!(reason_of("\\\\server\\x").as_deref(), Some("UNC paths not allowed in patterns"));
    assert_eq!(reason_of("foo\x7fbar").as_deref(), Some("control characters not allowed in patterns"));
}

#[test]
fn path_safety_accepts_safe_patterns() {
    assert_eq!(reason_of(".env*"), None);
    assert_eq!(reason_of("**/.ssh/**"), None);
    assert_eq!(reason_of("/**/foo"), None);
    assert_eq!(reason_of("src/lib.rs"), None);
}

#[test]
fn path_safety_checks_in_order() {
    assert_eq!(reason_of("/../x").as_deref(), Some("path traversal (..) not allowed"));
    assert_eq!(reason_of("c:\u{1}").as_deref(), Some("Windows drive paths not allowed in patterns"));
    assert_eq!(reason_of("a\tb").as_deref(), Some("control characters not allowed in patterns"));
    assert_eq!(reason_of("a\u{85}b").as_deref(), Some("control characters not allowed in patterns"));
}

#[test]
fn autopilot_limits_are_checked() {
    let mut settings = NexusSettings::default();
    let mut auto = AutopilotConfig::default();
    assert_eq!(auto.max_batch_cu, 40);
    assert_eq!(auto.max_batch_steps, 8);
    assert!(!auto.auto_approve_patches && !auto.auto_approve_tests && !auto.auto_handoffs);
    auto.max_batch_cu = 0;
    settings.autopilot = Some(auto);
    assert!(matches!(settings.validate(), Err(SettingsValidationError::InvalidMaxBatchCu(0))));
    auto.max_batch_cu = 1;
    auto.max_batch_steps = 0;
    settings.autopilot = Some(auto);
    assert!(matches!(settings.validate(), Err(SettingsValidationError::InvalidMaxBatchSteps(0))));
    auto.max_batch_steps = 1;
    settings.autopilot = Some(auto);
    assert!(settings.validate().is_ok());
}

#[test]
fn merge_fills_only_empty_lists() {
    let mut settings = NexusSettings::default();
    settings.deny_paths.clear();
    settings.deny_commands = vec![vec!["git".to_string(), "push".to_string()]];
    settings.allow_paths_write.push("src/**".to_string());
    merge_with_defaults(&mut settings);
    assert_eq!(settings.deny_paths.len(), 5);
    assert_eq!(settings.deny_paths[0], ".env*");
    assert_eq!(settings.deny_commands, vec![vec!["git".to_string(), "push".to_string()]]);
    assert_eq!(settings.allow_paths_write, vec!["src/**".to_string()]);
}

#[test]
fn empty_settings_text_is_a_parse_error() {
    assert!(check_settings_text("s.json", "{}").is_ok());
    match check_settings_text("s.json", " \n\t ") {
        Err(nexus::error::NexusError::ConfigParse { path, message }) => {
            assert_eq!(path, "s.json");
            assert_eq!(message, "settings file is empty");
        }
        other => panic!("unexpected {other:?}"),
    }
}

#[test]
fn finishing_settings_merges_then_validates() {
    let mut parsed = NexusSettings::default();
    parsed.deny_paths.clear();
    let done = finish_settings("s.json", parsed).expect("valid settings");
    assert_eq!(done.deny_paths.len(), 5);
    let mut bad = NexusSettings::default();
    bad.allow_paths_write.push("/etc".to_string());
    match finish_settings("s.json", bad) {
        Err(nexus::error::NexusError::ConfigValidation { path, source }) => {
            assert_eq!(path, "s.json");
            assert!(matches!(source, SettingsValidationError::InvalidPathPattern { .. }));
        }
        other => panic!("unexpected {other:?}"),
    }
}
