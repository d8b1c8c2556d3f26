use nexus::action::PatchFormat;
use nexus::prompt::{
    language_from_path, map_extension_to_language, FileContext, PromptBuilder,
    DEFAULT_SYSTEM_PROMPT, ROLE_SYSTEM, ROLE_USER,
};

#[test]
fn new_uses_default_system_prompt() {
    let builder = PromptBuilder::new();
    assert_eq!(builder.system_prompt(), DEFAULT_SYSTEM_PROMPT);
}

#[test]
fn with_system_prompt_overrides_default() {
    let builder = PromptBuilder::new().with_system_prompt("custom prompt");
    assert_eq!(builder.system_prompt(), "custom prompt");
}

#[test]
fn build_messages_includes_system_and_user_messages() {
    let files = vec![FileContext {
        path: "src/main.rs".to_string(),
        content: "fn main() {}\n".to_string(),
        language: None,
    }];

    let messages =
        PromptBuilder::new().build_messages("Refactor main", &files, PatchFormat::Unified);

    assert_eq!(messages.len(), 2);
    assert_eq!(messages[0].role, ROLE_SYSTEM);
    assert_eq!(messages[1].role, ROLE_USER);
    assert!(messages[1].content.contains("## Files"));
    assert!(messages[1].content.contains("### src/main.rs"));
    assert!(messages[1].content.contains("```rust\nfn main() {}\n```"));
    assert!(messages[1].content.contains("## Task\nRefactor main"));
    assert!(messages[1].content.contains("## Preferred Format\nunified_diff"));
}

#[test]
fn build_messages_uses_explicit_language_hint() {
    let files = vec![FileContext {
        path: "Cargo.toml".to_string(),
        content: "[package]\nname = \"nexus\"\n".to_string(),
        language: Some("toml".to_string()),
    }];

    let messages =
        PromptBuilder::new().build_messages("Update manifest", &files, PatchFormat::SearchReplace);

    assert!(messages[1].content.contains("```toml\n[package]\nname = \"nexus\"\n```"));
    assert!(messages[1].content.contains("## Preferred Format\nsearch_replace"));
}

#[test]
fn build_messages_supports_whole_file_format() {
    let files = vec![FileContext {
        path: "README.md".to_string(),
        content: "# Nexus\n".to_string(),
        language: None,
    }];

    let messages =
        PromptBuilder::new().build_messages("Rewrite readme", &files, PatchFormat::WholeFile);

    assert!(messages[1].content.contains("## Preferred Format\nwhole_file"));
    assert!(messages[1].content.contains("```markdown\n# Nexus\n```"));
}

#[test]
fn user_message_is_exact() {
    let files = vec![
        FileContext { path: "a.py".to_string(), content: "x = 1".to_string(), language: Some("  ".to_string()) },
        FileContext { path: "Makefile".to_string(), content: "all:\n".to_string(), language: None },
    ];
    let messages = PromptBuilder::new().build_messages("Do it", &files, PatchFormat::Unified);
    assert_eq!(
        messages[1].content,
        "## Files\n\n### a.py\n```python\nx = 1\n```\n\n### Makefile\n```text\nall:\n```\n\n## Task\nDo it\n\n## Preferred Format\nunified_diff\n"
    );
    assert_eq!(messages[0].content, DEFAULT_SYSTEM_PROMPT);
}

#[test]
fn languages_follow_the_extension() {
    assert_eq!(language_from_path("README.MD"), "markdown");
    assert_eq!(language_from_path("src/x.HPP"), "cpp");
    assert_eq!(language_from_path("notes.weird"), "weird");
    assert_eq!(language_from_path(".bashrc"), "text");
    assert_eq!(language_from_path("dir/file"), "text");
    assert_eq!(map_extension_to_language("kts"), "kotlin");
    assert_eq!(map_extension_to_language("yml"), "yaml");
    assert_eq!(map_extension_to_language("sh"), "bash");
}
