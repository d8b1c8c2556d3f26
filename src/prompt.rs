//! Builds the chat messages of a run: a system prompt, and a user message that lists the
//! files, the task and the preferred patch format.
use crate::action::PatchFormat;
use crate::text::{
    ends_with, str_ends_with, str_eq, trim, trim_str,
};
use vstd::prelude::*;
use vstd::string::*;

verus! {

pub const DEFAULT_SYSTEM_PROMPT: &'static str = "You are an expert code refactoring assistant. Your task is to generate precise code changes based on the user's request.

IMPORTANT RULES:
1. Output changes as unified diffs (preferred) or search/replace blocks
2. Use the exact file paths provided
3. Preserve existing code style and formatting
4. Make minimal, focused changes
5. Do not add unnecessary modifications

OUTPUT FORMAT (choose one):

Option A - Unified Diff:
```diff
--- a/path/to/file.rs
+++ b/path/to/file.rs
@@ -10,5 +10,6 @@
 existing context
-old line to remove
+new line to add
 more context
```

Option B - Search/Replace:
File: path/to/file.rs
<<<<<<< SEARCH
exact code to find
=======
replacement code
>>>>>>> REPLACE

Always include enough context for unique matching.
";

pub const ROLE_SYSTEM: &'static str = "system";
pub const ROLE_USER: &'static str = "user";

/// A file handed to the model, with an optional language for its code fence.
#[derive(Debug, Clone)]
pub struct FileContext {
    pub path: String,
    pub content: String,
    pub language: Option<String>,
}

/// One message of the prompt.
#[derive(Debug, Clone)]
pub struct ChatMessage {
    pub role: String,
    pub content: String,
}

/// The extension of a path as `Path::extension` gives it (and `OsStr::to_str` reads it).
pub uninterp spec fn extension_of(path: Seq<char>) -> Option<Seq<char>>;

/// The lowercase form of `s` as `str::to_lowercase` gives it.
pub uninterp spec fn lower_of(s: Seq<char>) -> Seq<char>;

/// Relies on `std::path::Path::extension` and `OsStr::to_str`.
#[verifier::external_body]
fn path_extension(path: &str) -> (r: Option<String>)
    ensures
        match r {
            Some(e) => extension_of(path@) == Some(e@),
            None => extension_of(path@) is None,
        },
{
    std::path::Path::new(path).extension().and_then(|e| e.to_str()).map(|e| e.to_string())
}

/// Relies on `str::to_lowercase`: the result depends on the characters alone, and an
/// empty string stays empty.
#[verifier::external_body]
fn lowercase(s: &str) -> (r: String)
    ensures
        r@ == lower_of(s@),
        s@.len() == 0 ==> r@.len() == 0,
{
    s.to_lowercase()
}

/// The code-fence language of a lowercase extension; an unknown one stands for itself.
pub open spec fn language_for(ext: Seq<char>) -> Seq<char> {
    if ext == "rs"@ {
        "rust"@
    } else if ext == "md"@ {
        "markdown"@
    } else if ext == "yml"@ || ext == "yaml"@ {
        "yaml"@
    } else if ext == "toml"@ {
        "toml"@
    } else if ext == "json"@ {
        "json"@
    } else if ext == "js"@ {
        "javascript"@
    } else if ext == "ts"@ {
        "typescript"@
    } else if ext == "tsx"@ {
        "tsx"@
    } else if ext == "jsx"@ {
        "jsx"@
    } else if ext == "py"@ {
        "python"@
    } else if ext == "go"@ {
        "go"@
    } else if ext == "rb"@ {
        "ruby"@
    } else if ext == "java"@ {
        "java"@
    } else if ext == "kt"@ || ext == "kts"@ {
        "kotlin"@
    } else if ext == "c"@ || ext == "h"@ {
        "c"@
    } else if ext == "cpp"@ || ext == "cc"@ || ext == "cxx"@ || ext == "hpp"@ || ext == "hh"@
        || ext == "hxx"@ {
        "cpp"@
    } else if ext == "cs"@ {
        "csharp"@
    } else if ext == "sh"@ {
        "bash"@
    } else {
        ext
    }
}

/// The code-fence language of a lowercase extension.
pub fn map_extension_to_language(extension: &str) -> (r: String)
    ensures
        r@ == language_for(extension@),
{
    let e = extension;
    let name = if str_eq(e, "rs") {
        "rust"
    } else if str_eq(e, "md") {
        "markdown"
    } else if str_eq(e, "yml") || str_eq(e, "yaml") {
        "yaml"
    } else if str_eq(e, "toml") {
        "toml"
    } else if str_eq(e, "json") {
        "json"
    } else if str_eq(e, "js") {
        "javascript"
    } else if str_eq(e, "ts") {
        "typescript"
    } else if str_eq(e, "tsx") {
        "tsx"
    } else if str_eq(e, "jsx") {
        "jsx"
    } else if str_eq(e, "py") {
        "python"
    } else if str_eq(e, "go") {
        "go"
    } else if str_eq(e, "rb") {
        "ruby"
    } else if str_eq(e, "java") {
        "java"
    } else if str_eq(e, "kt") || str_eq(e, "kts") {
        "kotlin"
    } else if str_eq(e, "c") || str_eq(e, "h") {
        "c"
    } else if str_eq(e, "cpp") || str_eq(e, "cc") || str_eq(e, "cxx") || str_eq(e, "hpp") || str_eq(
        e,
        "hh",
    ) || str_eq(e, "hxx") {
        "cpp"
    } else if str_eq(e, "cs") {
        "csharp"
    } else if str_eq(e, "sh") {
        "bash"
    } else {
        e
    };
    String::from_str(name)
}

/// The code-fence language a path suggests: its extension trimmed and lowercased, mapped
/// to a language; `text` where there is none.
pub open spec fn path_language(path: Seq<char>) -> Seq<char> {
    let ext = match extension_of(path) {
        Some(e) => e,
        None => "text"@,
    };
    let n = lower_of(trim(ext));
    if n.len() == 0 {
        "text"@
    } else {
        language_for(n)
    }
}

/// The code-fence language of a path.
pub fn language_from_path(path: &str) -> (r: String)
    ensures
        r@ == path_language(path@),
{
    let ext = match path_extension(path) {
        Some(e) => e,
        None => String::from_str("text"),
    };
    let t = trim_str(ext.as_str());
    let n = lowercase(t.as_str());
    if n.as_str().unicode_len() == 0 {
        return String::from_str("text");
    }
    map_extension_to_language(n.as_str())
}

/// The code-fence language of a file: its own language where given and not blank, else
/// what its path suggests.
pub open spec fn file_language(f: FileContext) -> Seq<char> {
    match f.language {
        Some(l) => if trim(l@).len() > 0 {
            trim(l@)
        } else {
            path_language(f.path@)
        },
        None => path_language(f.path@),
    }
}

/// The code-fence language of a file.
pub fn language_hint(file: &FileContext) -> (r: String)
    ensures
        r@ == file_language(*file),
{
    match &file.language {
        Some(l) => {
            let t = trim_str(l.as_str());
            if t.as_str().unicode_len() > 0 {
                return t;
            }
        },
        None => {},
    }
    language_from_path(file.path.as_str())
}

/// The part of the user message for one file.
pub open spec fn file_block(f: FileContext) -> Seq<char> {
    "### "@ + f.path@ + "\n"@ + "```"@ + file_language(f) + "\n"@ + f.content@ + (if ends_with(
        f.content@,
        "\n"@,
    ) {
        Seq::empty()
    } else {
        "\n"@
    }) + "```\n\n"@
}

/// The parts for the files, in order.
pub open spec fn file_blocks(fs: Seq<FileContext>) -> Seq<char>
    decreases fs.len(),
{
    if fs.len() == 0 {
        Seq::empty()
    } else {
        file_blocks(fs.drop_last()) + file_block(fs.last())
    }
}

/// The label of a patch format in the prompt.
pub open spec fn format_label_spec(f: PatchFormat) -> Seq<char> {
    match f {
        PatchFormat::Unified => "unified_diff"@,
        PatchFormat::SearchReplace => "search_replace"@,
        PatchFormat::WholeFile => "whole_file"@,
    }
}

/// The user message for a task.
pub open spec fn user_message(task: Seq<char>, files: Seq<FileContext>, f: PatchFormat) -> Seq<char> {
    "## Files\n\n"@ + file_blocks(files) + "## Task\n"@ + task + "\n\n"@ + "## Preferred Format\n"@
        + format_label_spec(f) + "\n"@
}

/// The label of a patch format in the prompt.
pub fn format_label(preferred_format: PatchFormat) -> (r: &'static str)
    ensures
        r@ == format_label_spec(preferred_format),
{
    match preferred_format {
        PatchFormat::Unified => "unified_diff",
        PatchFormat::SearchReplace => "search_replace",
        PatchFormat::WholeFile => "whole_file",
    }
}

/// Appends the files section.
pub fn push_files_section(message: &mut String, files: &Vec<FileContext>)
    ensures
        final(message)@ == old(message)@ + "## Files\n\n"@ + file_blocks(files@),
{
    message.append("## Files\n\n");
    let ghost start = message@;
    let mut i: usize = 0;
    while i < files.len()
        invariant
            i <= files.len(),
            message@ == start + file_blocks(files@.subrange(0, i as int)),
        decreases files.len() - i,
    {
        proof {
            assert(files@.subrange(0, i + 1).drop_last() =~= files@.subrange(0, i as int));
        }
        let file = &files[i];
        let hint = language_hint(file);
        let ghost before = message@;
        message.append("### ");
        message.append(file.path.as_str());
        message.append("\n");
        message.append("```");
        message.append(hint.as_str());
        message.append("\n");
        message.append(file.content.as_str());
        let ends = str_ends_with(file.content.as_str(), "\n");
        if !ends {
            message.append("\n");
        }
        message.append("```\n\n");
        assert(message@ =~= before + file_block(*file));
        i = i + 1;
    }
    assert(files@.subrange(0, i as int) =~= files@);
}

/// Appends the task section.
pub fn push_task_section(message: &mut String, task: &str)
    ensures
        final(message)@ == old(message)@ + "## Task\n"@ + task@ + "\n\n"@,
{
    message.append("## Task\n");
    message.append(task);
    message.append("\n\n");
}

/// Appends the preferred-format section.
pub fn push_format_section(message: &mut String, preferred_format: PatchFormat)
    ensures
        final(message)@ == old(message)@ + "## Preferred Format\n"@ + format_label_spec(
            preferred_format,
        ) + "\n"@,
{
    message.append("## Preferred Format\n");
    message.append(format_label(preferred_format));
    message.append("\n");
}

/// The user message: files, task, preferred format.
pub fn build_user_message(task: &str, files: &Vec<FileContext>, preferred_format: PatchFormat) -> (r:
    String)
    ensures
        r@ == user_message(task@, files@, preferred_format),
{
    let mut message = String::new();
    push_files_section(&mut message, files);
    push_task_section(&mut message, task);
    push_format_section(&mut message, preferred_format);
    assert(message@ =~= user_message(task@, files@, preferred_format));
    message
}

/// Builds the two messages of a run.
pub struct PromptBuilder {
    system_prompt: String,
}

impl Default for PromptBuilder {
    fn default() -> (r: Self)
        ensures
            r.prompt() == DEFAULT_SYSTEM_PROMPT@,
    {
        PromptBuilder::new()
    }
}

impl PromptBuilder {
    pub closed spec fn prompt(&self) -> Seq<char> {
        self.system_prompt@
    }

    /// A builder with the default system prompt.
    pub fn new() -> (r: Self)
        ensures
            r.prompt() == DEFAULT_SYSTEM_PROMPT@,
    {
        PromptBuilder { system_prompt: String::from_str(DEFAULT_SYSTEM_PROMPT) }
    }

    /// This builder with another system prompt.
    pub fn with_system_prompt(self, prompt: &str) -> (r: Self)
        ensures
            r.prompt() == prompt@,
    {
        PromptBuilder { system_prompt: String::from_str(prompt) }
    }

    /// The system prompt.
    pub fn system_prompt(&self) -> (r: &str)
        ensures
            r@ == self.prompt(),
    {
        self.system_prompt.as_str()
    }

    /// The system message, then the user message.
    pub fn build_messages(
        &self,
        task: &str,
        files: &Vec<FileContext>,
        preferred_format: PatchFormat,
    ) -> (r: Vec<ChatMessage>)
        ensures
            r@.len() == 2,
            r@[0].role@ == ROLE_SYSTEM@,
            r@[0].content@ == self.prompt(),
            r@[1].role@ == ROLE_USER@,
            r@[1].content@ == user_message(task@, files@, preferred_format),
    {
        let user_message = build_user_message(task, files, preferred_format);
        let mut v: Vec<ChatMessage> = Vec::new();
        v.push(
            ChatMessage {
                role: String::from_str(ROLE_SYSTEM),
                content: String::from_str(self.system_prompt.as_str()),
            },
        );
        v.push(ChatMessage { role: String::from_str(ROLE_USER), content: user_message });
        v
    }
}

} // verus!
