//! Settings that bound what the agent may touch, and the checks that guard them.
use crate::error::{NexusError, SettingsValidationError};
use crate::text::{
    char_is_control, chars_of, contains, is_ascii_alpha, is_control, matches_at, starts_with,
    str_contains, trim, trim_str,
};
use vstd::prelude::*;
use vstd::string::*;

verus! {

/// How much the agent may do without asking.
#[derive(Debug, Clone, Copy, PartialEq, Eq, Structural)]
pub enum PermissionMode {
    Default,
    AcceptEdits,
    Autopilot,
}

impl Default for PermissionMode {
    fn default() -> (r: Self)
        ensures
            r == PermissionMode::Default,
    {
        PermissionMode::Default
    }
}

pub const DEFAULT_MAX_BATCH_CU: u32 = 40;
pub const DEFAULT_MAX_BATCH_STEPS: u32 = 8;

/// Limits and toggles of autopilot mode.
#[derive(Debug, Clone, Copy)]
pub struct AutopilotConfig {
    pub max_batch_cu: u32,
    pub max_batch_steps: u32,
    pub auto_approve_patches: bool,
    pub auto_approve_tests: bool,
    pub auto_handoffs: bool,
}

/// Default compute-unit limit of one autopilot batch.
pub fn default_max_batch_cu() -> (r: u32)
    ensures
        r == DEFAULT_MAX_BATCH_CU,
{
    DEFAULT_MAX_BATCH_CU
}

/// Default step limit of one autopilot batch.
pub fn default_max_batch_steps() -> (r: u32)
    ensures
        r == DEFAULT_MAX_BATCH_STEPS,
{
    DEFAULT_MAX_BATCH_STEPS
}

impl Default for AutopilotConfig {
    fn default() -> (r: Self)
        ensures
            r.max_batch_cu == DEFAULT_MAX_BATCH_CU,
            r.max_batch_steps == DEFAULT_MAX_BATCH_STEPS,
            !r.auto_approve_patches,
            !r.auto_approve_tests,
            !r.auto_handoffs,
    {
        AutopilotConfig {
            max_batch_cu: default_max_batch_cu(),
            max_batch_steps: default_max_batch_steps(),
            auto_approve_patches: false,
            auto_approve_tests: false,
            auto_handoffs: false,
        }
    }
}

/// The settings document of a project.
#[derive(Debug, Clone)]
pub struct NexusSettings {
    pub schema_version: String,
    pub permission_mode: PermissionMode,
    pub deny_paths: Vec<String>,
    pub allow_paths_write: Vec<String>,
    pub allow_commands: Vec<Vec<String>>,
    pub ask_commands: Vec<Vec<String>>,
    pub deny_commands: Vec<Vec<String>>,
    pub autopilot: Option<AutopilotConfig>,
}

/// The characters of each string.
pub open spec fn views(v: Seq<String>) -> Seq<Seq<char>> {
    v.map_values(|s: String| s@)
}

/// The characters of each word of each command.
pub open spec fn command_views(v: Seq<Vec<String>>) -> Seq<Seq<Seq<char>>> {
    v.map_values(|c: Vec<String>| views(c@))
}

pub open spec fn default_deny_paths() -> Seq<Seq<char>> {
    seq![".env*"@, "**/.ssh/**"@, "**/.aws/**"@, "**/.npmrc"@, "**/.pypirc"@]
}

pub open spec fn default_deny_commands() -> Seq<Seq<Seq<char>>> {
    seq![seq!["sudo"@], seq!["rm"@]]
}

/// The schema version that settings must carry.
pub fn default_schema_version() -> (r: String)
    ensures
        r@ == "1.0"@,
{
    String::from_str("1.0")
}

fn string_vec1(a: &str) -> (r: Vec<String>)
    ensures
        views(r@) == seq![a@],
{
    let mut v: Vec<String> = Vec::new();
    v.push(String::from_str(a));
    assert(views(v@) =~= seq![a@]);
    v
}

/// The default deny-path patterns.
fn default_deny_path_list() -> (r: Vec<String>)
    ensures
        views(r@) == default_deny_paths(),
{
    let mut v: Vec<String> = Vec::new();
    v.push(String::from_str(".env*"));
    v.push(String::from_str("**/.ssh/**"));
    v.push(String::from_str("**/.aws/**"));
    v.push(String::from_str("**/.npmrc"));
    v.push(String::from_str("**/.pypirc"));
    assert(views(v@) =~= default_deny_paths());
    v
}

/// The default denied commands.
fn default_deny_command_list() -> (r: Vec<Vec<String>>)
    ensures
        command_views(r@) == default_deny_commands(),
{
    let mut v: Vec<Vec<String>> = Vec::new();
    v.push(string_vec1("sudo"));
    v.push(string_vec1("rm"));
    assert(command_views(v@) =~= default_deny_commands());
    v
}

impl Default for NexusSettings {
    fn default() -> (r: Self)
        ensures
            r.schema_version@ == "1.0"@,
            r.permission_mode == PermissionMode::Default,
            views(r.deny_paths@) == default_deny_paths(),
            r.allow_paths_write@.len() == 0,
            r.allow_commands@.len() == 0,
            r.ask_commands@.len() == 0,
            command_views(r.deny_commands@) == default_deny_commands(),
            r.autopilot.is_none(),
    {
        NexusSettings {
            schema_version: default_schema_version(),
            permission_mode: PermissionMode::Default,
            deny_paths: default_deny_path_list(),
            allow_paths_write: Vec::new(),
            allow_commands: Vec::new(),
            ask_commands: Vec::new(),
            deny_commands: default_deny_command_list(),
            autopilot: None,
        }
    }
}

/// The first rule, in the order they are checked, that a path pattern breaks.
pub enum PatternFault {
    Traversal,
    Absolute,
    WindowsDrive,
    Unc,
    ControlCharacter,
}

pub open spec fn pattern_fault(p: Seq<char>) -> Option<PatternFault> {
    if contains(p, ".."@) {
        Some(PatternFault::Traversal)
    } else if starts_with(p, "/"@) && !starts_with(p, "/**/"@) {
        Some(PatternFault::Absolute)
    } else if p.len() >= 2 && is_ascii_alpha(p[0]) && p[1] == ':' {
        Some(PatternFault::WindowsDrive)
    } else if starts_with(p, "\\\\"@) {
        Some(PatternFault::Unc)
    } else if exists|i: int| 0 <= i < p.len() && is_control(#[trigger] p[i]) {
        Some(PatternFault::ControlCharacter)
    } else {
        None
    }
}

pub open spec fn fault_reason(f: PatternFault) -> Seq<char> {
    match f {
        PatternFault::Traversal => "path traversal (..) not allowed"@,
        PatternFault::Absolute => "absolute paths not allowed in patterns"@,
        PatternFault::WindowsDrive => "Windows drive paths not allowed in patterns"@,
        PatternFault::Unc => "UNC paths not allowed in patterns"@,
        PatternFault::ControlCharacter => "control characters not allowed in patterns"@,
    }
}

/// `r` is the outcome of checking pattern `p`.
pub open spec fn pattern_outcome(p: Seq<char>, r: Result<(), SettingsValidationError>) -> bool {
    match pattern_fault(p) {
        None => r is Ok,
        Some(f) => match r {
            Err(SettingsValidationError::InvalidPathPattern { path, reason }) => path@ == p
                && reason@ == fault_reason(f),
            _ => false,
        },
    }
}

fn pattern_error(path: &str, reason: &str) -> (r: SettingsValidationError)
    ensures
        r matches SettingsValidationError::InvalidPathPattern { path: p, reason: q } && p@ == path@
            && q@ == reason@,
{
    SettingsValidationError::InvalidPathPattern {
        path: String::from_str(path),
        reason: String::from_str(reason),
    }
}

/// Checks one path glob: no `..`, no absolute path unless it begins `/**/`, no Windows drive
/// or UNC prefix, no control character.
pub fn validate_path_pattern(path: &str) -> (r: Result<(), SettingsValidationError>)
    ensures
        pattern_outcome(path@, r),
{
    if str_contains(path, "..") {
        return Err(pattern_error(path, "path traversal (..) not allowed"));
    }
    let v = chars_of(path);
    let slash = chars_of("/");
    let glob_root = chars_of("/**/");
    if matches_at(&v, 0, &slash) && !matches_at(&v, 0, &glob_root) {
        return Err(pattern_error(path, "absolute paths not allowed in patterns"));
    }
    if v.len() >= 2 {
        let c0 = v[0];
        if (('a' <= c0 && c0 <= 'z') || ('A' <= c0 && c0 <= 'Z')) && v[1] == ':' {
            return Err(pattern_error(path, "Windows drive paths not allowed in patterns"));
        }
    }
    let unc = chars_of("\\\\");
    if matches_at(&v, 0, &unc) {
        return Err(pattern_error(path, "UNC paths not allowed in patterns"));
    }
    let mut i: usize = 0;
    while i < v.len()
        invariant
            v@ == path@,
            !contains(path@, ".."@),
            !(starts_with(path@, "/"@) && !starts_with(path@, "/**/"@)),
            !(path@.len() >= 2 && is_ascii_alpha(path@[0]) && path@[1] == ':'),
            !starts_with(path@, "\\\\"@),
            forall|j: int| 0 <= j < i ==> !is_control(#[trigger] v@[j]),
        decreases v.len() - i,
    {
        if char_is_control(v[i]) {
            assert(is_control(path@[i as int]));
            return Err(pattern_error(path, "control characters not allowed in patterns"));
        }
        i = i + 1;
    }
    Ok(())
}

/// Every pattern in the list passes `validate_path_pattern`.
pub open spec fn patterns_ok(v: Seq<String>) -> bool {
    forall|i: int| 0 <= i < v.len() ==> pattern_fault(#[trigger] v[i]@) is None
}

/// The settings satisfy every constraint that `validate` checks.
pub open spec fn settings_valid(s: NexusSettings) -> bool {
    &&& s.schema_version@ == "1.0"@
    &&& patterns_ok(s.deny_paths@)
    &&& patterns_ok(s.allow_paths_write@)
    &&& match s.autopilot {
        Some(a) => a.max_batch_cu >= 1 && a.max_batch_steps >= 1,
        None => true,
    }
}

/// `r` is the outcome of the first pattern of `list` that fails: every one before it passes.
pub open spec fn first_fault_outcome(list: Seq<String>, r: Result<(), SettingsValidationError>) -> bool {
    exists|i: int|
        0 <= i < list.len() && pattern_fault(#[trigger] list[i]@) is Some && pattern_outcome(
            list[i]@,
            r,
        ) && forall|j: int| 0 <= j < i ==> pattern_fault(#[trigger] list[j]@) is None
}

/// Checks each pattern of `list` in order; the first that fails decides the error.
fn validate_pattern_list(list: &Vec<String>) -> (r: Result<(), SettingsValidationError>)
    ensures
        r is Ok <==> patterns_ok(list@),
        r is Err ==> first_fault_outcome(list@, r),
{
    let mut i: usize = 0;
    while i < list.len()
        invariant
            forall|j: int| 0 <= j < i ==> pattern_fault(#[trigger] list@[j]@) is None,
        decreases list.len() - i,
    {
        let r = validate_path_pattern(list[i].as_str());
        if r.is_err() {
            assert(pattern_fault(list@[i as int]@) is Some);
            assert(first_fault_outcome(list@, r));
            return r;
        }
        i = i + 1;
    }
    Ok(())
}

impl NexusSettings {
    /// Checks the schema version, every path pattern of both lists, and the autopilot limits.
    /// The first failure, in that order, is returned.
    pub fn validate(&self) -> (r: Result<(), SettingsValidationError>)
        ensures
            r is Ok <==> settings_valid(*self),
            self.schema_version@ != "1.0"@ ==> (r matches Err(
                SettingsValidationError::InvalidSchemaVersion(v),
            ) && v@ == self.schema_version@),
            self.schema_version@ == "1.0"@ && !patterns_ok(self.deny_paths@) ==> first_fault_outcome(
                self.deny_paths@,
                r,
            ),
            self.schema_version@ == "1.0"@ && patterns_ok(self.deny_paths@) && !patterns_ok(
                self.allow_paths_write@,
            ) ==> first_fault_outcome(self.allow_paths_write@, r),
            self.schema_version@ == "1.0"@ && patterns_ok(self.deny_paths@) && patterns_ok(
                self.allow_paths_write@,
            ) ==> match self.autopilot {
                Some(a) => if a.max_batch_cu < 1 {
                    (r matches Err(SettingsValidationError::InvalidMaxBatchCu(n)) && n
                        == a.max_batch_cu)
                } else if a.max_batch_steps < 1 {
                    (r matches Err(SettingsValidationError::InvalidMaxBatchSteps(n)) && n
                        == a.max_batch_steps)
                } else {
                    r is Ok
                },
                None => r is Ok,
            },
    {
        let expected = String::from_str("1.0");
        if self.schema_version != expected {
            return Err(SettingsValidationError::InvalidSchemaVersion(self.schema_version.clone()));
        }
        let r = validate_pattern_list(&self.deny_paths);
        if r.is_err() {
            return r;
        }
        let r = validate_pattern_list(&self.allow_paths_write);
        if r.is_err() {
            return r;
        }
        match &self.autopilot {
            Some(a) => {
                if a.max_batch_cu < 1 {
                    return Err(SettingsValidationError::InvalidMaxBatchCu(a.max_batch_cu));
                }
                if a.max_batch_steps < 1 {
                    return Err(SettingsValidationError::InvalidMaxBatchSteps(a.max_batch_steps));
                }
            },
            None => {},
        }
        Ok(())
    }
}

/// What loading makes of parsed settings: an empty deny-path list or deny-command list
/// takes the defaults, everything else is kept.
pub open spec fn merged(old: NexusSettings, new: NexusSettings) -> bool {
    &&& new.schema_version == old.schema_version
    &&& new.permission_mode == old.permission_mode
    &&& views(new.deny_paths@) == if old.deny_paths@.len() == 0 {
        default_deny_paths()
    } else {
        views(old.deny_paths@)
    }
    &&& new.allow_paths_write == old.allow_paths_write
    &&& new.allow_commands == old.allow_commands
    &&& new.ask_commands == old.ask_commands
    &&& command_views(new.deny_commands@) == if old.deny_commands@.len() == 0 {
        default_deny_commands()
    } else {
        command_views(old.deny_commands@)
    }
    &&& new.autopilot == old.autopilot
}

/// Fills an empty deny-path list and an empty deny-command list with the defaults.
pub fn merge_with_defaults(settings: &mut NexusSettings)
    ensures
        merged(*old(settings), *final(settings)),
{
    if settings.deny_paths.len() == 0 {
        settings.deny_paths = default_deny_path_list();
    }
    if settings.deny_commands.len() == 0 {
        settings.deny_commands = default_deny_command_list();
    }
}

/// Refuses a settings file whose text is empty or only whitespace.
pub fn check_settings_text(path: &str, content: &str) -> (r: Result<(), NexusError>)
    ensures
        r is Ok <==> trim(content@).len() > 0,
        r is Err ==> (r matches Err(NexusError::ConfigParse { path: p, message }) && p@ == path@
            && message@ == "settings file is empty"@),
{
    let t = trim_str(content);
    if t.unicode_len() == 0 {
        return Err(
            NexusError::ConfigParse {
                path: String::from_str(path),
                message: String::from_str("settings file is empty"),
            },
        );
    }
    Ok(())
}

/// Finishes loading parsed settings: fills the defaults, then validates.
pub fn finish_settings(path: &str, parsed: NexusSettings) -> (r: Result<NexusSettings, NexusError>)
    ensures
        match r {
            Ok(s) => merged(parsed, s) && settings_valid(s),
            Err(NexusError::ConfigValidation { path: p, .. }) => p@ == path@ && exists|
                s: NexusSettings,
            | merged(parsed, s) && !settings_valid(s),
            _ => false,
        },
{
    let mut settings = parsed;
    merge_with_defaults(&mut settings);
    match settings.validate() {
        Ok(()) => Ok(settings),
        Err(e) => Err(NexusError::ConfigValidation { path: String::from_str(path), source: e }),
    }
}

} // verus!
