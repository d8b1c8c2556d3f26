//! Proposed actions: the edits and meta-edits the agent would like to perform.
use vstd::prelude::*;

verus! {

/// Role of an agent in a workflow.
#[derive(Debug, Clone, Copy, PartialEq, Eq, Structural)]
pub enum AgentRole {
    Router,
    Researcher,
    Planner,
    Executor,
    Reviewer,
    Tool,
}

/// Who created an action.
#[derive(Debug, Clone, Default)]
pub struct CreatedBy {
    pub agent: Option<AgentRole>,
    pub provider: Option<String>,
    pub model: Option<String>,
}

/// Membership of an action in a group approved together.
#[derive(Debug, Clone)]
pub struct ApprovalGroup {
    pub id: String,
    pub label: String,
    pub size: u32,
    pub index: u32,
}

/// A proposed action; `details` matches `kind`.
#[derive(Debug, Clone)]
pub struct ProposedAction {
    pub id: String,
    pub summary: String,
    pub why: Option<String>,
    pub risk: u8,
    pub policy_tags: Vec<String>,
    pub requires_approval: bool,
    pub created_by: Option<CreatedBy>,
    pub approval_group: Option<ApprovalGroup>,
    pub kind: ActionKindTag,
    pub details: ActionDetails,
}

/// Risk score of an action that states none.
pub fn default_risk() -> (r: u8)
    ensures
        r == 1,
{
    1
}

/// Approval is required unless an action says otherwise.
pub fn default_true() -> (r: bool)
    ensures
        r,
{
    true
}

/// The kind of an action.
#[derive(Debug, Clone, Copy, PartialEq, Eq, Structural)]
pub enum ActionKindTag {
    Handoff,
    Patch,
    Command,
    PlanPatch,
    AgendaPatch,
    FileCreate,
    FileRename,
    FileDelete,
}

/// The payload of an action, one variant per kind.
#[derive(Debug, Clone)]
pub enum ActionDetails {
    Handoff(HandoffDetails),
    Command(CommandDetails),
    PlanPatch(PlanPatchDetails),
    AgendaPatch(AgendaPatchDetails),
    FileCreate(FileCreateDetails),
    FileRename(FileRenameDetails),
    FileDelete(FileDeleteDetails),
    Patch(PatchDetails),
}

/// How a patch states its change.
#[derive(Debug, Clone, Copy, PartialEq, Eq, Structural)]
pub enum PatchFormat {
    Unified,
    SearchReplace,
    WholeFile,
}

impl Default for PatchFormat {
    fn default() -> (r: Self)
        ensures
            r == PatchFormat::Unified,
    {
        PatchFormat::Unified
    }
}

/// What to do when a patch conflicts.
#[derive(Debug, Clone, Copy, PartialEq, Eq, Structural)]
pub enum OnConflict {
    Fail,
    Ours,
    Theirs,
    Marker,
}

impl Default for OnConflict {
    fn default() -> (r: Self)
        ensures
            r == OnConflict::Fail,
    {
        OnConflict::Fail
    }
}

/// How to place a patch that does not apply exactly.
#[derive(Debug, Clone, Copy, PartialEq, Eq, Structural)]
pub enum FallbackStrategy {
    NoFallback,
    Fuzzy,
    LineAnchor,
}

impl Default for FallbackStrategy {
    fn default() -> (r: Self)
        ensures
            r == FallbackStrategy::NoFallback,
    {
        FallbackStrategy::NoFallback
    }
}

/// How the search text of a block is matched.
#[derive(Debug, Clone, Copy, PartialEq, Eq, Structural)]
pub enum MatchMode {
    Exact,
    WhitespaceInsensitive,
}

impl Default for MatchMode {
    fn default() -> (r: Self)
        ensures
            r == MatchMode::Exact,
    {
        MatchMode::Exact
    }
}

/// One search/replace edit of one file.
#[derive(Debug, Clone)]
pub struct SearchReplaceBlock {
    pub file: String,
    pub search: String,
    pub replace: String,
    pub match_mode: MatchMode,
}

/// The payload of a patch. A map is kept as a list of (key, value) pairs; a fractional
/// number is kept as its decimal text.
#[derive(Debug, Clone)]
pub struct PatchDetails {
    pub format: PatchFormat,
    pub diff: Option<String>,
    pub search_replace_blocks: Option<Vec<SearchReplaceBlock>>,
    pub whole_file_content: Option<Vec<(String, String)>>,
    pub files: Vec<String>,
    pub base_file_sha256: Option<Vec<(String, String)>>,
    pub on_conflict: OnConflict,
    pub fallback_strategy: FallbackStrategy,
    pub fuzzy_threshold: Option<String>,
    pub match_confidence: Option<String>,
}

/// A patch payload with every optional part absent and every policy at its default.
pub open spec fn patch_details_plain(d: PatchDetails) -> bool {
    &&& d.whole_file_content is None
    &&& d.base_file_sha256 is None
    &&& d.on_conflict == OnConflict::Fail
    &&& d.fallback_strategy == FallbackStrategy::NoFallback
    &&& d.fuzzy_threshold is None
    &&& d.match_confidence is None
}

impl Default for PatchDetails {
    fn default() -> (r: Self)
        ensures
            r.format == PatchFormat::Unified,
            r.diff is None,
            r.search_replace_blocks is None,
            r.files@.len() == 0,
            patch_details_plain(r),
    {
        PatchDetails {
            format: PatchFormat::Unified,
            diff: None,
            search_replace_blocks: None,
            whole_file_content: None,
            files: Vec::new(),
            base_file_sha256: None,
            on_conflict: OnConflict::Fail,
            fallback_strategy: FallbackStrategy::NoFallback,
            fuzzy_threshold: None,
            match_confidence: None,
        }
    }
}

/// Hands work from one agent to another.
#[derive(Debug, Clone)]
pub struct HandoffDetails {
    pub from: AgentRole,
    pub to: AgentRole,
    pub reason: String,
    pub workflow_patch_ref: Option<String>,
}

/// Runs a command.
#[derive(Debug, Clone)]
pub struct CommandDetails {
    pub argv: Vec<String>,
    pub cwd: Option<String>,
    pub timeout_s: u32,
    pub env_allow: Vec<String>,
    pub requires_network: bool,
    pub purpose: Option<String>,
}

/// Timeout of a command that states none, in seconds.
pub fn default_timeout() -> (r: u32)
    ensures
        r == 1200,
{
    1200
}

/// Changes a plan.
#[derive(Debug, Clone)]
pub struct PlanPatchDetails {
    pub plan_id: String,
    pub patch_ref: String,
    pub patch_mode: PatchMode,
    pub summary: Option<String>,
}

/// How a plan patch is applied.
#[derive(Debug, Clone, Copy, PartialEq, Eq, Structural)]
pub enum PatchMode {
    Replace,
    JsonPatch,
}

impl Default for PatchMode {
    fn default() -> (r: Self)
        ensures
            r == PatchMode::Replace,
    {
        PatchMode::Replace
    }
}

/// Changes an agenda file.
#[derive(Debug, Clone)]
pub struct AgendaPatchDetails {
    pub target_path: String,
    pub diff: String,
}

/// Creates a file.
#[derive(Debug, Clone)]
pub struct FileCreateDetails {
    pub path: String,
    pub content: String,
    pub overwrite: bool,
    pub ignore_if_exists: bool,
}

/// Renames a file.
#[derive(Debug, Clone)]
pub struct FileRenameDetails {
    pub old_path: String,
    pub new_path: String,
    pub overwrite: bool,
}

/// Deletes a file.
#[derive(Debug, Clone)]
pub struct FileDeleteDetails {
    pub path: String,
    pub recursive: bool,
    pub ignore_if_missing: bool,
}

/// The label of a kind, as it is written in events and documents.
pub open spec fn kind_label_spec(k: ActionKindTag) -> Seq<char> {
    match k {
        ActionKindTag::Handoff => "handoff"@,
        ActionKindTag::Patch => "patch"@,
        ActionKindTag::Command => "command"@,
        ActionKindTag::PlanPatch => "plan_patch"@,
        ActionKindTag::AgendaPatch => "agenda_patch"@,
        ActionKindTag::FileCreate => "file_create"@,
        ActionKindTag::FileRename => "file_rename"@,
        ActionKindTag::FileDelete => "file_delete"@,
    }
}

/// The label of a kind, as it is written in events and documents.
pub fn action_kind_label(kind: &ActionKindTag) -> (r: &'static str)
    ensures
        r@ == kind_label_spec(*kind),
{
    match kind {
        ActionKindTag::Handoff => "handoff",
        ActionKindTag::Patch => "patch",
        ActionKindTag::Command => "command",
        ActionKindTag::PlanPatch => "plan_patch",
        ActionKindTag::AgendaPatch => "agenda_patch",
        ActionKindTag::FileCreate => "file_create",
        ActionKindTag::FileRename => "file_rename",
        ActionKindTag::FileDelete => "file_delete",
    }
}

} // verus!
