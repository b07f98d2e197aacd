//! The registry of agent tools: what each tool is, in which modes it may
//! run, and the path policy it is held to.
use vstd::prelude::*;
use crate::model::AgentMode;
use crate::text::{chars_of, seq_eq};

verus! {

#[derive(Debug, Clone, Copy, PartialEq, Eq, Structural)]
pub enum AgentToolCategory {
    ReadOnlyContext,
    SemanticState,
    FileWrite,
    CadQuery,
    WebSearch,
}

#[derive(Debug, Clone, Copy, PartialEq, Eq, Structural)]
pub enum AgentSemanticStore {
    CadPlan,
    ChatSummary,
}

#[derive(Debug, Clone, Copy, PartialEq, Eq, Structural)]
pub enum CadQueryModelFilePolicy {
    ReadOnly,
    Denied,
    CopyOnly,
    CadQueryToolOnly,
}

#[derive(Debug, Clone, Copy, PartialEq, Eq, Structural)]
pub enum OutputPathPolicy {
    Denied,
    ReadOnly,
    DeclaredOutputsOnly,
    TemporaryResultCacheOnly,
    ExecutionScopeOutputs,
}

/// The path rules that a tool is held to.
#[derive(Debug, Clone, PartialEq, Eq)]
pub struct AgentToolPathPolicy {
    pub allowed_roots: Vec<&'static str>,
    pub denied_roots: Vec<&'static str>,
    pub text_only: bool,
    pub uses_execution_scope: bool,
    pub cadquery_model_file: CadQueryModelFilePolicy,
    pub output_paths: OutputPathPolicy,
    pub semantic_store: Option<AgentSemanticStore>,
}

pub open spec fn str_views(v: Seq<&'static str>) -> Seq<Seq<char>> {
    v.map_values(|s: &'static str| s@)
}

/// A path policy by its views.
pub struct PolicyView {
    pub allowed_roots: Seq<Seq<char>>,
    pub denied_roots: Seq<Seq<char>>,
    pub text_only: bool,
    pub uses_execution_scope: bool,
    pub cadquery_model_file: CadQueryModelFilePolicy,
    pub output_paths: OutputPathPolicy,
    pub semantic_store: Option<AgentSemanticStore>,
}

pub open spec fn policy_view(p: AgentToolPathPolicy) -> PolicyView {
    PolicyView {
        allowed_roots: str_views(p.allowed_roots@),
        denied_roots: str_views(p.denied_roots@),
        text_only: p.text_only,
        uses_execution_scope: p.uses_execution_scope,
        cadquery_model_file: p.cadquery_model_file,
        output_paths: p.output_paths,
        semantic_store: p.semantic_store,
    }
}

/// Whether a tool may run, and why not.
#[derive(Debug, Clone, PartialEq, Eq)]
pub struct AgentToolPermission {
    pub allowed: bool,
    pub requires_execution_scope: bool,
    pub reason: &'static str,
}

/// A registered tool without its JSON schemas.
#[derive(Debug, Clone)]
pub struct AgentToolSpec {
    pub name: &'static str,
    pub description: &'static str,
    pub category: AgentToolCategory,
    pub allowed_modes: Vec<AgentMode>,
    pub requires_execution_scope: bool,
    pub automatic_llm_tool: bool,
    pub path_policy: AgentToolPathPolicy,
}

/// A registered tool by its views.
pub struct SpecView {
    pub name: Seq<char>,
    pub category: AgentToolCategory,
    pub allowed_modes: Seq<AgentMode>,
    pub requires_execution_scope: bool,
    pub automatic_llm_tool: bool,
    pub path_policy: PolicyView,
}

pub open spec fn spec_view(s: AgentToolSpec) -> SpecView {
    SpecView {
        name: s.name@,
        category: s.category,
        allowed_modes: s.allowed_modes@,
        requires_execution_scope: s.requires_execution_scope,
        automatic_llm_tool: s.automatic_llm_tool,
        path_policy: policy_view(s.path_policy),
    }
}

pub open spec fn specs_view(v: Seq<AgentToolSpec>) -> Seq<SpecView> {
    v.map_values(|s: AgentToolSpec| spec_view(s))
}

// ---------------------------------------------------------------------------
// The policies

pub open spec fn unsafe_roots() -> Seq<Seq<char>> {
    seq![".git"@, "target"@, "node_modules"@, "outputs"@, ".budn_staging"@]
}

pub open spec fn no_path_policy() -> PolicyView {
    PolicyView {
        allowed_roots: Seq::empty(),
        denied_roots: Seq::empty(),
        text_only: false,
        uses_execution_scope: false,
        cadquery_model_file: CadQueryModelFilePolicy::Denied,
        output_paths: OutputPathPolicy::Denied,
        semantic_store: None,
    }
}

pub open spec fn workspace_text_read_policy() -> PolicyView {
    PolicyView {
        allowed_roots: seq![""@],
        denied_roots: unsafe_roots(),
        text_only: true,
        uses_execution_scope: false,
        cadquery_model_file: CadQueryModelFilePolicy::ReadOnly,
        output_paths: OutputPathPolicy::ReadOnly,
        semantic_store: None,
    }
}

pub open spec fn workspace_list_policy() -> PolicyView {
    PolicyView { text_only: false, ..workspace_text_read_policy() }
}

pub open spec fn cad_plan_policy() -> PolicyView {
    PolicyView {
        allowed_roots: seq!["plans"@],
        denied_roots: seq!["chats"@, "outputs"@],
        text_only: true,
        uses_execution_scope: false,
        cadquery_model_file: CadQueryModelFilePolicy::Denied,
        output_paths: OutputPathPolicy::DeclaredOutputsOnly,
        semantic_store: Some(AgentSemanticStore::CadPlan),
    }
}

pub open spec fn chat_summary_policy() -> PolicyView {
    PolicyView {
        denied_roots: seq!["chats"@],
        semantic_store: Some(AgentSemanticStore::ChatSummary),
        ..no_path_policy()
    }
}

pub open spec fn agent_text_write_policy(model: CadQueryModelFilePolicy) -> PolicyView {
    PolicyView {
        allowed_roots: seq!["components"@, "parts"@, "assemblies"@, "refs"@, "docs"@],
        denied_roots: seq!["chats"@, "outputs"@],
        text_only: true,
        uses_execution_scope: true,
        cadquery_model_file: model,
        output_paths: OutputPathPolicy::Denied,
        semantic_store: None,
    }
}

pub open spec fn cadquery_read_policy(output_paths: OutputPathPolicy) -> PolicyView {
    PolicyView {
        allowed_roots: seq!["components"@, "parts"@, "assemblies"@],
        denied_roots: unsafe_roots(),
        text_only: true,
        uses_execution_scope: false,
        cadquery_model_file: CadQueryModelFilePolicy::ReadOnly,
        output_paths,
        semantic_store: None,
    }
}

pub open spec fn cadquery_execute_policy() -> PolicyView {
    PolicyView {
        allowed_roots: seq!["components"@, "parts"@, "assemblies"@],
        denied_roots: seq!["chats"@],
        text_only: true,
        uses_execution_scope: true,
        cadquery_model_file: CadQueryModelFilePolicy::CadQueryToolOnly,
        output_paths: OutputPathPolicy::ExecutionScopeOutputs,
        semantic_store: None,
    }
}

pub open spec fn result_cache_policy() -> PolicyView {
    PolicyView { output_paths: OutputPathPolicy::TemporaryResultCacheOnly, ..no_path_policy() }
}

fn unsafe_workspace_roots() -> (r: Vec<&'static str>)
    ensures
        str_views(r@) == unsafe_roots(),
{
    let r = vec![".git", "target", "node_modules", "outputs", ".budn_staging"];
    proof {
        assert(str_views(r@) =~= unsafe_roots());
    }
    r
}

fn no_path_policy_exec() -> (r: AgentToolPathPolicy)
    ensures
        policy_view(r) == no_path_policy(),
{
    let r = AgentToolPathPolicy {
        allowed_roots: Vec::new(),
        denied_roots: Vec::new(),
        text_only: false,
        uses_execution_scope: false,
        cadquery_model_file: CadQueryModelFilePolicy::Denied,
        output_paths: OutputPathPolicy::Denied,
        semantic_store: None,
    };
    proof {
        assert(str_views(r.allowed_roots@) =~= Seq::<Seq<char>>::empty());
        assert(str_views(r.denied_roots@) =~= Seq::<Seq<char>>::empty());
    }
    r
}

fn workspace_text_read_policy_exec() -> (r: AgentToolPathPolicy)
    ensures
        policy_view(r) == workspace_text_read_policy(),
{
    let r = AgentToolPathPolicy {
        allowed_roots: vec![""],
        denied_roots: unsafe_workspace_roots(),
        text_only: true,
        uses_execution_scope: false,
        cadquery_model_file: CadQueryModelFilePolicy::ReadOnly,
        output_paths: OutputPathPolicy::ReadOnly,
        semantic_store: None,
    };
    proof {
        assert(str_views(r.allowed_roots@) =~= seq![""@]);
    }
    r
}

fn workspace_list_policy_exec() -> (r: AgentToolPathPolicy)
    ensures
        policy_view(r) == workspace_list_policy(),
{
    let mut r = workspace_text_read_policy_exec();
    r.text_only = false;
    r
}

fn cad_plan_policy_exec() -> (r: AgentToolPathPolicy)
    ensures
        policy_view(r) == cad_plan_policy(),
{
    let r = AgentToolPathPolicy {
        allowed_roots: vec!["plans"],
        denied_roots: vec!["chats", "outputs"],
        text_only: true,
        uses_execution_scope: false,
        cadquery_model_file: CadQueryModelFilePolicy::Denied,
        output_paths: OutputPathPolicy::DeclaredOutputsOnly,
        semantic_store: Some(AgentSemanticStore::CadPlan),
    };
    proof {
        assert(str_views(r.allowed_roots@) =~= seq!["plans"@]);
        assert(str_views(r.denied_roots@) =~= seq!["chats"@, "outputs"@]);
    }
    r
}

fn chat_summary_policy_exec() -> (r: AgentToolPathPolicy)
    ensures
        policy_view(r) == chat_summary_policy(),
{
    let mut r = no_path_policy_exec();
    r.denied_roots = vec!["chats"];
    r.semantic_store = Some(AgentSemanticStore::ChatSummary);
    proof {
        assert(str_views(r.denied_roots@) =~= seq!["chats"@]);
    }
    r
}

fn agent_text_write_policy_exec(model: CadQueryModelFilePolicy) -> (r: AgentToolPathPolicy)
    ensures
        policy_view(r) == agent_text_write_policy(model),
{
    let r = AgentToolPathPolicy {
        allowed_roots: vec!["components", "parts", "assemblies", "refs", "docs"],
        denied_roots: vec!["chats", "outputs"],
        text_only: true,
        uses_execution_scope: true,
        cadquery_model_file: model,
        output_paths: OutputPathPolicy::Denied,
        semantic_store: None,
    };
    proof {
        assert(str_views(r.allowed_roots@) =~= seq!["components"@, "parts"@, "assemblies"@, "refs"@, "docs"@]);
        assert(str_views(r.denied_roots@) =~= seq!["chats"@, "outputs"@]);
    }
    r
}

fn cadquery_read_policy_exec(output_paths: OutputPathPolicy) -> (r: AgentToolPathPolicy)
    ensures
        policy_view(r) == cadquery_read_policy(output_paths),
{
    let r = AgentToolPathPolicy {
        allowed_roots: vec!["components", "parts", "assemblies"],
        denied_roots: unsafe_workspace_roots(),
        text_only: true,
        uses_execution_scope: false,
        cadquery_model_file: CadQueryModelFilePolicy::ReadOnly,
        output_paths,
        semantic_store: None,
    };
    proof {
        assert(str_views(r.allowed_roots@) =~= seq!["components"@, "parts"@, "assemblies"@]);
    }
    r
}

fn cadquery_execute_policy_exec() -> (r: AgentToolPathPolicy)
    ensures
        policy_view(r) == cadquery_execute_policy(),
{
    let r = AgentToolPathPolicy {
        allowed_roots: vec!["components", "parts", "assemblies"],
        denied_roots: vec!["chats"],
        text_only: true,
        uses_execution_scope: true,
        cadquery_model_file: CadQueryModelFilePolicy::CadQueryToolOnly,
        output_paths: OutputPathPolicy::ExecutionScopeOutputs,
        semantic_store: None,
    };
    proof {
        assert(str_views(r.allowed_roots@) =~= seq!["components"@, "parts"@, "assemblies"@]);
        assert(str_views(r.denied_roots@) =~= seq!["chats"@]);
    }
    r
}

fn result_cache_policy_exec() -> (r: AgentToolPathPolicy)
    ensures
        policy_view(r) == result_cache_policy(),
{
    let mut r = no_path_policy_exec();
    r.output_paths = OutputPathPolicy::TemporaryResultCacheOnly;
    r
}

// ---------------------------------------------------------------------------
// The table

pub open spec fn readonly_modes() -> Seq<AgentMode> {
    seq![AgentMode::Agent, AgentMode::Plan]
}

pub open spec fn row(
    name: Seq<char>,
    category: AgentToolCategory,
    modes: Seq<AgentMode>,
    policy: PolicyView,
) -> SpecView {
    SpecView {
        name,
        category,
        allowed_modes: modes,
        requires_execution_scope: false,
        automatic_llm_tool: true,
        path_policy: policy,
    }
}

/// Every registered tool, in registration order.
pub open spec fn tool_table() -> Seq<SpecView> {
    seq![
        row("read_file"@, AgentToolCategory::ReadOnlyContext, readonly_modes(), workspace_text_read_policy()),
        row("list_directory"@, AgentToolCategory::ReadOnlyContext, readonly_modes(), workspace_list_policy()),
        row("search_files"@, AgentToolCategory::ReadOnlyContext, readonly_modes(), workspace_text_read_policy()),
        row("get_project_context"@, AgentToolCategory::ReadOnlyContext, readonly_modes(), workspace_list_policy()),
        row("get_selection"@, AgentToolCategory::ReadOnlyContext, readonly_modes(), no_path_policy()),
        row("resolve_ref"@, AgentToolCategory::ReadOnlyContext, readonly_modes(), workspace_text_read_policy()),
        row("save_cad_plan"@, AgentToolCategory::SemanticState, seq![AgentMode::Plan], cad_plan_policy()),
        row("update_chat_summary"@, AgentToolCategory::SemanticState, seq![AgentMode::Agent], chat_summary_policy()),
        row("write_file"@, AgentToolCategory::FileWrite, seq![AgentMode::Agent], agent_text_write_policy(CadQueryModelFilePolicy::Denied)),
        row("patch_file"@, AgentToolCategory::FileWrite, seq![AgentMode::Agent], agent_text_write_policy(CadQueryModelFilePolicy::Denied)),
        row("copy_file"@, AgentToolCategory::FileWrite, seq![AgentMode::Agent], agent_text_write_policy(CadQueryModelFilePolicy::CopyOnly)),
        row("web_search"@, AgentToolCategory::WebSearch, readonly_modes(), no_path_policy()),
        row("fetch_url"@, AgentToolCategory::WebSearch, readonly_modes(), no_path_policy()),
        row("cadquery_analyze_source"@, AgentToolCategory::CadQuery, readonly_modes(), cadquery_read_policy(OutputPathPolicy::Denied)),
        row("cadquery_check_source"@, AgentToolCategory::CadQuery, seq![AgentMode::Plan, AgentMode::Agent], cadquery_read_policy(OutputPathPolicy::Denied)),
        row("cadquery_dry_run"@, AgentToolCategory::CadQuery, seq![AgentMode::Agent], cadquery_read_policy(OutputPathPolicy::TemporaryResultCacheOnly)),
        row("cadquery_execute"@, AgentToolCategory::CadQuery, seq![AgentMode::Agent], cadquery_execute_policy()),
        row("cadquery_get_result"@, AgentToolCategory::CadQuery, readonly_modes(), result_cache_policy()),
        row("cadquery_resolve_selection"@, AgentToolCategory::CadQuery, readonly_modes(), result_cache_policy()),
    ]
}

/// The descriptions of the registered tools, in registration order.
pub open spec fn tool_descriptions() -> Seq<Seq<char>> {
    seq![
        "Read a bounded UTF-8 text file from the workspace."@,
        "List workspace directory entries with optional recursion and filtering."@,
        "Search text files in safe workspace ranges."@,
        "Summarize CadQuery project folders without reading large file bodies."@,
        "Return the current Viewer selection snapshot."@,
        "Resolve a visible MVP Ref to owner files and stability risks."@,
        "Persist a structured Markdown CAD Plan under plans/."@,
        "Update Chat session metadata through ChatStore, not by editing JSONL."@,
        "Write a non-model text file in Agent mode."@,
        "Apply a deterministic patch with hash-based conflict checks."@,
        "Copy a safe text file without changing CadQuery source content."@,
        "Search the web using the configured search provider."@,
        "Fetch a web page and return its content as text or markdown."@,
        "Analyze existing CadQuery source and paired design notes without executing Python. Use this to understand an existing model's structure, features, and parameters before modifying it. Typically follow with cadquery_check_source or cadquery_dry_run to validate changes."@,
        "Check proposed complete CadQuery source against the static model contract without executing Python. Use this to validate structure, naming, and contract compliance before committing to a dry_run. Available in both Plan and Agent mode."@,
        "Run proposed CadQuery code in staging without committing to the workspace. Use this to validate geometry, check for errors, and preview the result before calling cadquery_execute. Always dry_run before execute, especially after modifying code to fix a failure."@,
        "Commit CadQuery source and declared outputs through staging in Agent mode. This writes the model to the workspace and generates exports. Only call after a successful cadquery_dry_run. One successful execute per Agent run."@,
        "Return a lightweight CadQuery result summary (topology, features, bounding box, export paths) without full mesh arrays. Use this to inspect the current model state, verify a previous execute succeeded, or gather context before modification."@,
        "Map a Viewer selection (face/edge/vertex pick) to its owning component, feature, and stability risk. Use this when the user selects geometry in the Viewer and you need to understand which model feature it belongs to before making targeted modifications."@,
    ]
}

pub open spec fn specs_descriptions(v: Seq<AgentToolSpec>) -> Seq<Seq<char>> {
    v.map_values(|s: AgentToolSpec| s.description@)
}

fn spec_row(
    name: &'static str,
    description: &'static str,
    category: AgentToolCategory,
    allowed_modes: Vec<AgentMode>,
    path_policy: AgentToolPathPolicy,
) -> (r: AgentToolSpec)
    ensures
        spec_view(r) == row(name@, category, allowed_modes@, policy_view(path_policy)),
        r.description == description,
{
    AgentToolSpec {
        name,
        description,
        category,
        allowed_modes,
        requires_execution_scope: false,
        automatic_llm_tool: true,
        path_policy,
    }
}

fn readonly_ops() -> (r: Vec<AgentMode>)
    ensures
        r@ == readonly_modes(),
{
    let r = vec![AgentMode::Agent, AgentMode::Plan];
    proof {
        assert(r@ =~= readonly_modes());
    }
    r
}

fn one_mode(m: AgentMode) -> (r: Vec<AgentMode>)
    ensures
        r@ == seq![m],
{
    let r = vec![m];
    proof {
        assert(r@ =~= seq![m]);
    }
    r
}

/// Every registered tool, in registration order.
#[verifier::rlimit(100)]
pub fn agent_tool_specs() -> (r: Vec<AgentToolSpec>)
    ensures
        specs_view(r@) == tool_table(),
        specs_descriptions(r@) == tool_descriptions(),
{
    let mut r: Vec<AgentToolSpec> = Vec::new();
    r.push(spec_row("read_file", "Read a bounded UTF-8 text file from the workspace.", AgentToolCategory::ReadOnlyContext, readonly_ops(), workspace_text_read_policy_exec()));
    r.push(spec_row("list_directory", "List workspace directory entries with optional recursion and filtering.", AgentToolCategory::ReadOnlyContext, readonly_ops(), workspace_list_policy_exec()));
    r.push(spec_row("search_files", "Search text files in safe workspace ranges.", AgentToolCategory::ReadOnlyContext, readonly_ops(), workspace_text_read_policy_exec()));
    r.push(spec_row("get_project_context", "Summarize CadQuery project folders without reading large file bodies.", AgentToolCategory::ReadOnlyContext, readonly_ops(), workspace_list_policy_exec()));
    r.push(spec_row("get_selection", "Return the current Viewer selection snapshot.", AgentToolCategory::ReadOnlyContext, readonly_ops(), no_path_policy_exec()));
    r.push(spec_row("resolve_ref", "Resolve a visible MVP Ref to owner files and stability risks.", AgentToolCategory::ReadOnlyContext, readonly_ops(), workspace_text_read_policy_exec()));
    r.push(spec_row("save_cad_plan", "Persist a structured Markdown CAD Plan under plans/.", AgentToolCategory::SemanticState, one_mode(AgentMode::Plan), cad_plan_policy_exec()));
    r.push(spec_row("update_chat_summary", "Update Chat session metadata through ChatStore, not by editing JSONL.", AgentToolCategory::SemanticState, one_mode(AgentMode::Agent), chat_summary_policy_exec()));
    r.push(spec_row("write_file", "Write a non-model text file in Agent mode.", AgentToolCategory::FileWrite, one_mode(AgentMode::Agent), agent_text_write_policy_exec(CadQueryModelFilePolicy::Denied)));
    r.push(spec_row("patch_file", "Apply a deterministic patch with hash-based conflict checks.", AgentToolCategory::FileWrite, one_mode(AgentMode::Agent), agent_text_write_policy_exec(CadQueryModelFilePolicy::Denied)));
    r.push(spec_row("copy_file", "Copy a safe text file without changing CadQuery source content.", AgentToolCategory::FileWrite, one_mode(AgentMode::Agent), agent_text_write_policy_exec(CadQueryModelFilePolicy::CopyOnly)));
    r.push(spec_row("web_search", "Search the web using the configured search provider.", AgentToolCategory::WebSearch, readonly_ops(), no_path_policy_exec()));
    r.push(spec_row("fetch_url", "Fetch a web page and return its content as text or markdown.", AgentToolCategory::WebSearch, readonly_ops(), no_path_policy_exec()));
    r.push(spec_row("cadquery_analyze_source", "Analyze existing CadQuery source and paired design notes without executing Python. Use this to understand an existing model's structure, features, and parameters before modifying it. Typically follow with cadquery_check_source or cadquery_dry_run to validate changes.", AgentToolCategory::CadQuery, readonly_ops(), cadquery_read_policy_exec(OutputPathPolicy::Denied)));
    let mut check_modes = one_mode(AgentMode::Plan);
    check_modes.push(AgentMode::Agent);
    proof {
        assert(check_modes@ =~= seq![AgentMode::Plan, AgentMode::Agent]);
    }
    r.push(spec_row("cadquery_check_source", "Check proposed complete CadQuery source against the static model contract without executing Python. Use this to validate structure, naming, and contract compliance before committing to a dry_run. Available in both Plan and Agent mode.", AgentToolCategory::CadQuery, check_modes, cadquery_read_policy_exec(OutputPathPolicy::Denied)));
    r.push(spec_row("cadquery_dry_run", "Run proposed CadQuery code in staging without committing to the workspace. Use this to validate geometry, check for errors, and preview the result before calling cadquery_execute. Always dry_run before execute, especially after modifying code to fix a failure.", AgentToolCategory::CadQuery, one_mode(AgentMode::Agent), cadquery_read_policy_exec(OutputPathPolicy::TemporaryResultCacheOnly)));
    r.push(spec_row("cadquery_execute", "Commit CadQuery source and declared outputs through staging in Agent mode. This writes the model to the workspace and generates exports. Only call after a successful cadquery_dry_run. One successful execute per Agent run.", AgentToolCategory::CadQuery, one_mode(AgentMode::Agent), cadquery_execute_policy_exec()));
    r.push(spec_row("cadquery_get_result", "Return a lightweight CadQuery result summary (topology, features, bounding box, export paths) without full mesh arrays. Use this to inspect the current model state, verify a previous execute succeeded, or gather context before modification.", AgentToolCategory::CadQuery, readonly_ops(), result_cache_policy_exec()));
    r.push(spec_row("cadquery_resolve_selection", "Map a Viewer selection (face/edge/vertex pick) to its owning component, feature, and stability risk. Use this when the user selects geometry in the Viewer and you need to understand which model feature it belongs to before making targeted modifications.", AgentToolCategory::CadQuery, readonly_ops(), result_cache_policy_exec()));
    proof {
        assert(specs_view(r@).len() == tool_table().len());
        assert forall|k: int| 0 <= k < tool_table().len() implies specs_view(r@)[k] == tool_table()[k] by {
            assert(specs_view(r@)[k] == spec_view(r@[k]));
        }
        assert(specs_view(r@) =~= tool_table());
        assert(specs_descriptions(r@) =~= tool_descriptions());
    }
    r
}

// ---------------------------------------------------------------------------
// Permission

/// The first registered tool with a name.
pub open spec fn find_spec(table: Seq<SpecView>, name: Seq<char>) -> Option<SpecView>
    decreases table.len(),
{
    if table.len() == 0 {
        None
    } else if table[0].name == name {
        Some(table[0])
    } else {
        find_spec(table.drop_first(), name)
    }
}

/// The permission of a tool in a mode: unknown tools and tools of other
/// modes are denied, as are tools that need an execution scope without one.
pub open spec fn permission_for(name: Seq<char>, mode: AgentMode, has_execution_scope: bool) -> (bool, bool, Seq<char>) {
    match find_spec(tool_table(), name) {
        None => (false, false, "unknown tool"@),
        Some(spec) => if !spec.allowed_modes.contains(mode) {
            (false, spec.requires_execution_scope, "tool is not allowed for this mode"@)
        } else if spec.requires_execution_scope && !has_execution_scope {
            (false, true, "tool requires execution scope"@)
        } else {
            (true, spec.requires_execution_scope, "allowed"@)
        },
    }
}

pub open spec fn permission_view(p: AgentToolPermission) -> (bool, bool, Seq<char>) {
    (p.allowed, p.requires_execution_scope, p.reason@)
}

/// The index of the first registered tool with a name.
pub fn find_spec_index(specs: &Vec<AgentToolSpec>, name: &[char]) -> (r: Option<usize>)
    ensures
        match r {
            Some(i) => i < specs@.len() && find_spec(specs_view(specs@), name@) == Some(spec_view(specs@[i as int])),
            None => find_spec(specs_view(specs@), name@) is None,
        },
{
    let mut i: usize = 0;
    proof {
        assert(specs_view(specs@).subrange(0, specs@.len() as int) =~= specs_view(specs@));
    }
    while i < specs.len()
        invariant
            i <= specs.len(),
            find_spec(specs_view(specs@), name@) == find_spec(specs_view(specs@).subrange(i as int, specs@.len() as int), name@),
        decreases specs.len() - i,
    {
        let ghost rest = specs_view(specs@).subrange(i as int, specs@.len() as int);
        proof {
            assert(rest[0] == spec_view(specs@[i as int]));
            assert(rest.drop_first() =~= specs_view(specs@).subrange(i + 1, specs@.len() as int));
        }
        let n = chars_of(specs[i].name);
        if seq_eq(&n, name) {
            return Some(i);
        }
        i = i + 1;
    }
    None
}

fn modes_contain(modes: &Vec<AgentMode>, mode: AgentMode) -> (r: bool)
    ensures
        r == modes@.contains(mode),
{
    let mut i: usize = 0;
    while i < modes.len()
        invariant
            i <= modes.len(),
            forall|j: int| 0 <= j < i ==> modes@[j] != mode,
        decreases modes.len() - i,
    {
        if modes[i] == mode {
            return true;
        }
        i = i + 1;
    }
    false
}

/// The permission of a tool in a mode.
pub fn agent_tool_permission(tool_name: &str, mode: AgentMode, has_execution_scope: bool) -> (r: AgentToolPermission)
    ensures
        permission_view(r) == permission_for(tool_name@, mode, has_execution_scope),
{
    let specs = agent_tool_specs();
    let name = chars_of(tool_name);
    let found = find_spec_index(&specs, &name);
    match found {
        None => AgentToolPermission { allowed: false, requires_execution_scope: false, reason: "unknown tool" },
        Some(i) => {
            let spec = &specs[i];
            if !modes_contain(&spec.allowed_modes, mode) {
                AgentToolPermission {
                    allowed: false,
                    requires_execution_scope: spec.requires_execution_scope,
                    reason: "tool is not allowed for this mode",
                }
            } else if spec.requires_execution_scope && !has_execution_scope {
                AgentToolPermission { allowed: false, requires_execution_scope: true, reason: "tool requires execution scope" }
            } else {
                AgentToolPermission {
                    allowed: true,
                    requires_execution_scope: spec.requires_execution_scope,
                    reason: "allowed",
                }
            }
        },
    }
}

/// The names of the tools offered to the model in a mode.
pub open spec fn tools_for_mode(table: Seq<SpecView>, mode: AgentMode) -> Seq<Seq<char>>
    decreases table.len(),
{
    if table.len() == 0 {
        Seq::empty()
    } else {
        let rest = tools_for_mode(table.drop_last(), mode);
        if table.last().automatic_llm_tool && table.last().allowed_modes.contains(mode) {
            rest.push(table.last().name)
        } else {
            rest
        }
    }
}

/// A tool as the model is told of it, without its parameter schema.
#[derive(Debug, Clone, Copy, PartialEq, Eq)]
pub struct AgentToolDefinition {
    pub name: &'static str,
    pub description: &'static str,
}

pub open spec fn definition_names(v: Seq<AgentToolDefinition>) -> Seq<Seq<char>> {
    v.map_values(|d: AgentToolDefinition| d.name@)
}

pub open spec fn definitions_view(v: Seq<AgentToolDefinition>) -> Seq<(Seq<char>, Seq<char>)> {
    v.map_values(|d: AgentToolDefinition| (d.name@, d.description@))
}

/// The names and descriptions of the tools offered to the model in a mode.
pub open spec fn definitions_for_mode(table: Seq<SpecView>, descriptions: Seq<Seq<char>>, mode: AgentMode) -> Seq<
    (Seq<char>, Seq<char>),
>
    decreases table.len(),
{
    if table.len() == 0 {
        Seq::empty()
    } else {
        let rest = definitions_for_mode(table.drop_last(), descriptions.take(table.len() - 1), mode);
        if table.last().automatic_llm_tool && table.last().allowed_modes.contains(mode) {
            rest.push((table.last().name, descriptions[table.len() - 1]))
        } else {
            rest
        }
    }
}

/// The tools offered to the model in a mode, in registration order.
pub fn agent_tool_definitions_for_mode(mode: AgentMode) -> (r: Vec<AgentToolDefinition>)
    ensures
        definition_names(r@) == tools_for_mode(tool_table(), mode),
        definitions_view(r@) == definitions_for_mode(tool_table(), tool_descriptions(), mode),
{
    let specs = agent_tool_specs();
    let ghost descs = specs_descriptions(specs@);
    let mut out: Vec<AgentToolDefinition> = Vec::new();
    let mut i: usize = 0;
    proof {
        assert(specs_view(specs@).take(0) =~= Seq::<SpecView>::empty());
        assert(definition_names(out@) =~= Seq::<Seq<char>>::empty());
        assert(definitions_view(out@) =~= Seq::<(Seq<char>, Seq<char>)>::empty());
    }
    while i < specs.len()
        invariant
            i <= specs.len(),
            specs_view(specs@) == tool_table(),
            descs == specs_descriptions(specs@),
            definition_names(out@) == tools_for_mode(specs_view(specs@).take(i as int), mode),
            definitions_view(out@) == definitions_for_mode(specs_view(specs@).take(i as int), descs.take(i as int), mode),
        decreases specs.len() - i,
    {
        proof {
            let t = specs_view(specs@).take(i + 1);
            assert(t.drop_last() =~= specs_view(specs@).take(i as int));
            assert(t.last() == spec_view(specs@[i as int]));
            assert(descs.take(i + 1).take(i as int) =~= descs.take(i as int));
            assert(descs.take(i + 1)[i as int] == specs@[i as int].description@);
        }
        if specs[i].automatic_llm_tool && modes_contain(&specs[i].allowed_modes, mode) {
            let ghost before = definition_names(out@);
            let ghost before_defs = definitions_view(out@);
            out.push(AgentToolDefinition { name: specs[i].name, description: specs[i].description });
            proof {
                assert(definition_names(out@) =~= before.push(specs@[i as int].name@));
                assert(definitions_view(out@) =~= before_defs.push(
                    (specs@[i as int].name@, specs@[i as int].description@),
                ));
            }
        }
        i = i + 1;
    }
    proof {
        assert(specs_view(specs@).take(specs@.len() as int) =~= specs_view(specs@));
        assert(descs.take(specs@.len() as int) =~= descs);
    }
    out
}

// ---------------------------------------------------------------------------
// Plan mode writes no files

/// A tool that changes workspace files: a file write tool, or one that works
/// inside a confirmed execution scope.
pub open spec fn changes_workspace(spec: SpecView) -> bool {
    spec.category == AgentToolCategory::FileWrite || spec.path_policy.uses_execution_scope
}

proof fn lemma_find_spec_in_table(table: Seq<SpecView>, name: Seq<char>)
    ensures
        find_spec(table, name) matches Some(x) ==> exists|k: int| 0 <= k < table.len() && table[k] == x,
    decreases table.len(),
{
    if table.len() > 0 && table[0].name != name {
        lemma_find_spec_in_table(table.drop_first(), name);
        if find_spec(table, name) is Some {
            let x = find_spec(table, name)->0;
            let k = choose|k: int| 0 <= k < table.drop_first().len() && table.drop_first()[k] == x;
            assert(table[k + 1] == x);
        }
    }
}

/// No file write tool and no tool that works inside an execution scope is
/// allowed in Plan mode, with or without an execution scope.
pub proof fn law_plan_mode_runs_no_file_writes(name: Seq<char>, has_execution_scope: bool)
    ensures
        permission_for(name, AgentMode::Plan, has_execution_scope).0 ==> !changes_workspace(
            find_spec(tool_table(), name)->0,
        ),
{
    let t = tool_table();
    lemma_find_spec_in_table(t, name);
    if permission_for(name, AgentMode::Plan, has_execution_scope).0 {
        let x = find_spec(t, name)->0;
        let k = choose|k: int| 0 <= k < t.len() && t[k] == x;
        assert(x.allowed_modes.contains(AgentMode::Plan));
        let agent_only: Seq<AgentMode> = seq![AgentMode::Agent];
        assert(!agent_only.contains(AgentMode::Plan)) by {
            if agent_only.contains(AgentMode::Plan) {
                let i = choose|i: int| 0 <= i < agent_only.len() && agent_only[i] == AgentMode::Plan;
                assert(agent_only[i] == AgentMode::Agent);
            }
        }
        assert(t.len() == 19);
        if k == 8 || k == 9 || k == 10 || k == 15 || k == 16 {
            assert(t[k].allowed_modes == agent_only);
        } else {
            assert(!changes_workspace(t[k]));
        }
    }
}

} // verus!
