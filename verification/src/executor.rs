//! How the workspace executor routes a tool call, and how the agent folds
//! the model's stream of events into the turn's text and tool calls.
use vstd::prelude::*;
use vstd::string::StringExecFns;
use crate::model::AgentMode;
use crate::scope::{AgentExecutionScope, opt_scope_view};
use crate::text::{chars_of, eq_lit, seq_eq};
use crate::tool_policy::{
    ParsedToolArgs, ToolPolicyError, direct_refusal, refusal_view, registered_refusal,
    validate_direct_executor_permission,
};
use crate::tool_runtime::AgentToolCall;

verus! {

// ---------------------------------------------------------------------------
// Routing

/// Where the workspace executor sends a tool call.
#[derive(Debug, Clone, Copy, PartialEq, Eq, Structural)]
pub enum ToolRoute {
    ReadFile,
    ListDirectory,
    SearchFiles,
    GetProjectContext,
    GetSelection,
    ResolveRef,
    SaveCadPlan,
    UpdateChatSummary,
    WriteFile,
    PatchFile,
    CopyFile,
    WebSearch,
    /// `web_search` without a configured provider.
    WebSearchNotConfigured,
    FetchUrl,
    CadQueryAnalyzeSource,
    CadQueryCheckSource,
    CadQueryDryRun,
    CadQueryExecute,
    CadQueryGetResult,
    CadQueryResolveSelection,
    /// A name this executor has no handler for.
    NotImplemented,
}

/// The handler of each tool name.
pub open spec fn route_of(name: Seq<char>, web_search_configured: bool) -> ToolRoute {
    if name == "read_file"@ {
        ToolRoute::ReadFile
    } else if name == "list_directory"@ {
        ToolRoute::ListDirectory
    } else if name == "search_files"@ {
        ToolRoute::SearchFiles
    } else if name == "get_project_context"@ {
        ToolRoute::GetProjectContext
    } else if name == "get_selection"@ {
        ToolRoute::GetSelection
    } else if name == "resolve_ref"@ {
        ToolRoute::ResolveRef
    } else if name == "save_cad_plan"@ {
        ToolRoute::SaveCadPlan
    } else if name == "update_chat_summary"@ {
        ToolRoute::UpdateChatSummary
    } else if name == "write_file"@ {
        ToolRoute::WriteFile
    } else if name == "patch_file"@ {
        ToolRoute::PatchFile
    } else if name == "copy_file"@ {
        ToolRoute::CopyFile
    } else if name == "web_search"@ {
        if web_search_configured {
            ToolRoute::WebSearch
        } else {
            ToolRoute::WebSearchNotConfigured
        }
    } else if name == "fetch_url"@ {
        ToolRoute::FetchUrl
    } else if name == "cadquery_analyze_source"@ {
        ToolRoute::CadQueryAnalyzeSource
    } else if name == "cadquery_check_source"@ {
        ToolRoute::CadQueryCheckSource
    } else if name == "cadquery_dry_run"@ {
        ToolRoute::CadQueryDryRun
    } else if name == "cadquery_execute"@ {
        ToolRoute::CadQueryExecute
    } else if name == "cadquery_get_result"@ {
        ToolRoute::CadQueryGetResult
    } else if name == "cadquery_resolve_selection"@ {
        ToolRoute::CadQueryResolveSelection
    } else {
        ToolRoute::NotImplemented
    }
}

/// The handler of a tool name.
pub fn tool_route(name: &str, web_search_configured: bool) -> (r: ToolRoute)
    ensures
        r == route_of(name@, web_search_configured),
{
    let n = chars_of(name);
    if eq_lit(&n, "read_file") {
        ToolRoute::ReadFile
    } else if eq_lit(&n, "list_directory") {
        ToolRoute::ListDirectory
    } else if eq_lit(&n, "search_files") {
        ToolRoute::SearchFiles
    } else if eq_lit(&n, "get_project_context") {
        ToolRoute::GetProjectContext
    } else if eq_lit(&n, "get_selection") {
        ToolRoute::GetSelection
    } else if eq_lit(&n, "resolve_ref") {
        ToolRoute::ResolveRef
    } else if eq_lit(&n, "save_cad_plan") {
        ToolRoute::SaveCadPlan
    } else if eq_lit(&n, "update_chat_summary") {
        ToolRoute::UpdateChatSummary
    } else if eq_lit(&n, "write_file") {
        ToolRoute::WriteFile
    } else if eq_lit(&n, "patch_file") {
        ToolRoute::PatchFile
    } else if eq_lit(&n, "copy_file") {
        ToolRoute::CopyFile
    } else if eq_lit(&n, "web_search") {
        if web_search_configured {
            ToolRoute::WebSearch
        } else {
            ToolRoute::WebSearchNotConfigured
        }
    } else if eq_lit(&n, "fetch_url") {
        ToolRoute::FetchUrl
    } else if eq_lit(&n, "cadquery_analyze_source") {
        ToolRoute::CadQueryAnalyzeSource
    } else if eq_lit(&n, "cadquery_check_source") {
        ToolRoute::CadQueryCheckSource
    } else if eq_lit(&n, "cadquery_dry_run") {
        ToolRoute::CadQueryDryRun
    } else if eq_lit(&n, "cadquery_execute") {
        ToolRoute::CadQueryExecute
    } else if eq_lit(&n, "cadquery_get_result") {
        ToolRoute::CadQueryGetResult
    } else if eq_lit(&n, "cadquery_resolve_selection") {
        ToolRoute::CadQueryResolveSelection
    } else {
        ToolRoute::NotImplemented
    }
}

/// The error a route answers with by itself, without running anything.
pub open spec fn route_failure(route: ToolRoute) -> Option<(Seq<char>, Seq<char>)> {
    match route {
        ToolRoute::WebSearchNotConfigured => Some(("web search provider not configured"@, "web_search_error"@)),
        ToolRoute::NotImplemented => Some(
            ("tool is registered but not implemented by this executor"@, "unsupported_tool"@),
        ),
        _ => None,
    }
}

/// The error of a route that cannot run.
pub fn route_error(route: ToolRoute) -> (r: Option<ToolPolicyError>)
    ensures
        refusal_view(r) == route_failure(route),
{
    match route {
        ToolRoute::WebSearchNotConfigured => Some(
            ToolPolicyError { message: "web search provider not configured".to_owned(), error_type: "web_search_error" },
        ),
        ToolRoute::NotImplemented => Some(
            ToolPolicyError {
                message: "tool is registered but not implemented by this executor".to_owned(),
                error_type: "unsupported_tool",
            },
        ),
        _ => None,
    }
}

/// The executor's decision for a call: refused by the registry's own
/// permission and path checks (a refusal that is recorded against the
/// plan), or sent to its handler.
pub open spec fn executor_decision(
    tool: Seq<char>,
    mode: AgentMode,
    args: ParsedToolArgs,
    scope: Option<crate::scope::ScopeView>,
    web_search_configured: bool,
) -> Result<ToolRoute, (Seq<char>, Seq<char>)> {
    match direct_refusal(tool, mode, args, scope) {
        Some(e) => Err(e),
        None => Ok(route_of(tool, web_search_configured)),
    }
}

/// Decides where the workspace executor sends a call.
pub fn plan_tool_execution(
    tool_name: &str,
    mode: AgentMode,
    args: &ParsedToolArgs,
    execution_scope: Option<&AgentExecutionScope>,
    web_search_configured: bool,
) -> (r: Result<ToolRoute, ToolPolicyError>)
    ensures
        match (r, executor_decision(tool_name@, mode, *args, opt_scope_view(execution_scope), web_search_configured)) {
            (Ok(a), Ok(b)) => a == b,
            (Err(a), Err(b)) => a@ == b,
            _ => false,
        },
{
    match validate_direct_executor_permission(tool_name, mode, args, execution_scope) {
        Some(e) => Err(e),
        None => Ok(tool_route(tool_name, web_search_configured)),
    }
}

/// A call that passed the registry's checks is never refused by the
/// executor's own check, and is sent to its handler.
pub proof fn law_registry_approval_reaches_handler(
    tool: Seq<char>,
    mode: AgentMode,
    args: ParsedToolArgs,
    scope: Option<crate::scope::ScopeView>,
    web_search_configured: bool,
)
    requires
        registered_refusal(tool, mode, args, scope) is None,
    ensures
        executor_decision(tool, mode, args, scope, web_search_configured) == Ok::<
            ToolRoute,
            (Seq<char>, Seq<char>),
        >(route_of(tool, web_search_configured)),
{
}

// ---------------------------------------------------------------------------
// The model's stream

pub open spec fn call_view(c: AgentToolCall) -> (Seq<char>, Seq<char>, Seq<char>) {
    (c.id@, c.function_name@, c.arguments@)
}

pub open spec fn calls_view(v: Seq<AgentToolCall>) -> Seq<(Seq<char>, Seq<char>, Seq<char>)> {
    v.map_values(|c: AgentToolCall| call_view(c))
}

/// A copy of a call.
pub fn copy_call(c: &AgentToolCall) -> (r: AgentToolCall)
    ensures
        call_view(r) == call_view(*c),
{
    AgentToolCall { id: c.id.clone(), function_name: c.function_name.clone(), arguments: c.arguments.clone() }
}

/// One event of the model's stream, as far as the turn reads it.
#[derive(Debug, Clone, PartialEq, Eq)]
pub enum StreamEvent {
    /// A piece of the answer's text.
    Text(String),
    /// A reasoning block: the text of each part that has one.
    Reasoning(Vec<Option<String>>),
    /// A piece of reasoning text.
    ReasoningDelta(String),
    /// The model calls a tool.
    ToolCall(AgentToolCall),
    /// A tool's result came back: the call's id and the result's text.
    ToolResult { id: String, text: String },
    /// The final answer.
    Final(String),
    /// Anything else.
    Other,
}

/// What the turn does for an event.
#[derive(Debug, Clone, PartialEq, Eq)]
pub enum StreamAction {
    /// Hand a piece of the answer to the token callback.
    Token(String),
    /// Hand each text to the reasoning callback.
    Reasoning(Vec<String>),
    /// Tell the observer that the call started, and queue it for the tool
    /// that will run it.
    ToolStarted(AgentToolCall),
    /// Tell the observer what the call returned.
    ToolFinished(AgentToolCall, String),
    Nothing,
}

/// What the turn has gathered from the stream so far.
#[derive(Debug)]
pub struct RigStreamState {
    pub text: String,
    pub final_text: Option<String>,
    pub calls: Vec<AgentToolCall>,
}

pub open spec fn opt_view(o: Option<String>) -> Option<Seq<char>> {
    match o {
        Some(s) => Some(s@),
        None => None,
    }
}

impl View for RigStreamState {
    type V = (Seq<char>, Option<Seq<char>>, Seq<(Seq<char>, Seq<char>, Seq<char>)>);

    open spec fn view(&self) -> Self::V {
        (self.text@, opt_view(self.final_text), calls_view(self.calls@))
    }
}

/// The texts of the parts that have one, in order.
pub open spec fn present_texts(parts: Seq<Option<String>>) -> Seq<Seq<char>>
    decreases parts.len(),
{
    if parts.len() == 0 {
        Seq::empty()
    } else {
        let prev = present_texts(parts.drop_last());
        match parts.last() {
            Some(t) => prev.push(t@),
            None => prev,
        }
    }
}

pub open spec fn string_views(v: Seq<String>) -> Seq<Seq<char>> {
    v.map_values(|s: String| s@)
}

/// The index of the first call with the given id.
pub open spec fn first_with_id(calls: Seq<(Seq<char>, Seq<char>, Seq<char>)>, id: Seq<char>) -> Option<int> {
    if exists|k: int| 0 <= k < calls.len() && calls[k].0 == id {
        Some(choose|k: int| 0 <= k < calls.len() && calls[k].0 == id && forall|m: int| 0 <= m < k ==> calls[m].0 != id)
    } else {
        None
    }
}

/// The index of the first call with the given tool name.
pub open spec fn first_with_name(calls: Seq<(Seq<char>, Seq<char>, Seq<char>)>, name: Seq<char>) -> Option<int> {
    if exists|k: int| 0 <= k < calls.len() && calls[k].1 == name {
        Some(choose|k: int| 0 <= k < calls.len() && calls[k].1 == name && forall|m: int| 0 <= m < k ==> calls[m].1 != name)
    } else {
        None
    }
}

/// What each event does to the gathered state.
pub open spec fn stream_state_after(
    s: (Seq<char>, Option<Seq<char>>, Seq<(Seq<char>, Seq<char>, Seq<char>)>),
    e: StreamEvent,
) -> (Seq<char>, Option<Seq<char>>, Seq<(Seq<char>, Seq<char>, Seq<char>)>) {
    match e {
        StreamEvent::Text(t) => (s.0 + t@, s.1, s.2),
        StreamEvent::ToolCall(c) => (s.0, s.1, s.2.push(call_view(c))),
        StreamEvent::Final(t) => (s.0, Some(t@), s.2),
        _ => s,
    }
}

/// What the turn does for each event: a text piece goes to the token
/// callback, reasoning texts to the reasoning callback, a call to the
/// observer's start, a result to the observer together with the first
/// gathered call of its id (nothing where none has it).
pub open spec fn stream_action(
    s: (Seq<char>, Option<Seq<char>>, Seq<(Seq<char>, Seq<char>, Seq<char>)>),
    e: StreamEvent,
    a: StreamAction,
) -> bool {
    match e {
        StreamEvent::Text(t) => a matches StreamAction::Token(x) && x@ == t@,
        StreamEvent::Reasoning(parts) => a matches StreamAction::Reasoning(v) && string_views(v@) == present_texts(
            parts@,
        ),
        StreamEvent::ReasoningDelta(t) => a matches StreamAction::Reasoning(v) && string_views(v@) == seq![t@],
        StreamEvent::ToolCall(c) => a matches StreamAction::ToolStarted(x) && call_view(x) == call_view(c),
        StreamEvent::ToolResult { id, text } => match first_with_id(s.2, id@) {
            Some(k) => a matches StreamAction::ToolFinished(x, y) && call_view(x) == s.2[k] && y@ == text@,
            None => a is Nothing,
        },
        _ => a is Nothing,
    }
}

fn collect_present_texts(parts: &Vec<Option<String>>) -> (r: Vec<String>)
    ensures
        string_views(r@) == present_texts(parts@),
{
    let mut out: Vec<String> = Vec::new();
    let mut i: usize = 0;
    proof {
        assert(parts@.take(0) =~= Seq::<Option<String>>::empty());
        assert(string_views(out@) =~= Seq::<Seq<char>>::empty());
    }
    while i < parts.len()
        invariant
            i <= parts.len(),
            string_views(out@) == present_texts(parts@.take(i as int)),
        decreases parts.len() - i,
    {
        proof {
            assert(parts@.take(i + 1).drop_last() =~= parts@.take(i as int));
        }
        match &parts[i] {
            Some(t) => {
                let ghost before = string_views(out@);
                out.push(t.clone());
                proof {
                    assert(string_views(out@) =~= before.push(t@));
                }
            },
            None => {},
        }
        i = i + 1;
    }
    proof {
        assert(parts@.take(parts.len() as int) =~= parts@);
    }
    out
}

fn find_call_by_id(calls: &Vec<AgentToolCall>, id: &str) -> (r: Option<usize>)
    ensures
        match (r, first_with_id(calls_view(calls@), id@)) {
            (Some(a), Some(b)) => a == b,
            (None, None) => true,
            _ => false,
        },
        r is Some ==> r->0 < calls@.len(),
{
    let ghost cv = calls_view(calls@);
    let idc = chars_of(id);
    let mut i: usize = 0;
    while i < calls.len()
        invariant
            i <= calls.len(),
            cv == calls_view(calls@),
            idc@ == id@,
            forall|m: int| 0 <= m < i ==> cv[m].0 != id@,
        decreases calls.len() - i,
    {
        if seq_eq(&chars_of(calls[i].id.as_str()), &idc) {
            proof {
                assert(cv[i as int].0 == id@);
                let k = first_with_id(cv, id@)->0;
                assert(0 <= k < cv.len() && cv[k].0 == id@ && forall|m: int| 0 <= m < k ==> cv[m].0 != id@);
                if k < i {
                    assert(cv[k].0 != id@);
                }
                if k > i {
                    assert(cv[i as int].0 != id@);
                }
            }
            return Some(i);
        }
        i = i + 1;
    }
    None
}

impl RigStreamState {
    pub fn new() -> (r: Self)
        ensures
            r@ == (Seq::<char>::empty(), None::<Seq<char>>, Seq::<(Seq<char>, Seq<char>, Seq<char>)>::empty()),
    {
        let r = RigStreamState { text: String::new(), final_text: None, calls: Vec::new() };
        proof {
            assert(calls_view(r.calls@) =~= Seq::<(Seq<char>, Seq<char>, Seq<char>)>::empty());
        }
        r
    }

    /// Takes one event of the stream.
    pub fn handle(&mut self, event: StreamEvent) -> (r: StreamAction)
        ensures
            final(self)@ == stream_state_after(old(self)@, event),
            stream_action(old(self)@, event, r),
    {
        match event {
            StreamEvent::Text(t) => {
                let ghost tv = t@;
                self.text.append(t.as_str());
                let r = StreamAction::Token(t);
                assert(r matches StreamAction::Token(x) && x@ == tv);
                r
            },
            StreamEvent::Reasoning(parts) => StreamAction::Reasoning(collect_present_texts(&parts)),
            StreamEvent::ReasoningDelta(t) => {
                let v = vec![t];
                proof {
                    assert(string_views(v@) =~= seq![v@[0]@]);
                }
                StreamAction::Reasoning(v)
            },
            StreamEvent::ToolCall(c) => {
                let started = copy_call(&c);
                let ghost before = calls_view(self.calls@);
                self.calls.push(c);
                proof {
                    assert(calls_view(self.calls@) =~= before.push(call_view(started)));
                }
                StreamAction::ToolStarted(started)
            },
            StreamEvent::ToolResult { id, text } => match find_call_by_id(&self.calls, id.as_str()) {
                Some(k) => StreamAction::ToolFinished(copy_call(&self.calls[k]), text),
                None => StreamAction::Nothing,
            },
            StreamEvent::Final(t) => {
                self.final_text = Some(t);
                StreamAction::Nothing
            },
            StreamEvent::Other => StreamAction::Nothing,
        }
    }

    /// The turn's answer: the final response where one came, else the text
    /// gathered from the pieces.
    pub fn final_text(self) -> (r: String)
        ensures
            r@ == match self@.1 {
                Some(t) => t,
                None => self@.0,
            },
    {
        match self.final_text {
            Some(t) => t,
            None => self.text,
        }
    }
}

// ---------------------------------------------------------------------------
// Calls waiting for their tool

/// The calls the model announced, waiting for the tool that runs them.
#[derive(Debug)]
pub struct PendingToolCalls {
    pub calls: Vec<AgentToolCall>,
}

impl View for PendingToolCalls {
    type V = Seq<(Seq<char>, Seq<char>, Seq<char>)>;

    open spec fn view(&self) -> Self::V {
        calls_view(self.calls@)
    }
}

/// The call a tool runs: the first one waiting under its name, with the
/// arguments the tool was given, else a new call named after the tool.
pub open spec fn taken_call(
    pending: Seq<(Seq<char>, Seq<char>, Seq<char>)>,
    name: Seq<char>,
    args: Seq<char>,
) -> (Seq<(Seq<char>, Seq<char>, Seq<char>)>, (Seq<char>, Seq<char>, Seq<char>)) {
    match first_with_name(pending, name) {
        Some(k) => (pending.remove(k), (pending[k].0, pending[k].1, args)),
        None => (pending, ("rig_"@ + name, name, args)),
    }
}

impl PendingToolCalls {
    pub fn new() -> (r: Self)
        ensures
            r@.len() == 0,
    {
        PendingToolCalls { calls: Vec::new() }
    }

    /// Queues a call.
    pub fn push_back(&mut self, call: AgentToolCall)
        ensures
            final(self)@ == old(self)@.push(call_view(call)),
    {
        let ghost before = self@;
        let ghost cv = call_view(call);
        self.calls.push(call);
        proof {
            assert(self@ =~= before.push(cv));
        }
    }

    /// Takes the call that the tool `name` runs with `args`.
    pub fn take(&mut self, name: &str, args: String) -> (r: AgentToolCall)
        ensures
            (final(self)@, call_view(r)) == taken_call(old(self)@, name@, args@),
    {
        let ghost cv = self@;
        let nc = chars_of(name);
        let mut i: usize = 0;
        while i < self.calls.len()
            invariant
                i <= self.calls.len(),
                cv == self@,
                cv == old(self)@,
                nc@ == name@,
                forall|m: int| 0 <= m < i ==> cv[m].1 != name@,
            decreases self.calls.len() - i,
        {
            if seq_eq(&chars_of(self.calls[i].function_name.as_str()), &nc) {
                proof {
                    assert(cv[i as int].1 == name@);
                    let k = first_with_name(cv, name@)->0;
                    assert(0 <= k < cv.len() && cv[k].1 == name@ && forall|m: int| 0 <= m < k ==> cv[m].1 != name@);
                    if k < i {
                        assert(cv[k].1 != name@);
                    }
                    if k > i {
                        assert(cv[i as int].1 != name@);
                    }
                    assert(first_with_name(cv, name@) == Some(i as int));
                }
                let mut call = self.calls.remove(i);
                proof {
                    assert(self@ =~= cv.remove(i as int));
                    assert(call_view(call) == cv[i as int]);
                }
                let ghost av = args@;
                call.arguments = args;
                proof {
                    assert(call_view(call) == (cv[i as int].0, cv[i as int].1, av));
                    assert(taken_call(cv, name@, av) == (cv.remove(i as int), (cv[i as int].0, cv[i as int].1, av)));
                }
                return call;
            }
            i = i + 1;
        }
        let mut id = "rig_".to_owned();
        id.append(name);
        AgentToolCall { id, function_name: name.to_owned(), arguments: args }
    }
}

} // verus!
