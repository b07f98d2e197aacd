//! What an agent turn hands the model: the context block before the
//! prompt, the chat history it may see, and the code block it replies with.
use vstd::prelude::*;
use vstd::string::StringExecFns;
use crate::model::{AgentMode, CadQueryObjectKind, kind_label, target_type_label};
use crate::preview::{decimal, decimal_usize};
use crate::scope::AgentExecutionScope;
use crate::selection::{SelectionKind, SelectionRef, opt_text, string_views};
use crate::text::{
    append_chars, append_lit, chars_of, find, find_exec, join_with, occurs_at, slice_vec, string_of, trim, trim_exec,
    views,
};

verus! {

// ---------------------------------------------------------------------------
// Chat history

/// Who wrote a chat message.
#[derive(Debug, Clone, Copy, PartialEq, Eq, Structural)]
pub enum ChatRole {
    User,
    Assistant,
    Tool,
    Meta,
}

/// A stored chat message, as far as a turn reads it: its role, its text and
/// how many tool calls it made.
#[derive(Debug, Clone, PartialEq, Eq)]
pub struct ChatMessageRecord {
    pub role: ChatRole,
    pub content: String,
    pub tool_call_count: usize,
}

/// The role a message takes in the history the model sees; tool and meta
/// messages take none.
pub open spec fn role_label(role: ChatRole) -> Option<Seq<char>> {
    match role {
        ChatRole::User => Some("user"@),
        ChatRole::Assistant => Some("assistant"@),
        _ => None,
    }
}

/// An assistant message that only stood for tool calls.
pub open spec fn is_placeholder(m: ChatMessageRecord) -> bool {
    m.tool_call_count > 0 || trim(m.content@) == "agent tool started"@
}

/// The history as the model sees it: user and assistant messages, trimmed,
/// without empty ones and without tool-call placeholders, each message
/// joined to the one before it with a blank line when both have one role.
pub open spec fn effective_history(h: Seq<ChatMessageRecord>) -> Seq<(Seq<char>, Seq<char>)>
    decreases h.len(),
{
    if h.len() == 0 {
        Seq::empty()
    } else {
        let prev = effective_history(h.drop_last());
        let m = h.last();
        match role_label(m.role) {
            None => prev,
            Some(role) => {
                let c = trim(m.content@);
                if role == "assistant"@ && is_placeholder(m) {
                    prev
                } else if c.len() == 0 {
                    prev
                } else if prev.len() > 0 && prev.last().0 == role {
                    prev.update(prev.len() - 1, (role, prev.last().1 + "\n\n"@ + c))
                } else {
                    prev.push((role, c))
                }
            },
        }
    }
}

pub open spec fn pairs_view(v: Seq<(&'static str, String)>) -> Seq<(Seq<char>, Seq<char>)> {
    v.map_values(|p: (&'static str, String)| (p.0@, p.1@))
}

/// No two neighbours of the effective history share a role, every entry
/// is a user or assistant entry, and none is empty.
pub proof fn lemma_effective_history_alternates(h: Seq<ChatMessageRecord>)
    ensures
        forall|i: int|
            0 <= i < effective_history(h).len() - 1 ==> #[trigger] effective_history(h)[i].0 != effective_history(
                h,
            )[i + 1].0,
        forall|i: int|
            0 <= i < effective_history(h).len() ==> (#[trigger] effective_history(h)[i]).1.len() > 0 && (
            effective_history(h)[i].0 == "user"@ || effective_history(h)[i].0 == "assistant"@),
    decreases h.len(),
{
    if h.len() > 0 {
        lemma_effective_history_alternates(h.drop_last());
        let prev = effective_history(h.drop_last());
        let e = effective_history(h);
        assert forall|i: int| 0 <= i < e.len() - 1 implies #[trigger] e[i].0 != e[i + 1].0 by {
            if i < prev.len() - 1 {
                assert(e[i] == prev[i] || i == prev.len() - 1);
                assert(e[i].0 == prev[i].0);
                assert(e[i + 1].0 == prev[i + 1].0);
            }
        }
    }
}

fn role_label_exec(role: ChatRole) -> (r: Option<&'static str>)
    ensures
        match r {
            Some(l) => role_label(role) == Some(l@),
            None => role_label(role) is None,
        },
{
    match role {
        ChatRole::User => Some("user"),
        ChatRole::Assistant => Some("assistant"),
        _ => None,
    }
}

/// The history as the model sees it.
pub fn collect_effective_history(history: &Vec<ChatMessageRecord>) -> (r: Vec<(&'static str, String)>)
    ensures
        pairs_view(r@) == effective_history(history@),
{
    let mut result: Vec<(&'static str, String)> = Vec::new();
    let mut i: usize = 0;
    proof {
        assert(history@.take(0) =~= Seq::<ChatMessageRecord>::empty());
        assert(pairs_view(result@) =~= Seq::<(Seq<char>, Seq<char>)>::empty());
    }
    while i < history.len()
        invariant
            i <= history.len(),
            pairs_view(result@) == effective_history(history@.take(i as int)),
        decreases history.len() - i,
    {
        let m = &history[i];
        let ghost prev = pairs_view(result@);
        let ghost next = effective_history(history@.take(i + 1));
        proof {
            assert(history@.take(i + 1).drop_last() =~= history@.take(i as int));
            assert(history@.take(i + 1).last() == *m);
            reveal_strlit("assistant");
            reveal_strlit("user");
        }
        let role = match role_label_exec(m.role) {
            Some(l) => l,
            None => {
                i = i + 1;
                continue;
            },
        };
        let content = trim_exec(&chars_of(m.content.as_str()));
        let is_assistant = match m.role {
            ChatRole::Assistant => true,
            _ => false,
        };
        proof {
            assert("user"@ != "assistant"@) by {
                assert("user"@.len() != "assistant"@.len());
            }
            assert(role@ == "assistant"@ <==> is_assistant);
        }
        if is_assistant && (m.tool_call_count > 0 || crate::text::eq_lit(&content, "agent tool started")) {
            proof {
                assert(next == prev);
            }
            i = i + 1;
            continue;
        }
        if content.len() == 0 {
            proof {
                assert(next == prev);
            }
            i = i + 1;
            continue;
        }
        let n = result.len();
        let same_role = n > 0 && crate::text::eq_lit(&chars_of(result[n - 1].0), role);
        if same_role {
            let (r0, mut last) = result.pop().unwrap();
            last.append("\n\n");
            last.append(string_of(&content).as_str());
            result.push((r0, last));
            proof {
                assert(next == prev.update(prev.len() - 1, (role@, prev.last().1 + "\n\n"@ + content@)));
                assert(pairs_view(result@) =~= prev.update(prev.len() - 1, (role@, prev.last().1 + "\n\n"@ + content@)));
            }
        } else {
            result.push((role, string_of(&content)));
            proof {
                assert(next == prev.push((role@, content@)));
                assert(pairs_view(result@) =~= prev.push((role@, content@)));
            }
        }
        i = i + 1;
    }
    proof {
        assert(history@.take(history.len() as int) =~= history@);
    }
    result
}

// ---------------------------------------------------------------------------
// The chat summary

/// The string fields `type` and `summary` of a message read as a JSON
/// object, where it is one and they are strings.
pub uninterp spec fn json_type_and_summary(content: Seq<char>) -> (Option<Seq<char>>, Option<Seq<char>>);

pub open spec fn opt_seq(o: Option<String>) -> Option<Seq<char>> {
    match o {
        Some(s) => Some(s@),
        None => None,
    }
}

/// Parses a message with `serde_json::from_str` into a `serde_json::Value`
/// and reads its string fields `type` and `summary` with `Value::get` and
/// `Value::as_str`; both are `None` where the text is no JSON. The contract
/// names the result without stating what JSON parsing does.
#[verifier::external_body]
fn type_and_summary(content: &str) -> (r: (Option<String>, Option<String>))
    ensures
        (opt_seq(r.0), opt_seq(r.1)) == json_type_and_summary(content@),
{
    let value: serde_json::Value = match serde_json::from_str(content) {
        Ok(v) => v,
        Err(_) => return (None, None),
    };
    let kind = match value.get("type") {
        Some(v) => v.as_str().map(str::to_owned),
        None => None,
    };
    let summary = match value.get("summary") {
        Some(v) => v.as_str().map(str::to_owned),
        None => None,
    };
    (kind, summary)
}

/// The summary of the latest meta message that holds a chat summary.
pub open spec fn latest_chat_summary(h: Seq<ChatMessageRecord>) -> Option<Seq<char>>
    decreases h.len(),
{
    if h.len() == 0 {
        None
    } else {
        let m = h.last();
        let fields = json_type_and_summary(m.content@);
        if m.role == ChatRole::Meta && fields.0 == Some("chat_summary"@) && fields.1 is Some {
            fields.1
        } else {
            latest_chat_summary(h.drop_last())
        }
    }
}

pub fn extract_latest_chat_summary(history: &Vec<ChatMessageRecord>) -> (r: Option<String>)
    ensures
        opt_seq(r) == latest_chat_summary(history@),
{
    let mut i: usize = history.len();
    proof {
        assert(history@.take(history.len() as int) =~= history@);
    }
    while i > 0
        invariant
            i <= history.len(),
            latest_chat_summary(history@) == latest_chat_summary(history@.take(i as int)),
        decreases i,
    {
        let m = &history[i - 1];
        proof {
            assert(history@.take(i as int).drop_last() =~= history@.take(i - 1));
            assert(history@.take(i as int).last() == *m);
        }
        let is_meta = match m.role {
            ChatRole::Meta => true,
            _ => false,
        };
        if is_meta {
            let (kind, summary) = type_and_summary(m.content.as_str());
            let is_summary = match &kind {
                Some(k) => crate::text::eq_lit(&chars_of(k.as_str()), "chat_summary"),
                None => false,
            };
            if is_summary && summary.is_some() {
                return summary;
            }
        }
        i = i - 1;
    }
    proof {
        assert(history@.take(0) =~= Seq::<ChatMessageRecord>::empty());
    }
    None
}

// ---------------------------------------------------------------------------
// The history a turn hands the model

/// The number of recent exchanges a turn keeps.
pub const MAX_HISTORY_TURNS: usize = 8;

/// The messages before the prompt: the latest chat summary with its
/// acknowledgement, then the last `2 * MAX_HISTORY_TURNS` entries of the
/// effective history.
pub open spec fn history_window(h: Seq<ChatMessageRecord>) -> Seq<(Seq<char>, Seq<char>)> {
    let eff = effective_history(h);
    let keep = 2 * MAX_HISTORY_TURNS;
    let start = if eff.len() > keep {
        eff.len() - keep
    } else {
        0
    };
    let tail = eff.subrange(start, eff.len() as int);
    match latest_chat_summary(h) {
        Some(s) => seq![("user"@, "[Chat summary]\n"@ + s), ("assistant"@, "Understood."@)] + tail,
        None => tail,
    }
}

pub fn rig_history(history: &Vec<ChatMessageRecord>) -> (r: Vec<(&'static str, String)>)
    ensures
        pairs_view(r@) == history_window(history@),
{
    let mut messages: Vec<(&'static str, String)> = Vec::new();
    let ghost head: Seq<(Seq<char>, Seq<char>)> = Seq::empty();
    match extract_latest_chat_summary(history) {
        Some(summary) => {
            let mut text = "[Chat summary]\n".to_owned();
            text.append(summary.as_str());
            messages.push(("user", text));
            messages.push(("assistant", "Understood.".to_owned()));
            proof {
                head = seq![("user"@, "[Chat summary]\n"@ + summary@), ("assistant"@, "Understood."@)];
                assert(pairs_view(messages@) =~= head);
            }
        },
        None => {
            proof {
                assert(pairs_view(messages@) =~= head);
            }
        },
    }
    let effective = collect_effective_history(history);
    let keep = 2 * MAX_HISTORY_TURNS;
    let start = if effective.len() > keep {
        effective.len() - keep
    } else {
        0
    };
    let ghost eff = pairs_view(effective@);
    let mut i: usize = start;
    while i < effective.len()
        invariant
            start <= i <= effective.len(),
            eff == pairs_view(effective@),
            pairs_view(messages@) == head + eff.subrange(start as int, i as int),
        decreases effective.len() - i,
    {
        let ghost before = pairs_view(messages@);
        let (role, content) = &effective[i];
        messages.push((*role, content.clone()));
        proof {
            assert(pairs_view(messages@) =~= before.push(eff[i as int]));
            assert(eff.subrange(start as int, i + 1) =~= eff.subrange(start as int, i as int).push(eff[i as int]));
        }
        i = i + 1;
    }
    proof {
        assert(history_window(history@) =~= head + eff.subrange(start as int, eff.len() as int));
    }
    messages
}

// ---------------------------------------------------------------------------
// The context block

pub open spec fn or_none(o: Option<Seq<char>>) -> Seq<char> {
    match o {
        Some(s) => s,
        None => "none"@,
    }
}

pub open spec fn opt_kind_label(k: Option<CadQueryObjectKind>) -> Option<Seq<char>> {
    match k {
        Some(k) => Some(kind_label(k)),
        None => None,
    }
}

pub open spec fn bool_text(b: bool) -> Seq<char> {
    if b {
        "true"@
    } else {
        "false"@
    }
}

pub open spec fn selection_kind_label(k: SelectionKind) -> Seq<char> {
    match k {
        SelectionKind::Component => "component"@,
        SelectionKind::Part => "part"@,
        SelectionKind::Assembly => "assembly"@,
        SelectionKind::Instance => "instance"@,
        SelectionKind::Feature => "feature"@,
        SelectionKind::Face => "face"@,
        SelectionKind::Edge => "edge"@,
        SelectionKind::Vertex => "vertex"@,
    }
}

fn selection_kind_label_exec(k: SelectionKind) -> (r: &'static str)
    ensures
        r@ == selection_kind_label(k),
{
    match k {
        SelectionKind::Component => "component",
        SelectionKind::Part => "part",
        SelectionKind::Assembly => "assembly",
        SelectionKind::Instance => "instance",
        SelectionKind::Feature => "feature",
        SelectionKind::Face => "face",
        SelectionKind::Edge => "edge",
        SelectionKind::Vertex => "vertex",
    }
}

/// One line of the selection block.
pub open spec fn selection_line(i: nat, s: SelectionRef) -> Seq<char> {
    "- index="@ + decimal(i) + "; kind="@ + selection_kind_label(s.kind) + "; ref_text="@ + s.ref_text@
        + "; owner_ref_text="@ + or_none(opt_text(s.owner_ref_text)) + "; owner_object_kind="@ + or_none(
        opt_kind_label(s.owner_object_kind),
    ) + "; instance_path="@ + or_none(opt_text(s.instance_path)) + "; candidate_feature_ref="@ + or_none(
        opt_text(s.candidate_feature_ref),
    ) + "; build_id="@ + or_none(opt_text(s.build_id)) + "; result_id="@ + or_none(opt_text(s.result_id))
        + "; ambiguous="@ + bool_text(s.ambiguous)
}

pub open spec fn selection_lines(v: Seq<SelectionRef>) -> Seq<Seq<char>> {
    Seq::new(v.len(), |i: int| selection_line(i as nat, v[i]))
}

/// The selection block: a line per selection, `- none` without any.
pub open spec fn selection_block(v: Seq<SelectionRef>) -> Seq<char> {
    if v.len() == 0 {
        "- none"@
    } else {
        join_with(selection_lines(v), "\n"@)
    }
}

fn append_or_none(out: &mut Vec<char>, o: &Option<String>)
    ensures
        final(out)@ == old(out)@ + or_none(opt_text(*o)),
{
    match o {
        Some(s) => append_lit(out, s.as_str()),
        None => append_lit(out, "none"),
    }
}

fn append_opt_kind(out: &mut Vec<char>, k: Option<CadQueryObjectKind>)
    ensures
        final(out)@ == old(out)@ + or_none(opt_kind_label(k)),
{
    match k {
        Some(k) => append_lit(out, target_type_label(k)),
        None => append_lit(out, "none"),
    }
}

fn selection_line_exec(i: usize, s: &SelectionRef) -> (r: Vec<char>)
    ensures
        r@ == selection_line(i as nat, *s),
{
    let mut out = chars_of("- index=");
    append_chars(&mut out, &decimal_usize(i));
    append_lit(&mut out, "; kind=");
    append_lit(&mut out, selection_kind_label_exec(s.kind));
    append_lit(&mut out, "; ref_text=");
    append_lit(&mut out, s.ref_text.as_str());
    append_lit(&mut out, "; owner_ref_text=");
    append_or_none(&mut out, &s.owner_ref_text);
    append_lit(&mut out, "; owner_object_kind=");
    append_opt_kind(&mut out, s.owner_object_kind);
    append_lit(&mut out, "; instance_path=");
    append_or_none(&mut out, &s.instance_path);
    append_lit(&mut out, "; candidate_feature_ref=");
    append_or_none(&mut out, &s.candidate_feature_ref);
    append_lit(&mut out, "; build_id=");
    append_or_none(&mut out, &s.build_id);
    append_lit(&mut out, "; result_id=");
    append_or_none(&mut out, &s.result_id);
    append_lit(&mut out, "; ambiguous=");
    if s.ambiguous {
        append_lit(&mut out, "true");
    } else {
        append_lit(&mut out, "false");
    }
    out
}

/// Texts joined with `sep` between them.
fn join_parts(parts: &Vec<Vec<char>>, sep: &str) -> (r: Vec<char>)
    ensures
        r@ == join_with(views(parts@), sep@),
{
    let mut r: Vec<char> = Vec::new();
    let mut i: usize = 0;
    let ghost all = views(parts@);
    proof {
        assert(all.take(0) =~= Seq::<Seq<char>>::empty());
    }
    while i < parts.len()
        invariant
            i <= parts.len(),
            all == views(parts@),
            r@ == join_with(all.take(i as int), sep@),
        decreases parts.len() - i,
    {
        proof {
            assert(all.take(i + 1).drop_last() =~= all.take(i as int));
            assert(all.take(i + 1).last() == parts@[i as int]@);
        }
        if i > 0 {
            append_lit(&mut r, sep);
        }
        append_chars(&mut r, &parts[i]);
        proof {
            if i == 0 {
                assert(r@ =~= parts@[0]@);
            }
        }
        i = i + 1;
    }
    proof {
        assert(all.take(all.len() as int) =~= all);
    }
    r
}

fn append_joined(out: &mut Vec<char>, items: &Vec<String>, sep: &str)
    ensures
        final(out)@ == old(out)@ + join_with(string_views(items@), sep@),
{
    let mut parts: Vec<Vec<char>> = Vec::new();
    let mut i: usize = 0;
    while i < items.len()
        invariant
            i <= items.len(),
            views(parts@) == string_views(items@).take(i as int),
        decreases items.len() - i,
    {
        let ghost before = views(parts@);
        let c = chars_of(items[i].as_str());
        parts.push(c);
        proof {
            assert(views(parts@) =~= before.push(items@[i as int]@));
            assert(string_views(items@).take(i + 1) =~= string_views(items@).take(i as int).push(items@[i as int]@));
        }
        i = i + 1;
    }
    proof {
        assert(string_views(items@).take(items.len() as int) =~= string_views(items@));
    }
    let joined = join_parts(&parts, sep);
    append_chars(out, &joined);
}

pub fn selection_context(selections: &Vec<SelectionRef>) -> (r: String)
    ensures
        r@ == selection_block(selections@),
{
    if selections.len() == 0 {
        return "- none".to_owned();
    }
    let mut lines: Vec<Vec<char>> = Vec::new();
    let mut i: usize = 0;
    while i < selections.len()
        invariant
            i <= selections.len(),
            views(lines@) == selection_lines(selections@).take(i as int),
        decreases selections.len() - i,
    {
        let ghost before = views(lines@);
        let line = selection_line_exec(i, &selections[i]);
        lines.push(line);
        proof {
            assert(views(lines@) =~= before.push(selection_line(i as nat, selections@[i as int])));
            assert(selection_lines(selections@).take(i + 1) =~= selection_lines(selections@).take(i as int).push(
                selection_line(i as nat, selections@[i as int]),
            ));
        }
        i = i + 1;
    }
    proof {
        assert(selection_lines(selections@).take(selections.len() as int) =~= selection_lines(selections@));
    }
    string_of(&join_parts(&lines, "\n"))
}

/// The execution-scope block.
pub open spec fn scope_block(s: AgentExecutionScope) -> Seq<char> {
    "- plan_ref="@ + or_none(opt_text(s.plan_ref)) + "\n- target_path="@ + or_none(opt_text(s.target_path))
        + "\n- target_type="@ + or_none(opt_kind_label(s.target_type)) + "\n- affected_files="@ + join_with(
        string_views(s.affected_files@),
        ", "@,
    ) + "\n- new_files="@ + join_with(string_views(s.new_files@), ", "@) + "\n- export_targets="@ + join_with(
        string_views(s.export_targets@),
        ", "@,
    ) + "\n- plan_result_path="@ + or_none(opt_text(s.plan_result_path))
}

pub fn execution_scope_context(s: &AgentExecutionScope) -> (r: String)
    ensures
        r@ == scope_block(*s),
{
    let mut out = chars_of("- plan_ref=");
    append_or_none(&mut out, &s.plan_ref);
    append_lit(&mut out, "\n- target_path=");
    append_or_none(&mut out, &s.target_path);
    append_lit(&mut out, "\n- target_type=");
    append_opt_kind(&mut out, s.target_type);
    append_lit(&mut out, "\n- affected_files=");
    append_joined(&mut out, &s.affected_files, ", ");
    append_lit(&mut out, "\n- new_files=");
    append_joined(&mut out, &s.new_files, ", ");
    append_lit(&mut out, "\n- export_targets=");
    append_joined(&mut out, &s.export_targets, ", ");
    append_lit(&mut out, "\n- plan_result_path=");
    append_or_none(&mut out, &s.plan_result_path);
    string_of(&out)
}

/// What an agent turn starts from. `plan_ref` holds the display path of
/// the plan the turn carries out.
#[derive(Debug, Clone)]
pub struct AgentTurnInput {
    pub mode: AgentMode,
    pub prompt: String,
    pub history: Vec<ChatMessageRecord>,
    pub selections: Vec<SelectionRef>,
    pub active_selection_index: Option<u32>,
    pub plan_ref: Option<String>,
    pub context_refs: Vec<String>,
    pub execution_scope: Option<AgentExecutionScope>,
}

pub open spec fn mode_label(mode: AgentMode) -> Seq<char> {
    match mode {
        AgentMode::Agent => "Agent"@,
        AgentMode::Plan => "Plan"@,
    }
}

/// The lines of the context block: the mode, then the plan, the attached
/// references, the execution scope and the selection where there are any.
pub open spec fn context_parts(input: AgentTurnInput) -> Seq<Seq<char>> {
    let p0 = seq!["Mode: "@ + mode_label(input.mode)];
    let p1 = match input.plan_ref {
        Some(r) => p0.push("Plan ref: "@ + r@),
        None => p0,
    };
    let p2 = if input.context_refs@.len() > 0 {
        p1.push("User-attached context refs: "@ + join_with(string_views(input.context_refs@), ", "@))
    } else {
        p1
    };
    let p3 = match input.execution_scope {
        Some(s) => p2.push("Execution scope:\n"@ + scope_block(s)),
        None => p2,
    };
    if input.selections@.len() > 0 {
        p3.push("Current Web preview selection:\n"@ + selection_block(input.selections@))
    } else {
        p3
    }
}

pub open spec fn turn_context(input: AgentTurnInput) -> Seq<char> {
    join_with(context_parts(input), "\n"@)
}

pub fn build_turn_context(input: &AgentTurnInput) -> (r: String)
    ensures
        r@ == turn_context(*input),
{
    let mut parts: Vec<Vec<char>> = Vec::new();
    let mut mode = chars_of("Mode: ");
    match input.mode {
        AgentMode::Agent => append_lit(&mut mode, "Agent"),
        AgentMode::Plan => append_lit(&mut mode, "Plan"),
    }
    parts.push(mode);
    let ghost p0 = views(parts@);
    proof {
        assert(p0 =~= seq!["Mode: "@ + mode_label(input.mode)]);
    }
    if let Some(r) = &input.plan_ref {
        let mut line = chars_of("Plan ref: ");
        append_lit(&mut line, r.as_str());
        parts.push(line);
    }
    let ghost p1 = views(parts@);
    proof {
        if input.plan_ref is Some {
            assert(p1 =~= p0.push("Plan ref: "@ + input.plan_ref->0@));
        } else {
            assert(p1 =~= p0);
        }
    }
    if input.context_refs.len() > 0 {
        let mut line = chars_of("User-attached context refs: ");
        append_joined(&mut line, &input.context_refs, ", ");
        parts.push(line);
    }
    let ghost p2 = views(parts@);
    if let Some(s) = &input.execution_scope {
        let mut line = chars_of("Execution scope:\n");
        append_lit(&mut line, execution_scope_context(s).as_str());
        parts.push(line);
    }
    let ghost p3 = views(parts@);
    proof {
        if input.execution_scope is Some {
            assert(p3 =~= p2.push("Execution scope:\n"@ + scope_block(input.execution_scope->0)));
        } else {
            assert(p3 =~= p2);
        }
    }
    if input.selections.len() > 0 {
        let mut line = chars_of("Current Web preview selection:\n");
        append_lit(&mut line, selection_context(&input.selections).as_str());
        parts.push(line);
    }
    proof {
        assert(views(parts@) =~= context_parts(*input));
    }
    string_of(&join_parts(&parts, "\n"))
}

/// The prompt with the context block before it, a blank line between.
pub open spec fn prompt_with_context(input: AgentTurnInput) -> Seq<char> {
    let context = turn_context(input);
    if context.len() == 0 {
        input.prompt@
    } else {
        context + "\n\n"@ + input.prompt@
    }
}

/// The prompt and the history a turn hands the model.
pub fn build_rig_prompt_and_history(input: &AgentTurnInput) -> (r: (String, Vec<(&'static str, String)>))
    ensures
        r.0@ == prompt_with_context(*input),
        pairs_view(r.1@) == history_window(input.history@),
{
    let context = build_turn_context(input);
    let prompt = if chars_of(context.as_str()).len() == 0 {
        input.prompt.clone()
    } else {
        let mut p = context;
        p.append("\n\n");
        p.append(input.prompt.as_str());
        p
    };
    (prompt, rig_history(&input.history))
}

// ---------------------------------------------------------------------------
// The code in a reply

/// The code in a fenced `python` block, trimmed, when the block is closed.
pub open spec fn python_block(r: Seq<char>) -> Option<Seq<char>> {
    match find(r, "```python"@) {
        None => None,
        Some(start) => {
            let cs = start + "```python"@.len();
            match find(r.subrange(cs, r.len() as int), "```"@) {
                Some(e) => Some(trim(r.subrange(cs, cs + e))),
                None => None,
            }
        },
    }
}

/// The code in the first fenced block, past a newline right after the
/// fence, trimmed, when the block is closed.
pub open spec fn plain_block(r: Seq<char>) -> Option<Seq<char>> {
    match find(r, "```"@) {
        None => None,
        Some(start) => {
            let cs = start + "```"@.len();
            let after = if cs < r.len() && r[cs] == '\n' {
                cs + 1
            } else {
                cs
            };
            match find(r.subrange(after, r.len() as int), "```"@) {
                Some(e) => Some(trim(r.subrange(after, after + e))),
                None => None,
            }
        },
    }
}

/// The code of a reply: its python block, else its first fenced block,
/// else the whole reply.
pub open spec fn reply_code(r: Seq<char>) -> Seq<char> {
    match python_block(r) {
        Some(c) => c,
        None => match plain_block(r) {
            Some(c) => c,
            None => r,
        },
    }
}

pub fn extract_cadquery_code(response: &str) -> (r: String)
    ensures
        r@ == reply_code(response@),
{
    let s = chars_of(response);
    let py = chars_of("```python");
    let fence = chars_of("```");
    let n = s.len();
    if let Some(start) = find_exec(&s, &py) {
        assert(start + py@.len() <= s@.len());
        let cs = start + py.len();
        let rest = slice_vec(&s, cs, s.len());
        if let Some(e) = find_exec(&rest, &fence) {
            return string_of(&trim_exec(&slice_vec(&s, cs, cs + e)));
        }
    }
    if let Some(start) = find_exec(&s, &fence) {
        assert(start + fence@.len() <= s@.len());
        let cs = start + fence.len();
        let after = if cs < s.len() && s[cs] == '\n' {
            cs + 1
        } else {
            cs
        };
        let rest = slice_vec(&s, after, s.len());
        if let Some(e) = find_exec(&rest, &fence) {
            return string_of(&trim_exec(&slice_vec(&s, after, after + e)));
        }
    }
    response.to_owned()
}

} // verus!
