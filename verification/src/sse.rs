//! Reading an OpenAI-compatible chat completion stream: which `data:` lines
//! count, how the streamed answer, reasoning and tool calls add up, and when
//! reading stops.
//!
//! Reading the lines and parsing the JSON of each is the caller's part; the
//! stream state decides what each parsed line does and what the callbacks
//! are handed.
use vstd::prelude::*;
use vstd::string::StringExecFns;
use crate::json_args::{JsonField, field_view, fields_view, json_at_pointers, pointers_view, read_pointers, take_unsigned, copy_text_of};
use crate::text::{chars_of, eq_lit, strip_prefix, strip_prefix_lit, string_of, trim, trim_exec};

verus! {

/// A streamed tool call as the caller gets it.
#[derive(Debug, Clone, PartialEq, Eq)]
pub struct LlmToolCall {
    pub id: String,
    pub function_name: String,
    pub arguments: String,
}

/// The answer of a streamed completion.
#[derive(Debug, Clone, PartialEq, Eq)]
pub struct LlmResponse {
    pub content: String,
    pub reasoning_content: Option<String>,
    pub tool_calls: Vec<LlmToolCall>,
}

/// One tool-call fragment of a delta: its `index`, `id`, and its function's
/// `name` and `arguments`, where given as such.
#[derive(Debug, Clone, PartialEq, Eq)]
pub struct ToolCallDelta {
    pub index: Option<u64>,
    pub id: Option<String>,
    pub name: Option<String>,
    pub arguments: Option<String>,
}

/// The delta of a line's first choice: its `reasoning_content` and
/// `content` strings and its `tool_calls` array, where given as such.
#[derive(Debug, Clone, PartialEq, Eq)]
pub struct StreamDelta {
    pub reasoning: Option<String>,
    pub content: Option<String>,
    pub tool_calls: Option<Vec<ToolCallDelta>>,
}

pub type ToolCallDeltaView = (Option<u64>, Option<Seq<char>>, Option<Seq<char>>, Option<Seq<char>>);

pub type StreamDeltaView = (Option<Seq<char>>, Option<Seq<char>>, Option<Seq<ToolCallDeltaView>>);

pub open spec fn opt_text(o: Option<String>) -> Option<Seq<char>> {
    match o {
        Some(s) => Some(s@),
        None => None,
    }
}

pub open spec fn tool_call_delta_view(d: ToolCallDelta) -> ToolCallDeltaView {
    (d.index, opt_text(d.id), opt_text(d.name), opt_text(d.arguments))
}

pub open spec fn delta_view(r: Option<StreamDelta>) -> Option<StreamDeltaView> {
    match r {
        None => None,
        Some(d) => Some(
            (
                opt_text(d.reasoning),
                opt_text(d.content),
                match d.tool_calls {
                    None => None,
                    Some(v) => Some(v@.map_values(|c: ToolCallDelta| tool_call_delta_view(c))),
                },
            ),
        ),
    }
}

/// The pointers read of a payload: the choices, the first choice's delta,
/// and the delta's `reasoning_content`, `content` and `tool_calls`.
pub open spec fn delta_pointers() -> Seq<Seq<char>> {
    seq![
        "/choices"@,
        "/choices/0/delta"@,
        "/choices/0/delta/reasoning_content"@,
        "/choices/0/delta/content"@,
        "/choices/0/delta/tool_calls"@,
    ]
}

/// The pointers read of tool call `i`: its `index`, `id`, and its
/// function's `name` and `arguments`.
pub open spec fn call_pointers(i: nat) -> Seq<Seq<char>> {
    let c = "/choices/0/delta/tool_calls/"@ + crate::preview::decimal(i);
    seq![c + "/index"@, c + "/id"@, c + "/function/name"@, c + "/function/arguments"@]
}

pub open spec fn calls_pointers(m: nat) -> Seq<Seq<char>>
    decreases m,
{
    if m == 0 {
        Seq::empty()
    } else {
        calls_pointers((m - 1) as nat) + call_pointers((m - 1) as nat)
    }
}

/// The delta of a `data:` payload as `serde_json` reads it: where the text
/// is JSON whose `choices` is a non-empty array whose first item has a
/// `delta`, that delta's `reasoning_content` and `content` strings and its
/// `tool_calls` array, each call with its `index` as a `u64`, its `id`, and
/// its function's `name` and `arguments` strings.
pub open spec fn json_stream_delta(data: Seq<char>) -> Option<StreamDeltaView> {
    match json_at_pointers(data, delta_pointers()) {
        Err(_) => None,
        Ok(f) => if !(f[0].2 is Some && f[0].2->0.len() > 0 && f[1].0) {
            None
        } else {
            match f[4].2 {
                None => Some((f[2].1, f[3].1, None)),
                Some(items) => match json_at_pointers(data, calls_pointers(items.len())) {
                    Err(_) => None,
                    Ok(g) => Some(
                        (
                            f[2].1,
                            f[3].1,
                            Some(
                                Seq::new(
                                    items.len(),
                                    |i: int| (g[4 * i].3, g[4 * i + 1].1, g[4 * i + 2].1, g[4 * i + 3].1),
                                ),
                            ),
                        ),
                    ),
                },
            }
        },
    }
}

proof fn lemma_calls_pointers_len(m: nat)
    ensures
        calls_pointers(m).len() == 4 * m,
    decreases m,
{
    if m > 0 {
        lemma_calls_pointers_len((m - 1) as nat);
    }
}

fn pointer_text(prefix: &[char], suffix: &str) -> (r: String)
    ensures
        r@ == prefix@ + suffix@,
{
    let mut p = slice_copy(prefix);
    crate::text::append_lit(&mut p, suffix);
    string_of(&p)
}

fn slice_copy(s: &[char]) -> (r: Vec<char>)
    ensures
        r@ == s@,
{
    let mut r: Vec<char> = Vec::new();
    crate::text::append_chars(&mut r, s);
    r
}

/// Reads the delta of a payload.
fn stream_delta_of(data: &str) -> (r: Option<StreamDelta>)
    ensures
        delta_view(r) == json_stream_delta(data@),
{
    let mut ptrs: Vec<String> = Vec::new();
    ptrs.push("/choices".to_owned());
    ptrs.push("/choices/0/delta".to_owned());
    ptrs.push("/choices/0/delta/reasoning_content".to_owned());
    ptrs.push("/choices/0/delta/content".to_owned());
    ptrs.push("/choices/0/delta/tool_calls".to_owned());
    proof {
        assert(pointers_view(ptrs@) =~= delta_pointers());
    }
    let f = match read_pointers(data, &ptrs) {
        Err(_) => return None,
        Ok(f) => f,
    };
    let ghost fv = fields_view(f@);
    proof {
        assert forall|k: int| 0 <= k < 5 implies #[trigger] fv[k] == field_view(f@[k]) by {}
    }
    let choices_ok = match &f[0] {
        JsonField::Items(v) => v.len() > 0,
        _ => false,
    };
    let delta_present = match &f[1] {
        JsonField::Absent => false,
        _ => true,
    };
    if !choices_ok || !delta_present {
        return None;
    }
    let reasoning = copy_text_of(&f[2]);
    let content = copy_text_of(&f[3]);
    let m = match &f[4] {
        JsonField::Items(v) => v.len(),
        _ => {
            return Some(StreamDelta { reasoning, content, tool_calls: None });
        },
    };
    let mut cptrs: Vec<String> = Vec::new();
    let mut i: usize = 0;
    while i < m
        invariant
            i <= m,
            pointers_view(cptrs@) == calls_pointers(i as nat),
        decreases m - i,
    {
        let mut c = chars_of("/choices/0/delta/tool_calls/");
        crate::text::append_chars(&mut c, &crate::preview::decimal_usize(i));
        let ghost before = pointers_view(cptrs@);
        cptrs.push(pointer_text(&c, "/index"));
        cptrs.push(pointer_text(&c, "/id"));
        cptrs.push(pointer_text(&c, "/function/name"));
        cptrs.push(pointer_text(&c, "/function/arguments"));
        proof {
            assert(c@ =~= "/choices/0/delta/tool_calls/"@ + crate::preview::decimal(i as nat));
            assert(pointers_view(cptrs@) =~= before + call_pointers(i as nat));
        }
        i = i + 1;
    }
    let g = match read_pointers(data, &cptrs) {
        Err(_) => return None,
        Ok(g) => g,
    };
    proof {
        lemma_calls_pointers_len(m as nat);
    }
    let calls = calls_of(&g, m);
    Some(StreamDelta { reasoning, content, tool_calls: Some(calls) })
}

fn calls_of(g: &Vec<JsonField>, m: usize) -> (r: Vec<ToolCallDelta>)
    requires
        g@.len() == 4 * m,
    ensures
        r@.map_values(|c: ToolCallDelta| tool_call_delta_view(c)) == Seq::new(
            m as nat,
            |i: int|
                (
                    fields_view(g@)[4 * i].3,
                    fields_view(g@)[4 * i + 1].1,
                    fields_view(g@)[4 * i + 2].1,
                    fields_view(g@)[4 * i + 3].1,
                ),
        ),
{
    let ghost gv = fields_view(g@);
    let ghost want = Seq::new(
        m as nat,
        |i: int| (gv[4 * i].3, gv[4 * i + 1].1, gv[4 * i + 2].1, gv[4 * i + 3].1),
    );
    let total = g.len();
    let mut out: Vec<ToolCallDelta> = Vec::new();
    let mut t: usize = 0;
    let mut at: usize = 0;
    while t < m
        invariant
            t <= m,
            at == 4 * t,
            total == g@.len(),
            g@.len() == 4 * m,
            gv == fields_view(g@),
            want == Seq::new(m as nat, |i: int| (gv[4 * i].3, gv[4 * i + 1].1, gv[4 * i + 2].1, gv[4 * i + 3].1)),
            out@.map_values(|c: ToolCallDelta| tool_call_delta_view(c)) == want.take(t as int),
        decreases m - t,
    {
        assert(at + 4 <= total);
        proof {
            assert forall|q: int| 0 <= q < 4 implies #[trigger] gv[4 * t + q] == field_view(g@[4 * t + q]) by {}
        }
        let ghost before = out@.map_values(|c: ToolCallDelta| tool_call_delta_view(c));
        let call = ToolCallDelta {
            index: take_unsigned(&g[at]),
            id: copy_text_of(&g[at + 1]),
            name: copy_text_of(&g[at + 2]),
            arguments: copy_text_of(&g[at + 3]),
        };
        out.push(call);
        proof {
            assert(out@.map_values(|c: ToolCallDelta| tool_call_delta_view(c)) =~= before.push(tool_call_delta_view(call)));
            assert(want.take(t + 1) =~= want.take(t as int).push(want[t as int]));
        }
        t = t + 1;
        at = at + 4;
    }
    proof {
        assert(want.take(m as int) =~= want);
    }
    out
}

/// The answer text of a payload, where its delta has a non-empty one.
pub open spec fn delta_content(v: Option<StreamDeltaView>) -> Option<Seq<char>> {
    match v {
        Some((_, Some(t), _)) => if t.len() > 0 {
            Some(t)
        } else {
            None
        },
        _ => None,
    }
}

/// The answer text of a `data:` payload, when it has any.
pub fn extract_delta_content(json_str: &str) -> (r: Option<String>)
    ensures
        opt_text(r) == delta_content(json_stream_delta(json_str@)),
{
    match stream_delta_of(json_str) {
        Some(d) => match d.content {
            Some(c) => if chars_of(c.as_str()).len() > 0 {
                Some(c)
            } else {
                None
            },
            None => None,
        },
        None => None,
    }
}

/// Every tool-call slot of a delta fits in memory.
pub open spec fn view_slots_fit(v: Option<StreamDeltaView>) -> bool {
    match v {
        Some((_, _, Some(calls))) => forall|i: int|
            0 <= i < calls.len() ==> match (#[trigger] calls[i]).0 {
                Some(k) => k < usize::MAX,
                None => true,
            },
        _ => true,
    }
}

/// The parsed delta of a `data:` payload (`None` where it is no JSON or has
/// no delta), refused where a tool call's index is too large to hold a slot
/// for.
pub fn parse_stream_delta(data: &str) -> (r: Result<Option<StreamDelta>, String>)
    ensures
        match r {
            Ok(d) => delta_view(d) == json_stream_delta(data@) && view_slots_fit(delta_view(d)) && (d matches Some(x)
                ==> deltas_fit(x.tool_calls)),
            Err(m) => !view_slots_fit(json_stream_delta(data@)) && m@ == "tool call index is out of range"@,
        },
{
    let d = stream_delta_of(data);
    let fits = match &d {
        Some(x) => match &x.tool_calls {
            Some(calls) => slots_fit_exec(calls),
            None => true,
        },
        None => true,
    };
    let ghost dg = d;
    if !fits {
        proof {
            let x = dg->0;
            let calls = x.tool_calls->0;
            let i = choose|i: int| 0 <= i < calls@.len() && !slot_fits(#[trigger] calls@[i]);
            let cv = calls@.map_values(|c: ToolCallDelta| tool_call_delta_view(c));
            assert(cv[i] == tool_call_delta_view(calls@[i]));
        }
        return Err("tool call index is out of range".to_owned());
    }
    proof {
        if let Some(x) = dg {
            if let Some(calls) = x.tool_calls {
                let cv = calls@.map_values(|c: ToolCallDelta| tool_call_delta_view(c));
                assert forall|i: int| 0 <= i < cv.len() implies match (#[trigger] cv[i]).0 {
                    Some(k) => k < usize::MAX,
                    None => true,
                } by {
                    assert(slot_fits(calls@[i]));
                }
                assert forall|i: int| 0 <= i < deltas_of(x.tool_calls).len() implies slot_fits(
                    #[trigger] deltas_of(x.tool_calls)[i],
                ) by {
                    assert(deltas_of(x.tool_calls)[i] == calls@[i]);
                }
            }
        }
    }
    Ok(d)
}

fn slots_fit_exec(calls: &Vec<ToolCallDelta>) -> (r: bool)
    ensures
        r == forall|i: int| 0 <= i < calls@.len() ==> slot_fits(#[trigger] calls@[i]),
{
    let mut i: usize = 0;
    while i < calls.len()
        invariant
            i <= calls.len(),
            forall|k: int| 0 <= k < i ==> slot_fits(#[trigger] calls@[k]),
        decreases calls.len() - i,
    {
        match calls[i].index {
            Some(k) => {
                if k as u128 >= usize::MAX as u128 {
                    assert(!slot_fits(calls@[i as int]));
                    return false;
                }
            },
            None => {},
        }
        i = i + 1;
    }
    true
}

// ---------------------------------------------------------------------------
// Lines

/// What a line of the stream is.
#[derive(Debug, Clone, PartialEq, Eq)]
pub enum SseLine {
    /// Not a `data: ` line.
    Skip,
    /// The `[DONE]` marker.
    Done,
    /// The trimmed payload of a `data: ` line.
    Data(String),
}

pub open spec fn line_kind(line: Seq<char>) -> Option<Option<Seq<char>>> {
    match strip_prefix(line, "data: "@) {
        None => None,
        Some(rest) => if trim(rest) == "[DONE]"@ {
            Some(None)
        } else {
            Some(Some(trim(rest)))
        },
    }
}

pub fn classify_sse_line(line: &str) -> (r: SseLine)
    ensures
        match line_kind(line@) {
            None => r is Skip,
            Some(None) => r is Done,
            Some(Some(d)) => r matches SseLine::Data(x) && x@ == d,
        },
{
    let cs = chars_of(line);
    match strip_prefix_lit(&cs, "data: ") {
        None => SseLine::Skip,
        Some(rest) => {
            let data = trim_exec(&rest);
            if eq_lit(&data, "[DONE]") {
                SseLine::Done
            } else {
                SseLine::Data(string_of(&data))
            }
        },
    }
}

// ---------------------------------------------------------------------------
// Tool calls

pub type EntryView = (Seq<char>, Seq<char>, Seq<char>);

/// The slot a fragment goes to: its index, `0` where it has none.
pub open spec fn delta_slot(d: ToolCallDelta) -> int {
    match d.index {
        Some(i) => i as int,
        None => 0,
    }
}

/// The entries after one fragment: grown with empty entries up to its slot,
/// the slot's id and name replaced where the fragment has them and its
/// arguments extended.
pub open spec fn apply_tool_delta(entries: Seq<EntryView>, d: ToolCallDelta) -> Seq<EntryView> {
    let k = delta_slot(d);
    let padded = if entries.len() <= k {
        entries + Seq::new(
            (k + 1 - entries.len()) as nat,
            |j: int| (Seq::<char>::empty(), Seq::<char>::empty(), Seq::<char>::empty()),
        )
    } else {
        entries
    };
    let e = padded[k];
    let e1 = match d.id {
        Some(id) => (id@, e.1, e.2),
        None => e,
    };
    let e2 = match d.name {
        Some(n) => (e1.0, n@, e1.2),
        None => e1,
    };
    let e3 = match d.arguments {
        Some(a) => (e2.0, e2.1, e2.2 + a@),
        None => e2,
    };
    padded.update(k, e3)
}

pub open spec fn apply_tool_deltas(entries: Seq<EntryView>, ds: Seq<ToolCallDelta>) -> Seq<EntryView>
    decreases ds.len(),
{
    if ds.len() == 0 {
        entries
    } else {
        apply_tool_delta(apply_tool_deltas(entries, ds.drop_last()), ds.last())
    }
}

/// The calls of the finished entries: those with an id and a name, in slot
/// order.
pub open spec fn finished_calls(entries: Seq<EntryView>) -> Seq<EntryView>
    decreases entries.len(),
{
    if entries.len() == 0 {
        Seq::empty()
    } else {
        let prev = finished_calls(entries.drop_last());
        let e = entries.last();
        if e.0.len() > 0 && e.1.len() > 0 {
            prev.push(e)
        } else {
            prev
        }
    }
}

/// A fragment's slot fits in memory.
pub open spec fn slot_fits(d: ToolCallDelta) -> bool {
    delta_slot(d) < usize::MAX
}

/// The tool calls of a stream, put together from their fragments.
#[derive(Debug)]
pub struct ToolCallAccumulator {
    entries: Vec<(String, String, String)>,
}

pub open spec fn entry_views(v: Seq<(String, String, String)>) -> Seq<EntryView> {
    v.map_values(|e: (String, String, String)| (e.0@, e.1@, e.2@))
}

pub open spec fn call_views(v: Seq<LlmToolCall>) -> Seq<EntryView> {
    v.map_values(|c: LlmToolCall| (c.id@, c.function_name@, c.arguments@))
}

impl View for ToolCallAccumulator {
    type V = Seq<EntryView>;

    closed spec fn view(&self) -> Seq<EntryView> {
        entry_views(self.entries@)
    }
}

impl ToolCallAccumulator {
    pub fn new() -> (r: Self)
        ensures
            r@ == Seq::<EntryView>::empty(),
    {
        let r = ToolCallAccumulator { entries: Vec::new() };
        proof {
            assert(r@ =~= Seq::<EntryView>::empty());
        }
        r
    }

    fn apply_one(&mut self, d: &ToolCallDelta)
        requires
            slot_fits(*d),
        ensures
            final(self)@ == apply_tool_delta(old(self)@, *d),
    {
        let k: usize = match d.index {
            Some(i) => i as usize,
            None => 0,
        };
        let ghost start = self@;
        let ghost padded = if start.len() <= k {
            start + Seq::new(
                (k + 1 - start.len()) as nat,
                |j: int| (Seq::<char>::empty(), Seq::<char>::empty(), Seq::<char>::empty()),
            )
        } else {
            start
        };
        while self.entries.len() <= k
            invariant
                k < usize::MAX,
                start.len() <= k ==> self@ == start + Seq::new(
                    (self@.len() - start.len()) as nat,
                    |j: int| (Seq::<char>::empty(), Seq::<char>::empty(), Seq::<char>::empty()),
                ),
                start.len() > k ==> self@ == start,
                self@.len() >= start.len(),
                self@.len() <= k + 1 || self@ == start,
            decreases k + 1 - self.entries.len(),
        {
            let ghost before = self@;
            self.entries.push((String::new(), String::new(), String::new()));
            proof {
                assert(self@ =~= before.push((Seq::<char>::empty(), Seq::<char>::empty(), Seq::<char>::empty())));
                assert(self@ =~= start + Seq::new(
                    (self@.len() - start.len()) as nat,
                    |j: int| (Seq::<char>::empty(), Seq::<char>::empty(), Seq::<char>::empty()),
                ));
            }
        }
        proof {
            assert(self@ =~= padded);
        }
        let (mut id, mut name, mut args) = self.entries.remove(k);
        if let Some(x) = &d.id {
            id = x.clone();
        }
        if let Some(x) = &d.name {
            name = x.clone();
        }
        if let Some(x) = &d.arguments {
            args.append(x.as_str());
        }
        self.entries.insert(k, (id, name, args));
        proof {
            assert(self@ =~= apply_tool_delta(start, *d));
        }
    }

    /// Takes the tool-call fragments of one delta, in order.
    pub fn process_delta(&mut self, deltas: &Vec<ToolCallDelta>)
        requires
            forall|i: int| 0 <= i < deltas@.len() ==> slot_fits(#[trigger] deltas@[i]),
        ensures
            final(self)@ == apply_tool_deltas(old(self)@, deltas@),
    {
        let mut i: usize = 0;
        proof {
            assert(deltas@.take(0) =~= Seq::<ToolCallDelta>::empty());
        }
        while i < deltas.len()
            invariant
                i <= deltas.len(),
                forall|j: int| 0 <= j < deltas@.len() ==> slot_fits(#[trigger] deltas@[j]),
                self@ == apply_tool_deltas(old(self)@, deltas@.take(i as int)),
            decreases deltas.len() - i,
        {
            proof {
                assert(deltas@.take(i + 1).drop_last() =~= deltas@.take(i as int));
                assert(deltas@.take(i + 1).last() == deltas@[i as int]);
            }
            self.apply_one(&deltas[i]);
            i = i + 1;
        }
        proof {
            assert(deltas@.take(deltas.len() as int) =~= deltas@);
        }
    }

    /// The finished calls: the entries with an id and a name.
    pub fn finish(self) -> (r: Vec<LlmToolCall>)
        ensures
            call_views(r@) == finished_calls(self@),
    {
        let ghost all = self@;
        let mut out: Vec<LlmToolCall> = Vec::new();
        let mut i: usize = 0;
        proof {
            assert(all.take(0) =~= Seq::<EntryView>::empty());
            assert(call_views(out@) =~= Seq::<EntryView>::empty());
        }
        while i < self.entries.len()
            invariant
                i <= self.entries.len(),
                all == entry_views(self.entries@),
                call_views(out@) == finished_calls(all.take(i as int)),
            decreases self.entries.len() - i,
        {
            proof {
                assert(all.take(i + 1).drop_last() =~= all.take(i as int));
                assert(all.take(i + 1).last() == all[i as int]);
            }
            let e = &self.entries[i];
            if chars_of(e.0.as_str()).len() > 0 && chars_of(e.1.as_str()).len() > 0 {
                let ghost before = call_views(out@);
                out.push(LlmToolCall { id: e.0.clone(), function_name: e.1.clone(), arguments: e.2.clone() });
                proof {
                    assert(call_views(out@) =~= before.push(all[i as int]));
                }
            }
            i = i + 1;
        }
        proof {
            assert(all.take(all.len() as int) =~= all);
        }
        out
    }
}

// ---------------------------------------------------------------------------
// The stream

/// Where the stream is with the delta it is taking.
#[derive(Debug)]
pub enum SsePhase {
    /// Waiting for the next line.
    Idle,
    /// The reasoning text went out; the content and the tool calls of the
    /// delta are still to come.
    AfterReasoning(Option<String>, Option<Vec<ToolCallDelta>>),
    /// The content went out; the tool calls of the delta are still to come.
    AfterContent(Option<Vec<ToolCallDelta>>),
    /// Reading has stopped.
    Finished,
}

/// What the reader does next.
#[derive(Debug, Clone, PartialEq, Eq)]
pub enum SseAction {
    /// Read the next line.
    ReadNext,
    /// Hand this reasoning text to the reasoning callback and report back
    /// whether it wants more.
    Reasoning(String),
    /// Hand this answer text to the token callback and report back whether
    /// it wants more.
    Token(String),
    /// Stop reading.
    Finish,
}

/// The state of a stream being read.
#[derive(Debug)]
pub struct SseStream {
    pub content: String,
    pub reasoning: String,
    pub tools: ToolCallAccumulator,
    pub phase: SsePhase,
}

pub open spec fn text_of(o: Option<String>) -> Seq<char> {
    match o {
        Some(s) => s@,
        None => Seq::empty(),
    }
}

pub open spec fn deltas_of(o: Option<Vec<ToolCallDelta>>) -> Seq<ToolCallDelta> {
    match o {
        Some(v) => v@,
        None => Seq::empty(),
    }
}

pub open spec fn deltas_fit(o: Option<Vec<ToolCallDelta>>) -> bool {
    forall|i: int| 0 <= i < deltas_of(o).len() ==> slot_fits(#[trigger] deltas_of(o)[i])
}

impl SseStream {
    pub fn new() -> (r: Self)
        ensures
            r.content@.len() == 0,
            r.reasoning@.len() == 0,
            r.tools@.len() == 0,
            r.phase is Idle,
    {
        SseStream { content: String::new(), reasoning: String::new(), tools: ToolCallAccumulator::new(), phase: SsePhase::Idle }
    }

    fn take_tools(&mut self, tool_calls: Option<Vec<ToolCallDelta>>) -> (r: SseAction)
        requires
            deltas_fit(tool_calls),
        ensures
            r is ReadNext,
            final(self).phase is Idle,
            final(self).content@ == old(self).content@,
            final(self).reasoning@ == old(self).reasoning@,
            final(self).tools@ == apply_tool_deltas(old(self).tools@, deltas_of(tool_calls)),
    {
        let ghost tc = tool_calls;
        match tool_calls {
            Some(v) => {
                proof {
                    assert forall|i: int| 0 <= i < v@.len() implies slot_fits(#[trigger] v@[i]) by {
                        assert(deltas_of(tc)[i] == v@[i]);
                    }
                }
                self.tools.process_delta(&v);
            },
            None => {},
        }
        self.phase = SsePhase::Idle;
        SseAction::ReadNext
    }

    fn take_content(&mut self, content: Option<String>, tool_calls: Option<Vec<ToolCallDelta>>) -> (r: SseAction)
        requires
            deltas_fit(tool_calls),
        ensures
            final(self).reasoning@ == old(self).reasoning@,
            text_of(content).len() > 0 ==> (r matches SseAction::Token(t) && t@ == text_of(content)
                && final(self).content@ == old(self).content@ + text_of(content) && final(self).tools@ == old(self).tools@
                && final(self).phase == SsePhase::AfterContent(tool_calls)),
            text_of(content).len() == 0 ==> (r is ReadNext && final(self).content@ == old(self).content@
                && final(self).tools@ == apply_tool_deltas(old(self).tools@, deltas_of(tool_calls))
                && final(self).phase is Idle),
    {
        match content {
            Some(t) => {
                if chars_of(t.as_str()).len() > 0 {
                    self.content.append(t.as_str());
                    self.phase = SsePhase::AfterContent(tool_calls);
                    return SseAction::Token(t);
                }
            },
            None => {},
        }
        self.take_tools(tool_calls)
    }

    /// Takes the parsed delta of a `data:` line (`None` where the line was
    /// no JSON or had no delta): the reasoning text goes out first, then the
    /// answer text, each only when not empty; then the tool calls are taken.
    pub fn take_delta(&mut self, delta: Option<StreamDelta>) -> (r: SseAction)
        requires
            old(self).phase is Idle,
            delta is Some ==> deltas_fit(delta->0.tool_calls),
        ensures
            final(self).phase is Idle || final(self).phase is AfterReasoning || final(self).phase is AfterContent,
            match delta {
                None => r is ReadNext && final(self).content@ == old(self).content@ && final(self).reasoning@ == old(self).reasoning@ && final(self).tools@ == old(self).tools@,
                Some(d) => if text_of(d.reasoning).len() > 0 {
                    r matches SseAction::Reasoning(t) && t@ == text_of(d.reasoning) && final(self).reasoning@ == old(self).reasoning@ + text_of(d.reasoning) && final(self).content@ == old(self).content@ && final(self).tools@ == old(self).tools@ && final(self).phase == SsePhase::AfterReasoning(
                        d.content,
                        d.tool_calls,
                    )
                } else if text_of(d.content).len() > 0 {
                    r matches SseAction::Token(t) && t@ == text_of(d.content) && final(self).reasoning@ == old(self).reasoning@ && final(self).content@ == old(self).content@ + text_of(d.content) && final(self).tools@ == old(self).tools@ && final(self).phase == SsePhase::AfterContent(d.tool_calls)
                } else {
                    r is ReadNext && final(self).reasoning@ == old(self).reasoning@ && final(self).content@ == old(self).content@ && final(self).tools@ == apply_tool_deltas(old(self).tools@, deltas_of(d.tool_calls))
                        && final(self).phase is Idle
                },
            },
    {
        let d = match delta {
            None => return SseAction::ReadNext,
            Some(d) => d,
        };
        match d.reasoning {
            Some(t) => {
                if chars_of(t.as_str()).len() > 0 {
                    self.reasoning.append(t.as_str());
                    self.phase = SsePhase::AfterReasoning(d.content, d.tool_calls);
                    return SseAction::Reasoning(t);
                }
            },
            None => {},
        }
        self.take_content(d.content, d.tool_calls)
    }

    /// Takes the callback's answer: reading stops where it wants no more,
    /// else the delta goes on where it stopped.
    pub fn resume(&mut self, wants_more: bool) -> (r: SseAction)
        requires
            match old(self).phase {
                SsePhase::AfterReasoning(_, t) => deltas_fit(t),
                SsePhase::AfterContent(t) => deltas_fit(t),
                _ => true,
            },
        ensures
            final(self).reasoning@ == old(self).reasoning@,
            !wants_more ==> r is Finish && final(self).phase is Finished && final(self).content@ == old(self).content@
                && final(self).tools@ == old(self).tools@,
            wants_more ==> match old(self).phase {
                SsePhase::AfterReasoning(c, t) => if text_of(c).len() > 0 {
                    r matches SseAction::Token(x) && x@ == text_of(c) && final(self).content@ == old(self).content@
                        + text_of(c) && final(self).tools@ == old(self).tools@ && final(self).phase
                        == SsePhase::AfterContent(t)
                } else {
                    r is ReadNext && final(self).content@ == old(self).content@ && final(self).tools@
                        == apply_tool_deltas(old(self).tools@, deltas_of(t)) && final(self).phase is Idle
                },
                SsePhase::AfterContent(t) => r is ReadNext && final(self).content@ == old(self).content@
                    && final(self).tools@ == apply_tool_deltas(old(self).tools@, deltas_of(t)) && final(self).phase is Idle,
                SsePhase::Finished => r is Finish && final(self).phase is Finished && final(self).content@ == old(self).content@ && final(self).tools@ == old(self).tools@,
                SsePhase::Idle => r is ReadNext && final(self).phase is Idle && final(self).content@ == old(self).content@ && final(self).tools@ == old(self).tools@,
            },
    {
        if !wants_more {
            self.phase = SsePhase::Finished;
            return SseAction::Finish;
        }
        let mut phase = SsePhase::Idle;
        std::mem::swap(&mut phase, &mut self.phase);
        match phase {
            SsePhase::AfterReasoning(c, t) => self.take_content(c, t),
            SsePhase::AfterContent(t) => self.take_tools(t),
            SsePhase::Finished => {
                self.phase = SsePhase::Finished;
                SseAction::Finish
            },
            SsePhase::Idle => SseAction::ReadNext,
        }
    }

    /// The answer: the content, the reasoning where there was any, and the
    /// finished tool calls.
    pub fn finish(self) -> (r: LlmResponse)
        ensures
            r.content@ == self.content@,
            match r.reasoning_content {
                Some(t) => self.reasoning@.len() > 0 && t@ == self.reasoning@,
                None => self.reasoning@.len() == 0,
            },
            call_views(r.tool_calls@) == finished_calls(self.tools@),
    {
        let reasoning_content = if chars_of(self.reasoning.as_str()).len() == 0 {
            None
        } else {
            Some(self.reasoning)
        };
        LlmResponse { content: self.content, reasoning_content, tool_calls: self.tools.finish() }
    }
}

} // verus!
