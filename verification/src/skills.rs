//! The skill texts injected into an agent turn's instructions.
use vstd::prelude::*;
use crate::model::AgentMode;
use crate::text::{join_with, str_seq_views};

verus! {

/// What decides which skills a turn gets.
#[derive(Debug, Clone, Copy, PartialEq, Eq)]
pub struct SkillInjectionContext {
    pub mode: AgentMode,
    pub cadquery_execution_tools_registered: bool,
    pub last_turn_cadquery_error: bool,
}

/// How to recover from a failed CadQuery run, briefly.
pub const FAILURE_RECOVERY_COMPACT_SKILL: &'static str = "\
If cadquery_dry_run or cadquery_execute fails during this turn, apply the following before retrying:
- Syntax error: fix the Python error and dry_run again.
- Geometry invalid (empty shape / self-intersection / open shell): simplify the operation or split into smaller steps.
- Fillet/chamfer overflow: reduce radius to ≤ half the shortest adjacent edge length, then dry_run.
- Scale mismatch (dimension off by >2×): re-check units and parameter values.
- Boolean failure (empty intersection / tangent degeneration): add 0.01 mm offset or reorder operations.
- Assembly positioning failure: verify mate references exist and are not coplanar.
Maximum 2 automatic retries per turn. Each retry must dry_run before execute.";

/// How to recover from a failed CadQuery run, after a turn that had one.
pub const FAILURE_RECOVERY_FULL_SKILL: &'static str = "\
The previous turn had a CadQuery execution error. Use the following classification to guide your fix:

Failure classification and repair procedures:
1. **Syntax error** — Fix the Python traceback. Common: missing import, wrong API name, indent error.
2. **Geometry invalid** (empty shape / self-intersection / open shell) — The operation produced degenerate geometry. Simplify: use fewer boolean steps, avoid near-zero thickness, split complex sweeps.
3. **Fillet/chamfer overflow** — Radius too large for the edge neighborhood. Reduce radius to ≤ half the shortest adjacent edge. If uncertain, start at 0.5 mm and increase.
4. **Scale mismatch** (output bounding box differs from intent by >2×) — Re-check unit assumptions (mm vs m), parameter naming, and reference dimensions.
5. **Boolean failure** (intersection is empty / tangent degeneration) — Bodies may be just touching or not overlapping. Add 0.01 mm offset to ensure proper overlap, or reorder cut/fuse sequence.
6. **Assembly positioning failure** — A mate reference is missing, renamed, or coplanar. Verify that both mate faces exist in the current topology and are not parallel.

Rules:
- Maximum 2 automatic retries per turn. Each retry must dry_run before execute.
- If 2 retries fail, report the failure class, what you tried, and suggest a manual fix to the user.
- Do not retry with identical code — each attempt must change something based on the diagnosis above.";

/// The defaults a model may assume where the user gave no value.
pub const ENGINEERING_DEFAULTS_SKILL: &'static str = "\
When generating or modifying a CadQuery model and a parameter is not specified by the user, \
you may use the following 3D printing defaults as assumptions. \
Always declare which defaults you used in your response.

3D printing defaults:
- Wall thickness: 2–3 mm
- Fillet/chamfer radius: 0.5–1.5 mm
- Minimum feature size: 0.8 mm
- Clearance hole diameters: M2=2.4 mm, M3=3.4 mm, M4=4.5 mm, M5=5.5 mm, M6=6.6 mm
- Coordinate convention: Z-up, origin at bottom geometric center
- Print tolerance: ±0.2 mm; CNC tolerance: ±0.05 mm

These are assumptions, not facts. If the user specifies different values, use those instead. \
For hardware-specific dimensions (board sizes, connector footprints), use web_search — do not guess.";

/// When and how to write a brief before generating code.
pub const STRUCTURED_BRIEF_SKILL: &'static str = "\
Before generating CadQuery code for a new model or a large modification, output a brief that \
summarizes your plan. The brief helps the user verify your assumptions before you commit code.

Output a brief when:
- Creating a new model (no existing CadQuery result in the workspace, or user explicitly requests new)
- The request leaves multiple parameters unspecified (dimensions, material, process)
- The modification affects multiple features or components

Do NOT output a brief for:
- Simple single-parameter changes (\"change height to 50 mm\", \"fillet 1 mm\")
- Query or describe operations (\"describe this face\")
- Plan mode execution steps (the plan already contains intent)

Brief format (output as plain text in your message, not as a tool call):
**Brief**
- Target dimensions: [overall size]
- Key features: [list of planned features]
- Assumptions: [list defaults used, e.g. \"wall thickness 2 mm (3D printing default)\"]
- Verification: [what to check after generation]
- REFS.features plan: [planned feature keys]

After outputting the brief, proceed with code generation in the same turn — do not wait for confirmation.";

/// The skills of a turn in agent mode with the CadQuery execution tools.
pub open spec fn cadquery_agent_mode(ctx: SkillInjectionContext) -> bool {
    ctx.mode == AgentMode::Agent && ctx.cadquery_execution_tools_registered
}

/// The recovery text: the full one after a turn with a CadQuery error.
pub open spec fn failure_recovery_text(ctx: SkillInjectionContext) -> Seq<char> {
    if ctx.last_turn_cadquery_error {
        FAILURE_RECOVERY_FULL_SKILL@
    } else {
        FAILURE_RECOVERY_COMPACT_SKILL@
    }
}

/// The names of the skills a turn gets, in order.
pub open spec fn skill_names(ctx: SkillInjectionContext) -> Seq<Seq<char>> {
    if cadquery_agent_mode(ctx) {
        seq!["failure-recovery"@, "engineering-defaults"@, "structured-brief"@]
    } else {
        Seq::empty()
    }
}

/// The section of each skill a turn gets.
pub open spec fn skill_sections(ctx: SkillInjectionContext) -> Seq<Seq<char>> {
    if cadquery_agent_mode(ctx) {
        seq![
            "[Skill: failure-recovery]\n"@ + failure_recovery_text(ctx),
            "[Skill: engineering-defaults]\n"@ + ENGINEERING_DEFAULTS_SKILL@,
            "[Skill: structured-brief]\n"@ + STRUCTURED_BRIEF_SKILL@
        ]
    } else {
        Seq::empty()
    }
}

/// The injected text: the sections after a heading, a blank line between
/// them; nothing without skills.
pub open spec fn skill_injections(ctx: SkillInjectionContext) -> Seq<char> {
    if skill_sections(ctx).len() == 0 {
        Seq::empty()
    } else {
        "Active skills:\n"@ + join_with(skill_sections(ctx), "\n\n"@)
    }
}

pub fn active_skill_names(ctx: &SkillInjectionContext) -> (r: Vec<&'static str>)
    ensures
        str_seq_views(r@) == skill_names(*ctx),
{
    let agent = match ctx.mode {
        AgentMode::Agent => true,
        AgentMode::Plan => false,
    };
    if agent && ctx.cadquery_execution_tools_registered {
        let r = vec!["failure-recovery", "engineering-defaults", "structured-brief"];
        proof {
            assert(str_seq_views(r@) =~= skill_names(*ctx));
        }
        r
    } else {
        let r: Vec<&'static str> = Vec::new();
        proof {
            assert(str_seq_views(r@) =~= skill_names(*ctx));
        }
        r
    }
}

pub fn collect_skill_injections(ctx: &SkillInjectionContext) -> (r: String)
    ensures
        r@ == skill_injections(*ctx),
{
    let agent = match ctx.mode {
        AgentMode::Agent => true,
        AgentMode::Plan => false,
    };
    if !(agent && ctx.cadquery_execution_tools_registered) {
        return String::new();
    }
    let recovery = if ctx.last_turn_cadquery_error {
        FAILURE_RECOVERY_FULL_SKILL
    } else {
        FAILURE_RECOVERY_COMPACT_SKILL
    };
    let mut out = crate::text::chars_of("Active skills:\n[Skill: failure-recovery]\n");
    crate::text::append_lit(&mut out, recovery);
    crate::text::append_lit(&mut out, "\n\n[Skill: engineering-defaults]\n");
    crate::text::append_lit(&mut out, ENGINEERING_DEFAULTS_SKILL);
    crate::text::append_lit(&mut out, "\n\n[Skill: structured-brief]\n");
    crate::text::append_lit(&mut out, STRUCTURED_BRIEF_SKILL);
    proof {
        let s = skill_sections(*ctx);
        assert(s.drop_last().drop_last() =~= seq![s[0]]);
        assert(s.drop_last() =~= seq![s[0], s[1]]);
        assert(join_with(s, "\n\n"@) == join_with(s.drop_last(), "\n\n"@) + "\n\n"@ + s[2]);
        assert(join_with(s.drop_last().drop_last(), "\n\n"@) == s[0]);
        assert(s.drop_last().last() == s[1]);
        assert(join_with(s.drop_last(), "\n\n"@) == s[0] + "\n\n"@ + s[1]);
        reveal_strlit("Active skills:\n[Skill: failure-recovery]\n");
        reveal_strlit("Active skills:\n");
        reveal_strlit("[Skill: failure-recovery]\n");
        reveal_strlit("\n\n[Skill: engineering-defaults]\n");
        reveal_strlit("[Skill: engineering-defaults]\n");
        reveal_strlit("\n\n[Skill: structured-brief]\n");
        reveal_strlit("[Skill: structured-brief]\n");
        reveal_strlit("\n\n");
        assert(out@ =~= skill_injections(*ctx));
    }
    crate::text::string_of(&out)
}

/// A turn gets injected text exactly when it gets skills, and one section
/// for each skill it gets.
pub proof fn lemma_injections_follow_names(ctx: SkillInjectionContext)
    ensures
        skill_injections(ctx).len() == 0 <==> skill_names(ctx).len() == 0,
        skill_sections(ctx).len() == skill_names(ctx).len(),
{
    if cadquery_agent_mode(ctx) {
        reveal_strlit("Active skills:\n");
        assert(skill_injections(ctx).len() > 0);
    }
}

} // verus!
