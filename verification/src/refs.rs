//! Visible refs (`@part[name]`, `@feature[owner.feature]`, ...) and the
//! `REFS` dictionary that a CadQuery source declares its features in.
use vstd::prelude::*;
use crate::model::{CadQueryObjectKind, kind_label, kind_root, kind_root_exec, target_type_label};
use crate::pyscan::{
    dict_body_at, dict_body_at_exec, is_identifier_boundary, is_identifier_boundary_exec,
    lemma_line_comment_end, lemma_skip_inline_ws_ge, lemma_string_at_advances, line_comment_end,
    line_comment_end_exec, skip_inline_ws, skip_inline_ws_exec, skip_ws, skip_ws_exec,
    string_at, string_at_exec, value_start_for_key, value_start_for_key_exec,
};
use crate::selection::SelectionRef;
use crate::tool_policy::{ToolPolicyError, denied};
use crate::text::{
    seq_eq, append_chars, append_lit, chars_of, is_ascii_alnum, is_ascii_alnum_exec, occurs_at,
    occurs_at_exec, slice_vec, split_once, split_once_exec, string_of, strip_prefix,
    strip_prefix_lit, strip_suffix, strip_suffix_lit,
};

verus! {

// ---------------------------------------------------------------------------
// The REFS dictionary

/// Where the `{` of `REFS = {` is, after the name ends at `after`.
pub open spec fn refs_assignment_dict_start(s: Seq<char>, after: int) -> Option<int> {
    let assign = skip_inline_ws(s, after);
    if !(0 <= assign < s.len() && s[assign] == '=') || (assign + 1 < s.len() && s[assign + 1] == '=') {
        None
    } else {
        let value = skip_inline_ws(s, assign + 1);
        if 0 <= value < s.len() && s[value] == '{' {
            Some(value)
        } else {
            None
        }
    }
}

pub open spec fn refs_name() -> Seq<char> {
    seq!['R', 'E', 'F', 'S']
}

/// Scans for the first `REFS = {...}` outside strings and comments and
/// gives its body.
pub open spec fn refs_scan(s: Seq<char>, i: int) -> Option<Seq<char>>
    decreases s.len() - i,
{
    if i < 0 || i >= s.len() {
        None
    } else {
        let c = s[i];
        if c == '\'' || c == '"' {
            proof {
                lemma_string_at_advances(s, i, c, false);
            }
            match string_at(s, i, c, false) {
                None => None,
                Some((e, _)) => refs_scan(s, e),
            }
        } else if c == '#' {
            proof {
                lemma_line_comment_end(s, i);
            }
            refs_scan(s, line_comment_end(s, i))
        } else if !occurs_at(s, refs_name(), i) {
            refs_scan(s, i + 1)
        } else if !is_identifier_boundary(s, i, 4) {
            refs_scan(s, i + 4)
        } else {
            match refs_assignment_dict_start(s, i + 4) {
                None => refs_scan(s, i + 4),
                Some(b) => dict_body_at(s, b),
            }
        }
    }
}

/// The body of the `features` dictionary in a dictionary body.
pub open spec fn dict_body_for_key(body: Seq<char>, key: Seq<char>) -> Option<Seq<char>> {
    match value_start_for_key(body, key, false) {
        None => None,
        Some(v) => dict_body_at(body, skip_ws(body, v)),
    }
}

/// Whether a source's `REFS["features"]` declares `feature`.
pub open spec fn source_has_refs_feature(source: Seq<char>, feature: Seq<char>) -> bool {
    match refs_scan(source, 0) {
        None => false,
        Some(body) => match dict_body_for_key(body, "features"@) {
            None => false,
            Some(fb) => value_start_for_key(fb, feature, false) is Some,
        },
    }
}

fn refs_assignment_dict_start_exec(s: &[char], after: usize) -> (r: Option<usize>)
    ensures
        match r {
            Some(v) => refs_assignment_dict_start(s@, after as int) == Some(v as int),
            None => refs_assignment_dict_start(s@, after as int) is None,
        },
{
    let assign = skip_inline_ws_exec(s, after);
    if !(assign < s.len() && s[assign] == '=') || (assign + 1 < s.len() && s[assign + 1] == '=') {
        return None;
    }
    let value = skip_inline_ws_exec(s, assign + 1);
    if value < s.len() && s[value] == '{' {
        Some(value)
    } else {
        None
    }
}

/// The body of the first `REFS = {...}` assignment.
fn refs_dict_body(s: &[char]) -> (r: Option<Vec<char>>)
    ensures
        match r {
            Some(b) => refs_scan(s@, 0) == Some(b@),
            None => refs_scan(s@, 0) is None,
        },
{
    let name = chars_of("REFS");
    proof {
        reveal_strlit("REFS");
        assert(name@ =~= refs_name());
    }
    let mut i: usize = 0;
    while i < s.len()
        invariant
            i <= s.len(),
            name@ == refs_name(),
            refs_scan(s@, 0) == refs_scan(s@, i as int),
        decreases s.len() - i,
    {
        let c = s[i];
        if c == '\'' || c == '"' {
            proof {
                lemma_string_at_advances(s@, i as int, c, false);
            }
            match string_at_exec(s, i, c, false) {
                None => return None,
                Some((e, _)) => {
                    i = e;
                },
            }
        } else if c == '#' {
            proof {
                lemma_line_comment_end(s@, i as int);
            }
            i = line_comment_end_exec(s, i);
        } else if !occurs_at_exec(s, &name, i) {
            i = i + 1;
        } else if !is_identifier_boundary_exec(s, i, 4) {
            i = i + 4;
        } else {
            match refs_assignment_dict_start_exec(s, i + 4) {
                None => {
                    i = i + 4;
                },
                Some(b) => {
                    return dict_body_at_exec(s, b);
                },
            }
        }
    }
    None
}

/// Whether a CadQuery source declares `feature` in `REFS["features"]`.
pub fn source_has_refs_feature_exec(source: &[char], feature: &[char]) -> (r: bool)
    ensures
        r == source_has_refs_feature(source@, feature@),
{
    let body = match refs_dict_body(source) {
        None => return false,
        Some(b) => b,
    };
    let key = chars_of("features");
    let v = match value_start_for_key_exec(&body, &key, false) {
        None => return false,
        Some(v) => v,
    };
    let start = skip_ws_exec(&body, v);
    match dict_body_at_exec(&body, start) {
        None => false,
        Some(fb) => value_start_for_key_exec(&fb, feature, false).is_some(),
    }
}

// ---------------------------------------------------------------------------
// Visible refs

/// The kind of an object ref.
#[derive(Debug, Clone, Copy, PartialEq, Eq, Structural)]
pub enum RefObjectKind {
    Component,
    Part,
    Assembly,
}

pub open spec fn ref_root(kind: RefObjectKind) -> Seq<char> {
    match kind {
        RefObjectKind::Component => "components"@,
        RefObjectKind::Part => "parts"@,
        RefObjectKind::Assembly => "assemblies"@,
    }
}

pub open spec fn ref_label(kind: RefObjectKind) -> Seq<char> {
    match kind {
        RefObjectKind::Component => "component"@,
        RefObjectKind::Part => "part"@,
        RefObjectKind::Assembly => "assembly"@,
    }
}

impl RefObjectKind {
    /// The directory that holds sources of this kind.
    pub fn root(self) -> (r: &'static str)
        ensures
            r@ == ref_root(self),
    {
        match self {
            RefObjectKind::Component => "components",
            RefObjectKind::Part => "parts",
            RefObjectKind::Assembly => "assemblies",
        }
    }

    /// The word used in refs of this kind.
    pub fn ref_label(self) -> (r: &'static str)
        ensures
            r@ == ref_label(self),
    {
        match self {
            RefObjectKind::Component => "component",
            RefObjectKind::Part => "part",
            RefObjectKind::Assembly => "assembly",
        }
    }
}

/// The name inside `@<prefix>...]`.
pub open spec fn bracket_name(ref_text: Seq<char>, prefix: Seq<char>) -> Option<Seq<char>> {
    match strip_prefix(ref_text, prefix) {
        Some(v) => strip_suffix(v, "]"@),
        None => None,
    }
}

/// `@component[name]`, `@part[name]` or `@assembly[name]`, tried in that order.
pub open spec fn parse_object_ref(ref_text: Seq<char>) -> Option<(RefObjectKind, Seq<char>)> {
    if bracket_name(ref_text, "@component["@) is Some {
        Some((RefObjectKind::Component, bracket_name(ref_text, "@component["@)->Some_0))
    } else if bracket_name(ref_text, "@part["@) is Some {
        Some((RefObjectKind::Part, bracket_name(ref_text, "@part["@)->Some_0))
    } else if bracket_name(ref_text, "@assembly["@) is Some {
        Some((RefObjectKind::Assembly, bracket_name(ref_text, "@assembly["@)->Some_0))
    } else {
        None
    }
}

fn bracket_name_exec(ref_text: &[char], prefix: &str) -> (r: Option<Vec<char>>)
    ensures
        match r {
            Some(v) => bracket_name(ref_text@, prefix@) == Some(v@),
            None => bracket_name(ref_text@, prefix@) is None,
        },
{
    match strip_prefix_lit(ref_text, prefix) {
        Some(v) => strip_suffix_lit(&v, "]"),
        None => None,
    }
}

/// The kind and name of an object ref.
pub fn parse_object_ref_exec(ref_text: &[char]) -> (r: Option<(RefObjectKind, Vec<char>)>)
    ensures
        match r {
            Some((k, n)) => parse_object_ref(ref_text@) == Some((k, n@)),
            None => parse_object_ref(ref_text@) is None,
        },
{
    if let Some(n) = bracket_name_exec(ref_text, "@component[") {
        return Some((RefObjectKind::Component, n));
    }
    if let Some(n) = bracket_name_exec(ref_text, "@part[") {
        return Some((RefObjectKind::Part, n));
    }
    if let Some(n) = bracket_name_exec(ref_text, "@assembly[") {
        return Some((RefObjectKind::Assembly, n));
    }
    None
}

/// `@feature[owner.feature]`, split at the first dot.
pub open spec fn parse_feature_ref(ref_text: Seq<char>) -> Option<(Seq<char>, Seq<char>)> {
    match bracket_name(ref_text, "@feature["@) {
        Some(v) => split_once(v, '.'),
        None => None,
    }
}

/// The owner and feature of a feature ref.
pub fn parse_feature_ref_exec(ref_text: &[char]) -> (r: Option<(Vec<char>, Vec<char>)>)
    ensures
        match r {
            Some((o, f)) => parse_feature_ref(ref_text@) == Some((o@, f@)),
            None => parse_feature_ref(ref_text@) is None,
        },
{
    match bracket_name_exec(ref_text, "@feature[") {
        Some(v) => split_once_exec(&v, '.'),
        None => None,
    }
}

/// `<root>/<name>.py`.
pub open spec fn object_source_path(kind: RefObjectKind, name: Seq<char>) -> Seq<char> {
    ref_root(kind) + "/"@ + name + ".py"@
}

pub fn object_source_path_exec(kind: RefObjectKind, name: &[char]) -> (r: Vec<char>)
    ensures
        r@ == object_source_path(kind, name@),
{
    let mut out = chars_of(kind.root());
    append_lit(&mut out, "/");
    append_chars(&mut out, name);
    append_lit(&mut out, ".py");
    out
}

/// `@<label>[<name>]`.
pub open spec fn object_ref_text(kind: RefObjectKind, name: Seq<char>) -> Seq<char> {
    "@"@ + ref_label(kind) + "["@ + name + "]"@
}

pub fn object_ref_text_exec(kind: RefObjectKind, name: &[char]) -> (r: Vec<char>)
    ensures
        r@ == object_ref_text(kind, name@),
{
    let mut out = chars_of("@");
    append_lit(&mut out, kind.ref_label());
    append_lit(&mut out, "[");
    append_chars(&mut out, name);
    append_lit(&mut out, "]");
    out
}

/// A safe ref name: non-empty, ASCII letters, digits, `_` and `-`.
pub open spec fn valid_ref_name(v: Seq<char>) -> bool {
    v.len() > 0 && forall|i: int| 0 <= i < v.len() ==> (is_ascii_alnum(#[trigger] v[i]) || v[i] == '_' || v[i] == '-')
}

pub fn validate_ref_name_text(v: &[char]) -> (r: bool)
    ensures
        r == valid_ref_name(v@),
{
    if v.len() == 0 {
        return false;
    }
    let mut i: usize = 0;
    while i < v.len()
        invariant
            i <= v.len(),
            forall|j: int| 0 <= j < i ==> (is_ascii_alnum(#[trigger] v@[j]) || v@[j] == '_' || v@[j] == '-'),
        decreases v.len() - i,
    {
        let c = v[i];
        if !(is_ascii_alnum_exec(c) || c == '_' || c == '-') {
            return false;
        }
        i = i + 1;
    }
    true
}

/// The source path of the object an owner ref names, when its name is safe.
pub open spec fn owner_path_from_ref(ref_text: Seq<char>) -> Option<Seq<char>> {
    match parse_object_ref(ref_text) {
        Some((kind, name)) => if valid_ref_name(name) {
            Some(object_source_path(kind, name))
        } else {
            None
        },
        None => None,
    }
}

pub fn owner_path_from_ref_exec(ref_text: &[char]) -> (r: Option<Vec<char>>)
    ensures
        match r {
            Some(p) => owner_path_from_ref(ref_text@) == Some(p@),
            None => owner_path_from_ref(ref_text@) is None,
        },
{
    match parse_object_ref_exec(ref_text) {
        Some((kind, name)) => {
            if validate_ref_name_text(&name) {
                Some(object_source_path_exec(kind, &name))
            } else {
                None
            }
        },
        None => None,
    }
}

/// The paired design note of a `.py` source: the same path with `.md`.
pub open spec fn paired_doc_path(source_path: Seq<char>) -> Option<Seq<char>> {
    match strip_suffix(source_path, ".py"@) {
        Some(stem) => Some(stem + ".md"@),
        None => None,
    }
}

pub fn paired_doc_path_exec(source_path: &[char]) -> (r: Option<Vec<char>>)
    ensures
        match r {
            Some(p) => paired_doc_path(source_path@) == Some(p@),
            None => paired_doc_path(source_path@) is None,
        },
{
    match strip_suffix_lit(source_path, ".py") {
        Some(mut stem) => {
            append_lit(&mut stem, ".md");
            Some(stem)
        },
        None => None,
    }
}

/// What a resolved ref says about how stable it is.
#[derive(Debug, Clone, Copy, PartialEq, Eq, Structural)]
pub enum SelectionRisk {
    /// The selection maps to a stable feature.
    Stable,
    /// The owner source file is missing or outside the workspace.
    OwnerMissing,
    /// The candidate feature is not declared in the owner source.
    FeatureMissing,
    /// Raw geometry without a feature mapping.
    RawGeometry,
}

/// The risk of a selection: none when a stable ref was found; otherwise
/// the missing owner, the missing feature, or raw geometry.
pub open spec fn selection_risk(has_candidate: bool, has_owner_path: bool, has_stable_ref: bool) -> SelectionRisk {
    if has_stable_ref {
        SelectionRisk::Stable
    } else if has_candidate && !has_owner_path {
        SelectionRisk::OwnerMissing
    } else if has_candidate {
        SelectionRisk::FeatureMissing
    } else {
        SelectionRisk::RawGeometry
    }
}

pub fn selection_risks(has_candidate: bool, has_owner_path: bool, has_stable_ref: bool) -> (r: SelectionRisk)
    ensures
        r == selection_risk(has_candidate, has_owner_path, has_stable_ref),
{
    if has_stable_ref {
        SelectionRisk::Stable
    } else if has_candidate && !has_owner_path {
        SelectionRisk::OwnerMissing
    } else if has_candidate {
        SelectionRisk::FeatureMissing
    } else {
        SelectionRisk::RawGeometry
    }
}

/// The stable feature ref of a selection: the candidate `@feature[o.f]`
/// when the selection is not ambiguous, both names are safe, the owner is
/// the object the owner ref names, and the owner's source declares `f`.
pub open spec fn selection_stable_feature(
    ambiguous: bool,
    candidate: Option<Seq<char>>,
    owner_ref: Option<Seq<char>>,
    owner_source: Option<Seq<char>>,
) -> Option<Seq<char>> {
    if ambiguous {
        None
    } else {
        match candidate {
            None => None,
            Some(cand) => match parse_feature_ref(cand) {
                None => None,
                Some((fo, f)) => if !valid_ref_name(fo) || !valid_ref_name(f) {
                    None
                } else {
                    match owner_ref {
                        None => None,
                        Some(o) => match parse_object_ref(o) {
                            None => None,
                            Some((_, name)) => if fo != name {
                                None
                            } else {
                                match owner_source {
                                    None => None,
                                    Some(src) => if source_has_refs_feature(src, f) {
                                        Some(cand)
                                    } else {
                                        None
                                    },
                                }
                            },
                        },
                    }
                },
            },
        }
    }
}

pub open spec fn opt_view(o: Option<Vec<char>>) -> Option<Seq<char>> {
    match o {
        Some(v) => Some(v@),
        None => None,
    }
}

/// The stable feature ref of a selection, given the owner's source text
/// when it could be read.
#[verifier::rlimit(80)]
pub fn selection_stable_feature_exec(
    ambiguous: bool,
    candidate: &Option<Vec<char>>,
    owner_ref: &Option<Vec<char>>,
    owner_source: &Option<Vec<char>>,
) -> (r: Option<Vec<char>>)
    ensures
        opt_view(r) == selection_stable_feature(ambiguous, opt_view(*candidate), opt_view(*owner_ref), opt_view(*owner_source)),
{
    if ambiguous {
        return None;
    }
    let cand = match candidate {
        None => return None,
        Some(c) => c,
    };
    let (fo, f) = match parse_feature_ref_exec(cand) {
        None => return None,
        Some(p) => p,
    };
    if !validate_ref_name_text(&fo) || !validate_ref_name_text(&f) {
        return None;
    }
    let o = match owner_ref {
        None => return None,
        Some(o) => o,
    };
    let name = match parse_object_ref_exec(o) {
        None => return None,
        Some((_, name)) => name,
    };
    if !crate::text::seq_eq(&fo, &name) {
        return None;
    }
    let src = match owner_source {
        None => return None,
        Some(s) => s,
    };
    if source_has_refs_feature_exec(src, &f) {
        Some(slice_vec(cand, 0, cand.len()))
    } else {
        None
    }
}

// ---------------------------------------------------------------------------
// What a ref resolves against

/// What `resolve_ref` looks a ref up in.
#[derive(Debug, Clone, PartialEq, Eq)]
pub enum RefTarget {
    /// An object ref: its kind and name.
    Object(RefObjectKind, Vec<char>),
    /// A feature ref: its owner and feature names.
    Feature(Vec<char>, Vec<char>),
    /// The current selection at this index, whose text is the ref.
    Selection(usize),
    /// Raw geometry text with no mapping.
    Raw,
}

/// The index of the first selection with this ref text.
pub open spec fn selection_with_text(selections: Seq<SelectionRef>, t: Seq<char>) -> Option<int> {
    if exists|k: int| 0 <= k < selections.len() && selections[k].ref_text@ == t {
        Some(
            choose|k: int|
                0 <= k < selections.len() && selections[k].ref_text@ == t && forall|m: int|
                    0 <= m < k ==> selections[m].ref_text@ != t,
        )
    } else {
        None
    }
}

/// An object ref with a safe name, a feature ref with safe names, the first
/// selection with the ref's text, or raw geometry; an object or feature ref
/// with an unsafe name is refused.
pub open spec fn ref_target_fits(ref_text: Seq<char>, selections: Seq<SelectionRef>, r: Result<RefTarget, ToolPolicyError>) -> bool {
    match parse_object_ref(ref_text) {
        Some((k, n)) => if valid_ref_name(n) {
            r matches Ok(RefTarget::Object(k2, n2)) && k2 == k && n2@ == n
        } else {
            r matches Err(e) && e@ == denied("ref name must be a safe identifier"@)
        },
        None => match parse_feature_ref(ref_text) {
            Some((o, f)) => if valid_ref_name(o) && valid_ref_name(f) {
                r matches Ok(RefTarget::Feature(o2, f2)) && o2@ == o && f2@ == f
            } else {
                r matches Err(e) && e@ == denied("ref name must be a safe identifier"@)
            },
            None => match selection_with_text(selections, ref_text) {
                Some(k) => r matches Ok(RefTarget::Selection(k2)) && k2 == k,
                None => r matches Ok(RefTarget::Raw),
            },
        },
    }
}

fn unsafe_ref_name() -> (r: ToolPolicyError)
    ensures
        r@ == denied("ref name must be a safe identifier"@),
{
    ToolPolicyError { message: "ref name must be a safe identifier".to_owned(), error_type: "permission_denied" }
}

/// Decides what a ref resolves against.
pub fn resolve_ref_target(ref_text: &str, selections: &Vec<SelectionRef>) -> (r: Result<RefTarget, ToolPolicyError>)
    ensures
        ref_target_fits(ref_text@, selections@, r),
{
    let t = chars_of(ref_text);
    if let Some((k, n)) = parse_object_ref_exec(&t) {
        if validate_ref_name_text(&n) {
            return Ok(RefTarget::Object(k, n));
        }
        return Err(unsafe_ref_name());
    }
    if let Some((o, f)) = parse_feature_ref_exec(&t) {
        if validate_ref_name_text(&o) && validate_ref_name_text(&f) {
            return Ok(RefTarget::Feature(o, f));
        }
        return Err(unsafe_ref_name());
    }
    match selection_index(selections, &t) {
        Some(i) => Ok(RefTarget::Selection(i)),
        None => Ok(RefTarget::Raw),
    }
}

fn selection_index(selections: &Vec<SelectionRef>, t: &[char]) -> (r: Option<usize>)
    ensures
        match (r, selection_with_text(selections@, t@)) {
            (Some(a), Some(b)) => a == b,
            (None, None) => true,
            _ => false,
        },
{
    let mut i: usize = 0;
    while i < selections.len()
        invariant
            i <= selections.len(),
            forall|m: int| 0 <= m < i ==> selections@[m].ref_text@ != t@,
        decreases selections.len() - i,
    {
        if seq_eq(&chars_of(selections[i].ref_text.as_str()), t) {
            proof {
                let k = selection_with_text(selections@, t@)->0;
                assert(selections@[i as int].ref_text@ == t@);
                if k < i {
                    assert(selections@[k].ref_text@ != t@);
                }
                if k > i {
                    assert(selections@[i as int].ref_text@ != t@);
                }
            }
            return Some(i);
        }
        i = i + 1;
    }
    proof {
        if selection_with_text(selections@, t@) is Some {
            let k = choose|k: int| 0 <= k < selections@.len() && selections@[k].ref_text@ == t@;
            assert(selections@[k].ref_text@ != t@);
        }
    }
    None
}

} // verus!
